//! Writing fixed-width integers as decimal text into a caller's buffer.
//!
//! A number is cut into chunks of four digits. The leading chunk is written
//! without leading zeros, every later chunk as exactly four digits, and
//! each chunk costs two lookups in a table of digit pairs. Nothing is
//! allocated, and no byte outside the text is touched.

use crate::runtime::decimal::{
    decimal_digits, decimal_text, digit_byte, lemma_digit_count, lemma_digits_len_bound,
    lemma_digits_split, lemma_padded_split, lemma_pow10_values, padded_digits,
    ASCII_MINUS, ASCII_ZERO,
};
use vstd::prelude::*;

verus! {

/// The two-digit decimal text of every value from 0 to 99, one after the
/// other: the pair for `v` is at `2 * v` and `2 * v + 1`.
pub const DEC_DIGITS_LUT: [u8; 200] = [
    0x30, 0x30, 0x30, 0x31, 0x30, 0x32, 0x30, 0x33, 0x30, 0x34,
    0x30, 0x35, 0x30, 0x36, 0x30, 0x37, 0x30, 0x38, 0x30, 0x39,
    0x31, 0x30, 0x31, 0x31, 0x31, 0x32, 0x31, 0x33, 0x31, 0x34,
    0x31, 0x35, 0x31, 0x36, 0x31, 0x37, 0x31, 0x38, 0x31, 0x39,
    0x32, 0x30, 0x32, 0x31, 0x32, 0x32, 0x32, 0x33, 0x32, 0x34,
    0x32, 0x35, 0x32, 0x36, 0x32, 0x37, 0x32, 0x38, 0x32, 0x39,
    0x33, 0x30, 0x33, 0x31, 0x33, 0x32, 0x33, 0x33, 0x33, 0x34,
    0x33, 0x35, 0x33, 0x36, 0x33, 0x37, 0x33, 0x38, 0x33, 0x39,
    0x34, 0x30, 0x34, 0x31, 0x34, 0x32, 0x34, 0x33, 0x34, 0x34,
    0x34, 0x35, 0x34, 0x36, 0x34, 0x37, 0x34, 0x38, 0x34, 0x39,
    0x35, 0x30, 0x35, 0x31, 0x35, 0x32, 0x35, 0x33, 0x35, 0x34,
    0x35, 0x35, 0x35, 0x36, 0x35, 0x37, 0x35, 0x38, 0x35, 0x39,
    0x36, 0x30, 0x36, 0x31, 0x36, 0x32, 0x36, 0x33, 0x36, 0x34,
    0x36, 0x35, 0x36, 0x36, 0x36, 0x37, 0x36, 0x38, 0x36, 0x39,
    0x37, 0x30, 0x37, 0x31, 0x37, 0x32, 0x37, 0x33, 0x37, 0x34,
    0x37, 0x35, 0x37, 0x36, 0x37, 0x37, 0x37, 0x38, 0x37, 0x39,
    0x38, 0x30, 0x38, 0x31, 0x38, 0x32, 0x38, 0x33, 0x38, 0x34,
    0x38, 0x35, 0x38, 0x36, 0x38, 0x37, 0x38, 0x38, 0x38, 0x39,
    0x39, 0x30, 0x39, 0x31, 0x39, 0x32, 0x39, 0x33, 0x39, 0x34,
    0x39, 0x35, 0x39, 0x36, 0x39, 0x37, 0x39, 0x38, 0x39, 0x39,
];

/// `buf` with the bytes of `text` written over it from index `pos` on; every
/// other byte stays as it was.
pub open spec fn overwrite(buf: Seq<u8>, pos: int, text: Seq<u8>) -> Seq<u8>
    recommends
        0 <= pos,
        pos + text.len() <= buf.len(),
{
    Seq::new(
        buf.len(),
        |i: int|
            if pos <= i < pos + text.len() {
                text[i - pos]
            } else {
                buf[i]
            },
    )
}

/// The table holds, for every `v` below 100, the two digits of `v`.
pub proof fn lemma_table_pairs(v: nat)
    requires
        v < 100,
    ensures
        DEC_DIGITS_LUT[2 * v as int] == digit_byte(v / 10),
        DEC_DIGITS_LUT[2 * v as int + 1] == digit_byte(v % 10),
        seq![DEC_DIGITS_LUT[2 * v as int], DEC_DIGITS_LUT[2 * v as int + 1]] == padded_digits(
            v,
            2,
        ),
{
    reveal_with_fuel(padded_digits, 3);
    assert(seq![DEC_DIGITS_LUT[2 * v as int], DEC_DIGITS_LUT[2 * v as int + 1]]
        =~= padded_digits(v, 2));
}

/// Copies the table's pair for `v` to `buf[pos]` and `buf[pos + 1]`.
fn write_pair(v: usize, buf: &mut [u8], pos: usize)
    requires
        v < 100,
        pos + 2 <= old(buf).len(),
    ensures
        final(buf)@ == overwrite(old(buf)@, pos as int, padded_digits(v as nat, 2)),
{
    let idx: usize = v << 1;
    assert(idx == 2 * v) by (bit_vector)
        requires
            idx == v << 1,
            v < 100,
    ;
    proof {
        lemma_table_pairs(v as nat);
    }
    buf[pos] = DEC_DIGITS_LUT[idx];
    buf[pos + 1] = DEC_DIGITS_LUT[idx + 1];
}

/// Writes one digit, then the table's pair for `low`: the three digits of
/// `100 * high + low`.
fn write_digit_and_pair(high: u8, low: usize, buf: &mut [u8], pos: usize)
    requires
        1 <= high < 10,
        low < 100,
        pos + 3 <= old(buf).len(),
    ensures
        final(buf)@ == overwrite(
            old(buf)@,
            pos as int,
            decimal_digits((100 * high + low) as nat),
        ),
        decimal_digits((100 * high + low) as nat).len() == 3,
{
    proof {
        lemma_pow10_values();
        lemma_digits_split((100 * high + low) as nat, 2);
    }
    buf[pos] = high + ASCII_ZERO;
    write_pair(low, buf, pos + 1);
}

/// Writes `n`, which is below 10000, at `pos` in as few digits as it has,
/// and returns how many those are.
pub fn write_small(n: u16, buf: &mut [u8], pos: usize) -> (len: usize)
    requires
        n < 10000,
        pos + 4 <= old(buf).len() || pos + decimal_digits(n as nat).len() <= old(buf).len(),
    ensures
        1 <= len <= 4,
        len == decimal_digits(n as nat).len(),
        final(buf)@ == overwrite(old(buf)@, pos as int, decimal_digits(n as nat)),
{
    proof {
        lemma_pow10_values();
    }
    if n < 100 {
        if n < 10 {
            buf[pos] = n as u8 + ASCII_ZERO;
            1
        } else {
            proof {
                lemma_digit_count(n as nat, 2);
            }
            write_pair(n as usize, buf, pos);
            2
        }
    } else if n < 1000 {
        let d1 = (n / 100) as u8;
        let d2 = n % 100;
        proof {
            lemma_digit_count(n as nat, 3);
        }
        write_digit_and_pair(d1, d2 as usize, buf, pos);
        3
    } else {
        let d1 = n / 100;
        let d2 = n % 100;
        proof {
            lemma_digit_count(n as nat, 4);
            lemma_padded_split(n as nat, 2, 2);
        }
        write_pair(d1 as usize, buf, pos);
        write_pair(d2 as usize, buf, pos + 2);
        4
    }
}

/// Writes `n`, which is below 10000, at `pos` as exactly four digits, with
/// zeros in front where it has fewer.
pub fn write_small_pad(n: u16, buf: &mut [u8], pos: usize)
    requires
        n < 10000,
        pos + 4 <= old(buf).len(),
    ensures
        final(buf)@ == overwrite(old(buf)@, pos as int, padded_digits(n as nat, 4)),
{
    let d1 = n / 100;
    let d2 = n % 100;

    write_pair(d1 as usize, buf, pos);
    write_pair(d2 as usize, buf, pos + 2);
    proof {
        lemma_pow10_values();
        lemma_padded_split(n as nat, 2, 2);
    }
}

/// Writes the decimal text of `n` at `pos` and returns its length.
pub fn write_u8(n: u8, buf: &mut [u8], pos: usize) -> (len: usize)
    requires
        pos + 3 <= old(buf).len() || pos + decimal_digits(n as nat).len() <= old(buf).len(),
    ensures
        1 <= len <= 3,
        len == decimal_digits(n as nat).len(),
        final(buf)@ == overwrite(old(buf)@, pos as int, decimal_digits(n as nat)),
{
    proof {
        lemma_pow10_values();
    }
    if n < 10 {
        buf[pos] = n + ASCII_ZERO;
        1
    } else if n < 100 {
        proof {
            lemma_digit_count(n as nat, 2);
        }
        write_pair(n as usize, buf, pos);
        2
    } else {
        let d1 = n / 100;
        let d2 = n % 100;
        proof {
            lemma_digit_count(n as nat, 3);
        }
        write_digit_and_pair(d1, d2 as usize, buf, pos);
        3
    }
}

/// Writes the decimal text of `n` at `pos` and returns its length.
pub fn write_u16(n: u16, buf: &mut [u8], pos: usize) -> (len: usize)
    requires
        pos + 5 <= old(buf).len() || pos + decimal_digits(n as nat).len() <= old(buf).len(),
    ensures
        1 <= len <= 5,
        len == decimal_digits(n as nat).len(),
        final(buf)@ == overwrite(old(buf)@, pos as int, decimal_digits(n as nat)),
{
    proof {
        lemma_pow10_values();
    }
    if n < 10000 {
        write_small(n, buf, pos)
    } else {
        let b = (n / 10000) as u8;  // 1 to 6
        let c = n % 10000;
        proof {
            lemma_digits_split(n as nat, 4);
        }

        buf[pos] = b + ASCII_ZERO;
        write_small_pad(c, buf, pos + 1);
        5
    }
}

/// Writes `n`, which is below 10^8, at `pos` as exactly eight digits.
fn write_pad_8(n: u32, buf: &mut [u8], pos: usize)
    requires
        n < 100_000_000,
        pos + 8 <= old(buf).len(),
    ensures
        final(buf)@ == overwrite(old(buf)@, pos as int, padded_digits(n as nat, 8)),
{
    let b = n / 10000;
    let c = n % 10000;

    write_small_pad(b as u16, buf, pos);
    write_small_pad(c as u16, buf, pos + 4);
    proof {
        lemma_pow10_values();
        lemma_padded_split(n as nat, 4, 4);
    }
}

/// Writes `n`, which is below 10^16, at `pos` as exactly sixteen digits.
fn write_pad_16(n: u64, buf: &mut [u8], pos: usize)
    requires
        n < 10_000_000_000_000_000,
        pos + 16 <= old(buf).len(),
    ensures
        final(buf)@ == overwrite(old(buf)@, pos as int, padded_digits(n as nat, 16)),
{
    let v0 = (n / 100_000_000) as u32;
    let v1 = (n % 100_000_000) as u32;

    write_pad_8(v0, buf, pos);
    write_pad_8(v1, buf, pos + 8);
    proof {
        lemma_pow10_values();
        lemma_padded_split(n as nat, 8, 8);
    }
}

/// Writes the decimal text of `n` at `pos` and returns its length.
pub fn write_u32(n: u32, buf: &mut [u8], pos: usize) -> (len: usize)
    requires
        pos + 10 <= old(buf).len() || pos + decimal_digits(n as nat).len() <= old(buf).len(),
    ensures
        1 <= len <= 10,
        len == decimal_digits(n as nat).len(),
        final(buf)@ == overwrite(old(buf)@, pos as int, decimal_digits(n as nat)),
{
    proof {
        lemma_pow10_values();
    }
    if n < 10000 {
        write_small(n as u16, buf, pos)
    } else if n < 100_000_000 {
        let b = n / 10000;
        let c = n % 10000;
        proof {
            lemma_digits_split(n as nat, 4);
        }

        let l = write_small(b as u16, buf, pos);
        write_small_pad(c as u16, buf, pos + l);
        l + 4
    } else {
        let a = n / 100_000_000;  // 1 to 42
        let rest = n % 100_000_000;
        proof {
            lemma_digits_split(n as nat, 8);
        }

        let l: usize = if a >= 10 {
            proof {
                lemma_digit_count(a as nat, 2);
            }
            write_pair(a as usize, buf, pos);
            2
        } else {
            buf[pos] = a as u8 + ASCII_ZERO;
            1
        };

        write_pad_8(rest, buf, pos + l);
        l + 8
    }
}

/// Writes the decimal text of `n` at `pos` and returns its length.
pub fn write_u64(n: u64, buf: &mut [u8], pos: usize) -> (len: usize)
    requires
        pos + 20 <= old(buf).len() || pos + decimal_digits(n as nat).len() <= old(buf).len(),
    ensures
        1 <= len <= 20,
        len == decimal_digits(n as nat).len(),
        final(buf)@ == overwrite(old(buf)@, pos as int, decimal_digits(n as nat)),
{
    proof {
        lemma_pow10_values();
    }
    if n < 100_000_000 {
        write_u32(n as u32, buf, pos)
    } else if n < 10_000_000_000_000_000 {
        let v0 = (n / 100_000_000) as u32;
        let v1 = (n % 100_000_000) as u32;
        proof {
            lemma_digits_split(n as nat, 8);
        }

        let l = write_u32(v0, buf, pos);
        write_pad_8(v1, buf, pos + l);
        l + 8
    } else {
        let a = n / 10_000_000_000_000_000;  // 1 to 1844
        let rest = n % 10_000_000_000_000_000;
        proof {
            lemma_digits_split(n as nat, 16);
        }

        let l = write_small(a as u16, buf, pos);
        write_pad_16(rest, buf, pos + l);
        l + 16
    }
}

/// Writes the decimal text of `n` at `pos` and returns its length.
pub fn write_u128(n: u128, buf: &mut [u8], pos: usize) -> (len: usize)
    requires
        pos + 39 <= old(buf).len() || pos + decimal_digits(n as nat).len() <= old(buf).len(),
    ensures
        1 <= len <= 39,
        len == decimal_digits(n as nat).len(),
        final(buf)@ == overwrite(old(buf)@, pos as int, decimal_digits(n as nat)),
{
    proof {
        lemma_pow10_values();
    }
    if n <= u64::MAX as u128 {
        write_u64(n as u64, buf, pos)
    } else if n < 100_000_000_000_000_000_000_000_000_000_000 {
        let a0 = (n / 10_000_000_000_000_000) as u64;
        let a1 = (n % 10_000_000_000_000_000) as u64;
        proof {
            lemma_digits_split(n as nat, 16);
        }

        let l = write_u64(a0, buf, pos);
        write_pad_16(a1, buf, pos + l);
        l + 16
    } else {
        let a0 = (n / 100_000_000_000_000_000_000_000_000_000_000) as u32;  // 1 to 3402823
        let a1 = n % 100_000_000_000_000_000_000_000_000_000_000;

        let b0 = (a1 / 10_000_000_000_000_000) as u64;
        let b1 = (a1 % 10_000_000_000_000_000) as u64;
        proof {
            lemma_digits_split(n as nat, 32);
            lemma_padded_split(a1 as nat, 16, 16);
            lemma_digits_len_bound(a0 as nat, 7);
        }

        let l = write_u32(a0, buf, pos);
        write_pad_16(b0, buf, pos + l);
        write_pad_16(b1, buf, pos + l + 16);
        l + 32
    }
}

/// An integer type whose values can be written as decimal text.
///
/// A caller reserves `MAX_LEN` bytes, calls `write_to`, and treats the
/// returned number of bytes as written.
pub trait Integer: Sized {
    /// The most bytes that the text of any value of this type takes: the
    /// digits of its largest magnitude, and one more where a minus sign can
    /// stand in front. `lemma_max_len_values` gives the number for each
    /// type, `lemma_max_len_attained` a value that needs all of them.
    const MAX_LEN: usize;

    /// The number that `self` stands for.
    spec fn value(self) -> int;

    /// Writes the decimal text of `self` at the start of `buf` and returns
    /// its length. The bytes of `buf` behind the text stay as they were.
    fn write_to(self, buf: &mut [u8]) -> (len: usize)
        requires
            old(buf).len() >= Self::MAX_LEN,
        ensures
            1 <= len <= Self::MAX_LEN,
            len == decimal_text(self.value()).len(),
            final(buf)@ == decimal_text(self.value()) + old(buf)@.skip(len as int),
    ;
}

impl Integer for u8 {
    const MAX_LEN: usize = 3;

    open spec fn value(self) -> int {
        self as int
    }

    fn write_to(self, buf: &mut [u8]) -> (len: usize) {
        write_u8(self, buf, 0)
    }
}

impl Integer for i8 {
    const MAX_LEN: usize = 4;

    open spec fn value(self) -> int {
        self as int
    }

    fn write_to(self, buf: &mut [u8]) -> (len: usize) {
        if self >= 0 {
            write_u8(self as u8, buf, 0)
        } else {
            buf[0] = ASCII_MINUS;
            let n = (!(self as u8)).wrapping_add(1);
            assert(n == -self) by (bit_vector)
                requires
                    n == (!(self as u8)).wrapping_add(1),
                    self < 0,
            ;
            write_u8(n, buf, 1) + 1
        }
    }
}

impl Integer for u16 {
    const MAX_LEN: usize = 5;

    open spec fn value(self) -> int {
        self as int
    }

    fn write_to(self, buf: &mut [u8]) -> (len: usize) {
        write_u16(self, buf, 0)
    }
}

impl Integer for i16 {
    const MAX_LEN: usize = 6;

    open spec fn value(self) -> int {
        self as int
    }

    fn write_to(self, buf: &mut [u8]) -> (len: usize) {
        if self >= 0 {
            write_u16(self as u16, buf, 0)
        } else {
            buf[0] = ASCII_MINUS;
            let n = (!(self as u16)).wrapping_add(1);
            assert(n == -self) by (bit_vector)
                requires
                    n == (!(self as u16)).wrapping_add(1),
                    self < 0,
            ;
            write_u16(n, buf, 1) + 1
        }
    }
}

impl Integer for u32 {
    const MAX_LEN: usize = 10;

    open spec fn value(self) -> int {
        self as int
    }

    fn write_to(self, buf: &mut [u8]) -> (len: usize) {
        write_u32(self, buf, 0)
    }
}

impl Integer for i32 {
    const MAX_LEN: usize = 11;

    open spec fn value(self) -> int {
        self as int
    }

    fn write_to(self, buf: &mut [u8]) -> (len: usize) {
        if self >= 0 {
            write_u32(self as u32, buf, 0)
        } else {
            buf[0] = ASCII_MINUS;
            let n = (!(self as u32)).wrapping_add(1);
            assert(n == -self) by (bit_vector)
                requires
                    n == (!(self as u32)).wrapping_add(1),
                    self < 0,
            ;
            write_u32(n, buf, 1) + 1
        }
    }
}

impl Integer for u64 {
    const MAX_LEN: usize = 20;

    open spec fn value(self) -> int {
        self as int
    }

    fn write_to(self, buf: &mut [u8]) -> (len: usize) {
        write_u64(self, buf, 0)
    }
}

impl Integer for i64 {
    const MAX_LEN: usize = 20;

    open spec fn value(self) -> int {
        self as int
    }

    fn write_to(self, buf: &mut [u8]) -> (len: usize) {
        proof {
            lemma_pow10_values();
        }
        if self >= 0 {
            write_u64(self as u64, buf, 0)
        } else {
            buf[0] = ASCII_MINUS;
            let n = (!(self as u64)).wrapping_add(1);
            assert(n == -self) by (bit_vector)
                requires
                    n == (!(self as u64)).wrapping_add(1),
                    self < 0,
            ;
            proof {
                lemma_digits_len_bound(n as nat, 19);
            }
            write_u64(n, buf, 1) + 1
        }
    }
}

impl Integer for u128 {
    const MAX_LEN: usize = 39;

    open spec fn value(self) -> int {
        self as int
    }

    fn write_to(self, buf: &mut [u8]) -> (len: usize) {
        write_u128(self, buf, 0)
    }
}

impl Integer for i128 {
    const MAX_LEN: usize = 40;

    open spec fn value(self) -> int {
        self as int
    }

    fn write_to(self, buf: &mut [u8]) -> (len: usize) {
        if self >= 0 {
            write_u128(self as u128, buf, 0)
        } else {
            buf[0] = ASCII_MINUS;
            let n = (!(self as u128)).wrapping_add(1);
            assert(n == -self) by (bit_vector)
                requires
                    n == (!(self as u128)).wrapping_add(1),
                    self < 0,
            ;
            write_u128(n, buf, 1) + 1
        }
    }
}

impl Integer for usize {
    const MAX_LEN: usize = 20;

    open spec fn value(self) -> int {
        self as int
    }

    fn write_to(self, buf: &mut [u8]) -> (len: usize) {
        write_u64(self as u64, buf, 0)
    }
}

impl Integer for isize {
    const MAX_LEN: usize = 20;

    open spec fn value(self) -> int {
        self as int
    }

    fn write_to(self, buf: &mut [u8]) -> (len: usize) {
        proof {
            lemma_pow10_values();
        }
        if self >= 0 {
            write_u64(self as u64, buf, 0)
        } else {
            buf[0] = ASCII_MINUS;
            let n = (!(self as u64)).wrapping_add(1);
            assert(n == -self) by (bit_vector)
                requires
                    n == (!(self as u64)).wrapping_add(1),
                    self < 0,
            ;
            proof {
                lemma_digits_len_bound(n as nat, 19);
            }
            write_u64(n, buf, 1) + 1
        }
    }
}

/// The value of `MAX_LEN` for each type. `usize` and `isize` are given the
/// room of their 64-bit form.
pub proof fn lemma_max_len_values()
    ensures
        <u8 as Integer>::MAX_LEN == 3,
        <i8 as Integer>::MAX_LEN == 4,
        <u16 as Integer>::MAX_LEN == 5,
        <i16 as Integer>::MAX_LEN == 6,
        <u32 as Integer>::MAX_LEN == 10,
        <i32 as Integer>::MAX_LEN == 11,
        <u64 as Integer>::MAX_LEN == 20,
        <i64 as Integer>::MAX_LEN == 20,
        <u128 as Integer>::MAX_LEN == 39,
        <i128 as Integer>::MAX_LEN == 40,
        <usize as Integer>::MAX_LEN == 20,
        <isize as Integer>::MAX_LEN == 20,
{
}

/// `MAX_LEN` is reached: the largest value of an unsigned type and the
/// smallest value of a signed type take exactly `MAX_LEN` bytes. For
/// `usize` and `isize` this holds where they are 64 bits wide.
pub proof fn lemma_max_len_attained()
    ensures
        decimal_text(u8::MAX as int).len() == <u8 as Integer>::MAX_LEN,
        decimal_text(i8::MIN as int).len() == <i8 as Integer>::MAX_LEN,
        decimal_text(u16::MAX as int).len() == <u16 as Integer>::MAX_LEN,
        decimal_text(i16::MIN as int).len() == <i16 as Integer>::MAX_LEN,
        decimal_text(u32::MAX as int).len() == <u32 as Integer>::MAX_LEN,
        decimal_text(i32::MIN as int).len() == <i32 as Integer>::MAX_LEN,
        decimal_text(u64::MAX as int).len() == <u64 as Integer>::MAX_LEN,
        decimal_text(i64::MIN as int).len() == <i64 as Integer>::MAX_LEN,
        decimal_text(u128::MAX as int).len() == <u128 as Integer>::MAX_LEN,
        decimal_text(i128::MIN as int).len() == <i128 as Integer>::MAX_LEN,
        usize::MAX == u64::MAX ==> decimal_text(usize::MAX as int).len() == <usize as Integer>::MAX_LEN,
        isize::MIN == i64::MIN ==> decimal_text(isize::MIN as int).len() == <isize as Integer>::MAX_LEN,
{
    lemma_pow10_values();
    lemma_digit_count(u8::MAX as nat, 3);
    lemma_digit_count((-(i8::MIN as int)) as nat, 3);
    lemma_digit_count(u16::MAX as nat, 5);
    lemma_digit_count((-(i16::MIN as int)) as nat, 5);
    lemma_digit_count(u32::MAX as nat, 10);
    lemma_digit_count((-(i32::MIN as int)) as nat, 10);
    lemma_digit_count(u64::MAX as nat, 20);
    lemma_digit_count((-(i64::MIN as int)) as nat, 19);
    lemma_digit_count(u128::MAX as nat, 39);
    lemma_digit_count((-(i128::MIN as int)) as nat, 39);
}

} // verus!
