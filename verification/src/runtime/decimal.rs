//! Decimal notation as a mathematical object: which ASCII bytes denote which
//! number. Everything here is ghost code: the definitions that the writing
//! routines are held to, and the facts about them that are proved once.

use vstd::arithmetic::div_mod::{lemma_breakdown, lemma_div_denominator};
use vstd::prelude::*;

verus! {

/// ASCII code of the digit `0`.
pub const ASCII_ZERO: u8 = 0x30;

/// ASCII code of the minus sign.
pub const ASCII_MINUS: u8 = 0x2d;

/// The ASCII byte of the decimal digit `d`.
pub open spec fn digit_byte(d: nat) -> u8
    recommends
        d < 10,
{
    (ASCII_ZERO + d) as u8
}

/// Ten to the power `k`.
pub open spec fn pow10(k: nat) -> nat
    decreases k,
{
    if k == 0 {
        1
    } else {
        10 * pow10((k - 1) as nat)
    }
}

/// The shortest decimal notation of `n`: no leading zero, except that zero
/// itself is the single digit `0`.
pub open spec fn decimal_digits(n: nat) -> Seq<u8>
    decreases n,
{
    if n < 10 {
        seq![digit_byte(n)]
    } else {
        decimal_digits(n / 10).push(digit_byte(n % 10))
    }
}

/// The last `width` decimal digits of `n`, with zeros in front where `n` has
/// fewer digits.
pub open spec fn padded_digits(n: nat, width: nat) -> Seq<u8>
    decreases width,
{
    if width == 0 {
        Seq::empty()
    } else {
        padded_digits(n / 10, (width - 1) as nat).push(digit_byte(n % 10))
    }
}

/// The decimal text of an integer: a minus sign exactly when `v` is negative,
/// then the shortest notation of its magnitude.
pub open spec fn decimal_text(v: int) -> Seq<u8> {
    if v < 0 {
        seq![ASCII_MINUS] + decimal_digits((-v) as nat)
    } else {
        decimal_digits(v as nat)
    }
}

/// The number that a sequence of ASCII digits denotes, most significant
/// digit first.
pub open spec fn digits_value(s: Seq<u8>) -> int
    decreases s.len(),
{
    if s.len() == 0 {
        0
    } else {
        10 * digits_value(s.drop_last()) + (s.last() - ASCII_ZERO)
    }
}

/// Whether `b` is one of the ASCII digits `0` to `9`.
pub open spec fn is_digit_byte(b: u8) -> bool {
    ASCII_ZERO <= b <= ASCII_ZERO + 9
}

/// Powers of ten are positive, and each is ten times the one before.
pub proof fn lemma_pow10_step(k: nat)
    ensures
        pow10(k) >= 1,
        pow10(k + 1) == 10 * pow10(k),
    decreases k,
{
    if k > 0 {
        lemma_pow10_step((k - 1) as nat);
    }
}

/// The powers of ten that bound the fixed-width integer types and at which
/// the routines of this crate cut a number.
pub proof fn lemma_pow10_values()
    ensures
        pow10(0) == 1,
        pow10(1) == 10,
        pow10(2) == 100,
        pow10(3) == 1_000,
        pow10(4) == 10_000,
        pow10(5) == 100_000,
        pow10(7) == 10_000_000,
        pow10(8) == 100_000_000,
        pow10(9) == 1_000_000_000,
        pow10(10) == 10_000_000_000,
        pow10(16) == 10_000_000_000_000_000,
        pow10(18) == 1_000_000_000_000_000_000,
        pow10(19) == 10_000_000_000_000_000_000,
        pow10(20) == 100_000_000_000_000_000_000,
        pow10(32) == 100_000_000_000_000_000_000_000_000_000_000,
        pow10(38) == 100_000_000_000_000_000_000_000_000_000_000_000_000,
        pow10(39) == 1_000_000_000_000_000_000_000_000_000_000_000_000_000,
{
    // in steps of at most five factors of ten
    reveal_with_fuel(pow10, 6);
    assert(pow10(5) == 100_000);
    assert(pow10(10) == 100_000 * pow10(5));
    assert(pow10(15) == 100_000 * pow10(10));
    assert(pow10(20) == 100_000 * pow10(15));
    assert(pow10(25) == 100_000 * pow10(20));
    assert(pow10(30) == 100_000 * pow10(25));
    assert(pow10(35) == 100_000 * pow10(30));
    assert(pow10(39) == 10_000 * pow10(35));
}

/// Dropping the last digit commutes with cutting at a power of ten: for a
/// cut `10 * p`, the quotient, the remainder's front and the last digit.
proof fn lemma_drop_last_digit(m: nat, p: nat)
    requires
        p > 0,
    ensures
        (m / 10) / p == m / (10 * p),
        (m / 10) % p == (m % (10 * p)) / 10,
        (m % (10 * p)) % 10 == m % 10,
{
    lemma_div_denominator(m as int, 10, p as int);
    lemma_breakdown(m as int, 10, p as int);
}

/// A number of at least `k + 1` digits is written as its quotient by
/// `10^k`, followed by the remainder in exactly `k` digits: `k` bytes more
/// than the quotient alone.
pub proof fn lemma_digits_split(n: nat, k: nat)
    requires
        n >= pow10(k),
    ensures
        decimal_digits(n) == decimal_digits(n / pow10(k)) + padded_digits(n % pow10(k), k),
        decimal_digits(n).len() == decimal_digits(n / pow10(k)).len() + k,
    decreases k,
{
    lemma_padded_len(n % pow10(k), k);
    if k == 0 {
        assert(padded_digits(n % pow10(k), k) =~= Seq::<u8>::empty());
        assert(decimal_digits(n) =~= decimal_digits(n / pow10(k)) + Seq::<u8>::empty());
    } else {
        let p = pow10((k - 1) as nat);
        lemma_pow10_step((k - 1) as nat);
        lemma_drop_last_digit(n, p);
        lemma_digits_split(n / 10, (k - 1) as nat);
        assert(decimal_digits(n) =~= decimal_digits(n / (10 * p)) + padded_digits(
            n % (10 * p),
            k,
        ));
    }
}

/// A field of `a + b` digits is a field of `a` digits followed by one of
/// `b` digits.
pub proof fn lemma_padded_split(m: nat, a: nat, b: nat)
    ensures
        padded_digits(m, a + b) == padded_digits(m / pow10(b), a) + padded_digits(
            m % pow10(b),
            b,
        ),
        padded_digits(m / pow10(b), a).len() == a,
        padded_digits(m % pow10(b), b).len() == b,
    decreases b,
{
    lemma_padded_len(m / pow10(b), a);
    lemma_padded_len(m % pow10(b), b);
    if b == 0 {
        assert(pow10(b) == 1);
        assert(m / 1 == m && m % 1 == 0);
        assert(padded_digits(m, a + b) =~= padded_digits(m, a) + padded_digits(m % pow10(b), b));
    } else {
        let p = pow10((b - 1) as nat);
        lemma_pow10_step((b - 1) as nat);
        lemma_drop_last_digit(m, p);
        lemma_padded_split(m / 10, a, (b - 1) as nat);
        assert(padded_digits(m, a + b) =~= padded_digits(m / (10 * p), a) + padded_digits(
            m % (10 * p),
            b,
        ));
    }
}

/// A field of `width` digits has `width` bytes.
pub proof fn lemma_padded_len(m: nat, width: nat)
    ensures
        padded_digits(m, width).len() == width,
    decreases width,
{
    if width > 0 {
        lemma_padded_len(m / 10, (width - 1) as nat);
    }
}

/// A number with exactly `k` digits is written as its own field of `k`
/// digits: nothing is padded and nothing is cut.
pub proof fn lemma_digit_count(n: nat, k: nat)
    requires
        k >= 1,
        n < pow10(k),
        k == 1 || n >= pow10((k - 1) as nat),
    ensures
        decimal_digits(n).len() == k,
        decimal_digits(n) == padded_digits(n, k),
    decreases k,
{
    lemma_pow10_step((k - 1) as nat);
    if k == 1 {
        reveal_with_fuel(padded_digits, 2);
    } else {
        lemma_pow10_step((k - 2) as nat);
        lemma_digit_count(n / 10, (k - 1) as nat);
    }
}

/// A number below `10^k` takes at most `k` bytes.
pub proof fn lemma_digits_len_bound(n: nat, k: nat)
    requires
        k >= 1,
        n < pow10(k),
    ensures
        1 <= decimal_digits(n).len() <= k,
    decreases k,
{
    lemma_pow10_step((k - 1) as nat);
    if n >= 10 {
        lemma_digits_len_bound(n / 10, (k - 1) as nat);
    }
}

/// Every byte of a number's notation is an ASCII digit.
pub proof fn lemma_digits_are_ascii_digits(n: nat)
    ensures
        forall|i: int|
            0 <= i < decimal_digits(n).len() ==> is_digit_byte(#[trigger] decimal_digits(n)[i]),
    decreases n,
{
    if n >= 10 {
        lemma_digits_are_ascii_digits(n / 10);
    }
    assert forall|i: int| 0 <= i < decimal_digits(n).len() implies is_digit_byte(
        #[trigger] decimal_digits(n)[i],
    ) by {
        if n >= 10 && i < decimal_digits(n / 10).len() {
            assert(decimal_digits(n)[i] == decimal_digits(n / 10)[i]);
        }
    }
}

/// The notation has no leading zero: zero is the single digit `0`, and the
/// notation of every other number starts with a digit from 1 to 9.
pub proof fn lemma_no_leading_zero(n: nat)
    ensures
        n == 0 ==> decimal_digits(n) == seq![ASCII_ZERO],
        n > 0 ==> ASCII_ZERO < decimal_digits(n)[0] <= ASCII_ZERO + 9,
    decreases n,
{
    if n >= 10 {
        lemma_no_leading_zero(n / 10);
    }
}

/// Reading the notation of `n` back, digit by digit, gives `n`.
pub proof fn lemma_digits_denote(n: nat)
    ensures
        digits_value(decimal_digits(n)) == n,
    decreases n,
{
    if n < 10 {
        assert(digits_value(decimal_digits(n).drop_last()) == 0);
    } else {
        lemma_digits_denote(n / 10);
        assert(decimal_digits(n).drop_last() =~= decimal_digits(n / 10));
    }
}

/// The notation is the only one of its kind: a sequence of ASCII digits
/// without a leading zero is the notation of the number it denotes.
pub proof fn lemma_digits_unique(s: Seq<u8>)
    requires
        s.len() >= 1,
        forall|i: int| 0 <= i < s.len() ==> is_digit_byte(#[trigger] s[i]),
        s.len() > 1 ==> s[0] != ASCII_ZERO,
    ensures
        digits_value(s) >= 0,
        s.len() > 1 ==> digits_value(s) >= 10,
        s == decimal_digits(digits_value(s) as nat),
    decreases s.len(),
{
    let init = s.drop_last();
    if s.len() == 1 {
        assert(digits_value(init) == 0);
    } else {
        lemma_digits_unique(init);
    }
}

/// The text starts with a minus sign exactly when the value is negative,
/// and what follows the sign is the notation of the magnitude.
pub proof fn lemma_text_sign(v: int)
    ensures
        decimal_text(v)[0] == ASCII_MINUS <==> v < 0,
        v < 0 ==> decimal_text(v).skip(1) == decimal_digits((-v) as nat),
        v >= 0 ==> decimal_text(v) == decimal_digits(v as nat),
        decimal_text(v).len() == decimal_digits(vstd::math::abs(v)).len() + if v < 0 {
            1int
        } else {
            0int
        },
{
    if v >= 0 {
        lemma_digits_are_ascii_digits(v as nat);
    }
}

/// A number and its negation are written with the same digits: the text of
/// the negative one is a minus sign followed by the text of the positive
/// one. Zero is its own negation and has one text.
pub proof fn lemma_negation_adds_minus(v: int)
    ensures
        v > 0 ==> decimal_text(-v) == seq![ASCII_MINUS] + decimal_text(v),
        v < 0 ==> decimal_text(v) == seq![ASCII_MINUS] + decimal_text(-v),
        v == 0 ==> decimal_text(-v) == decimal_text(v),
{
}

/// Crossing a power of ten adds exactly one digit: `10^k - 1` is the last
/// number of `k` digits and `10^k` the first of `k + 1`.
pub proof fn lemma_power_of_ten_boundary(k: nat)
    requires
        k >= 1,
    ensures
        decimal_digits((pow10(k) - 1) as nat).len() == k,
        decimal_digits(pow10(k)).len() == k + 1,
        decimal_digits(pow10(k)).len() == decimal_digits((pow10(k) - 1) as nat).len() + 1,
{
    lemma_pow10_step(k);
    lemma_digit_count((pow10(k) - 1) as nat, k);
    lemma_digit_count(pow10(k), k + 1);
}

} // verus!
