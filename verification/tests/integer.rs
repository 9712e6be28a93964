use sailfish::runtime::integer::Integer;

fn check<T: Integer + Copy + std::fmt::Display>(val: T, buf: &mut Vec<u8>) {
    assert!(buf.len() >= T::MAX_LEN);
    let l = val.write_to(buf);
    assert_eq!(std::str::from_utf8(&buf[..l]).unwrap(), format!("{}", val));
}

// comprehensive test
#[test]
fn test_i8_all() {
    let mut buf = vec![0u8; i8::MAX_LEN];

    for n in std::i8::MIN..=std::i8::MAX {
        let l = n.write_to(&mut buf);
        assert_eq!(std::str::from_utf8(&buf[..l]).unwrap(), format!("{}", n));
    }
}

// random test
#[test]
fn test_u64_random() {
    let mut buf = vec![0u8; u64::MAX_LEN];

    let mut state = 88172645463325252u64;

    for _ in 0..100 {
        // xorshift
        state ^= state << 13;
        state ^= state >> 7;
        state ^= state << 17;

        let l = state.write_to(&mut buf);
        assert_eq!(std::str::from_utf8(&buf[..l]).unwrap(), format!("{}", state));
    }
}

// boundary tests
#[test]
fn test_u8() {
    let mut buf = vec![0u8; u8::MAX_LEN];
    for val in [0u8, 1, 9, 10, 99, 100, 254, 255] {
        check(val, &mut buf);
    }
}

#[test]
fn test_u16() {
    let mut buf = vec![0u8; u16::MAX_LEN];
    for val in [0u16, 9, 10, 99, 100, 999, 1000, 9999, 10000, 65535] {
        check(val, &mut buf);
    }
}

#[test]
fn test_u32() {
    let mut buf = vec![0u8; u32::MAX_LEN];
    for val in [
        0u32, 9, 10, 99, 100, 999, 1000, 9999, 10000, 99999, 100000, 999999, 1000000, 9999999,
        10000000, 99999999, 100000000, 999999999, 1000000000, 4294967295,
    ] {
        check(val, &mut buf);
    }
}

#[test]
fn test_u64() {
    let mut buf = vec![0u8; u64::MAX_LEN];
    for val in [
        0u64,
        9,
        10,
        99,
        100,
        999,
        1000,
        9999,
        10000,
        99999,
        100000,
        999999,
        1000000,
        9999999,
        10000000,
        99999999,
        100000000,
        999999999,
        1000000000,
        9999999999,
        10000000000,
        99999999999,
        100000000000,
        999999999999,
        1000000000000,
        9999999999999,
        10000000000000,
        99999999999999,
        100000000000000,
        999999999999999,
        1000000000000000,
        9999999999999999,
        10000000000000000,
        99999999999999999,
        100000000000000000,
        999999999999999999,
        1000000000000000000,
        9999999999999999999,
        10000000000000000000,
        18446744073709551615,
    ] {
        check(val, &mut buf);
    }
}

#[test]
fn test_u128() {
    let mut buf = vec![0u8; u128::MAX_LEN];
    for val in [
        0u128,
        9,
        10,
        99,
        100,
        999,
        1000,
        9999,
        10000,
        99999,
        100000,
        999999,
        1000000,
        9999999,
        10000000,
        99999999,
        100000000,
        999999999,
        1000000000,
        9999999999,
        10000000000,
        99999999999,
        100000000000,
        999999999999,
        1000000000000,
        9999999999999,
        10000000000000,
        99999999999999,
        100000000000000,
        999999999999999,
        1000000000000000,
        9999999999999999,
        10000000000000000,
        99999999999999999,
        100000000000000000,
        999999999999999999,
        1000000000000000000,
        9999999999999999999,
        10000000000000000000,
        99999999999999999999,
        100000000000000000000,
        999999999999999999999,
        1000000000000000000000,
        9999999999999999999999,
        10000000000000000000000,
        99999999999999999999999,
        100000000000000000000000,
        100000000000000000000000,
        999999999999999999999999,
        1000000000000000000000000,
        9999999999999999999999999,
        10000000000000000000000000,
        99999999999999999999999999,
        100000000000000000000000000,
        999999999999999999999999999,
        1000000000000000000000000000,
        9999999999999999999999999999,
        10000000000000000000000000000,
        99999999999999999999999999999,
        100000000000000000000000000000,
        999999999999999999999999999999,
        1000000000000000000000000000000,
        9999999999999999999999999999999,
        10000000000000000000000000000000,
        99999999999999999999999999999999,
        100000000000000000000000000000000,
        999999999999999999999999999999999,
        1000000000000000000000000000000000,
        9999999999999999999999999999999999,
        10000000000000000000000000000000000,
        99999999999999999999999999999999999,
        100000000000000000000000000000000000,
        999999999999999999999999999999999999,
        1000000000000000000000000000000000000,
        9999999999999999999999999999999999999,
        10000000000000000000000000000000000000,
        99999999999999999999999999999999999999,
        100000000000000000000000000000000000000,
        340282366920938463463374607431768211455,
    ] {
        check(val, &mut buf);
    }
}

#[test]
fn test_i8() {
    let mut buf = vec![0u8; i8::MAX_LEN];
    check(std::i8::MIN, &mut buf);
    check(std::i8::MAX, &mut buf);
}

#[test]
fn test_i16() {
    let mut buf = vec![0u8; i16::MAX_LEN];
    check(std::i16::MIN, &mut buf);
    check(std::i16::MAX, &mut buf);
}

#[test]
fn test_i32() {
    let mut buf = vec![0u8; i32::MAX_LEN];
    check(std::i32::MIN, &mut buf);
    check(std::i32::MAX, &mut buf);
}

#[test]
fn test_i64() {
    let mut buf = vec![0u8; i64::MAX_LEN];
    check(std::i64::MIN, &mut buf);
    check(std::i64::MAX, &mut buf);
}

#[test]
fn test_i128() {
    let mut buf = vec![0u8; i128::MAX_LEN];
    check(std::i128::MIN, &mut buf);
    check(std::i128::MAX, &mut buf);
}

#[test]
fn test_usize() {
    let mut buf = vec![0u8; usize::MAX_LEN];
    for val in [0usize, 9, 10, 9999, 10000, 4294967295, std::usize::MAX] {
        check(val, &mut buf);
    }
}

#[test]
fn test_isize() {
    let mut buf = vec![0u8; isize::MAX_LEN];
    for val in [0isize, -1, 1, -9999, 10000, -2147483648, std::isize::MIN, std::isize::MAX] {
        check(val, &mut buf);
    }
}

#[test]
fn test_u8_all() {
    let mut buf = vec![0u8; u8::MAX_LEN];
    for n in std::u8::MIN..=std::u8::MAX {
        check(n, &mut buf);
    }
}

#[test]
fn test_u16_all() {
    let mut buf = vec![0u8; u16::MAX_LEN];
    for n in std::u16::MIN..=std::u16::MAX {
        check(n, &mut buf);
    }
}

#[test]
fn test_i16_all() {
    let mut buf = vec![0u8; i16::MAX_LEN];
    for n in std::i16::MIN..=std::i16::MAX {
        check(n, &mut buf);
    }
}

#[test]
fn test_i32_random() {
    let mut buf = vec![0u8; i32::MAX_LEN];
    let mut state = 2463534242u32;
    for _ in 0..1000 {
        state ^= state << 13;
        state ^= state >> 17;
        state ^= state << 5;
        check(state as i32, &mut buf);
        check(state, &mut buf);
    }
}

#[test]
fn test_i64_random() {
    let mut buf = vec![0u8; i64::MAX_LEN];
    let mut state = 88172645463325252u64;
    for _ in 0..1000 {
        state ^= state << 13;
        state ^= state >> 7;
        state ^= state << 17;
        check(state as i64, &mut buf);
        check((state >> (state % 64)) as i64, &mut buf);
    }
}

#[test]
fn test_u128_random() {
    let mut buf = vec![0u8; i128::MAX_LEN];
    let mut state = 88172645463325252u64;
    for _ in 0..1000 {
        state ^= state << 13;
        state ^= state >> 7;
        state ^= state << 17;
        let high = state as u128;
        state ^= state << 13;
        state ^= state >> 7;
        state ^= state << 17;
        let wide = (high << 64) | state as u128;
        check(wide, &mut buf);
        check(wide as i128, &mut buf);
        // every length from 1 to 39 digits
        check(wide >> (state % 128), &mut buf);
    }
}

// A 128-bit value whose low sixteen digits differ in their two halves.
#[test]
fn test_u128_low_halves_differ() {
    let mut buf = vec![0u8; u128::MAX_LEN];
    let l = 12345678901234567890123456789012u128.write_to(&mut buf);
    assert_eq!(&buf[..l], b"12345678901234567890123456789012");
    let l = 100000000000000000000000000001u128.write_to(&mut buf);
    assert_eq!(&buf[..l], b"100000000000000000000000000001");
    let l = 18446744073709551616u128.write_to(&mut buf);
    assert_eq!(&buf[..l], b"18446744073709551616");
}
