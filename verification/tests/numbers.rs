use zink::num::safe::ArithmeticError;
use zink::primitives::U256;
use zink::{Numeric, SafeNumeric};

#[test]
fn unsigned_addition_at_the_boundary() {
    assert_eq!(250u8.safe_add(5), Ok(255));
    assert_eq!(250u8.safe_add(10), Err(ArithmeticError::AdditionOverflow));
    assert_eq!(250u8.safe_add(6), Err(ArithmeticError::AdditionOverflow));
    assert_eq!(u16::MAX.safe_add(0), Ok(u16::MAX));
    assert_eq!(u32::MAX.safe_add(1), Err(ArithmeticError::AdditionOverflow));
    assert_eq!((u64::MAX - 1).safe_add(1), Ok(u64::MAX));
    assert_eq!(u64::MAX.safe_add(u64::MAX), Err(ArithmeticError::AdditionOverflow));
}

#[test]
fn signed_addition_at_the_boundary() {
    assert_eq!(100i8.safe_add(27), Ok(127));
    assert_eq!(100i8.safe_add(28), Err(ArithmeticError::AdditionOverflow));
    assert_eq!((-100i8).safe_add(-28), Ok(-128));
    assert_eq!((-100i8).safe_add(-29), Err(ArithmeticError::AdditionOverflow));
    assert_eq!(i8::MAX.safe_add(i8::MIN), Ok(-1));
    assert_eq!(i16::MAX.safe_add(1), Err(ArithmeticError::AdditionOverflow));
    assert_eq!(i32::MIN.safe_add(-1), Err(ArithmeticError::AdditionOverflow));
    assert_eq!(i64::MAX.safe_add(0), Ok(i64::MAX));
    assert_eq!(i64::MIN.safe_add(i64::MIN), Err(ArithmeticError::AdditionOverflow));
}

#[test]
fn signed_division_of_the_minimum_by_minus_one_fails() {
    assert_eq!(i8::MIN.safe_div(-1), Err(ArithmeticError::DivisionOverflow));
    assert_eq!(i16::MIN.safe_div(-1), Err(ArithmeticError::DivisionOverflow));
    assert_eq!(i32::MIN.safe_div(-1), Err(ArithmeticError::DivisionOverflow));
    assert_eq!(i64::MIN.safe_div(-1), Err(ArithmeticError::DivisionOverflow));
    assert_eq!(i8::MIN.safe_div(1), Ok(i8::MIN));
    assert_eq!((i8::MIN + 1).safe_div(-1), Ok(i8::MAX));
}

#[test]
fn division_by_zero_fails() {
    assert_eq!(1u8.safe_div(0), Err(ArithmeticError::DivisionByZero));
    assert_eq!(0u64.safe_div(0), Err(ArithmeticError::DivisionByZero));
    assert_eq!((-1i32).safe_div(0), Err(ArithmeticError::DivisionByZero));
    assert_eq!(i8::MIN.safe_div(0), Err(ArithmeticError::DivisionByZero));
}

#[test]
fn division_rounds_towards_zero() {
    assert_eq!(7u8.safe_div(2), Ok(3));
    assert_eq!(7i8.safe_div(-2), Ok(-3));
    assert_eq!((-7i16).safe_div(2), Ok(-3));
    assert_eq!((-7i32).safe_div(-2), Ok(3));
    assert_eq!(0i64.safe_div(-5), Ok(0));
    assert_eq!(u64::MAX.safe_div(1), Ok(u64::MAX));
}

#[test]
fn unsigned_subtraction_fails_below_zero() {
    assert_eq!(5u8.safe_sub(5), Ok(0));
    assert_eq!(5u8.safe_sub(6), Err(ArithmeticError::SubtractionOverflow));
    assert_eq!(0u16.safe_sub(1), Err(ArithmeticError::SubtractionOverflow));
    assert_eq!(u32::MAX.safe_sub(u32::MAX), Ok(0));
    assert_eq!(1u64.safe_sub(u64::MAX), Err(ArithmeticError::SubtractionOverflow));
}

#[test]
fn signed_subtraction_fails_above_the_maximum_only() {
    assert_eq!(100i8.safe_sub(-27), Ok(127));
    assert_eq!(100i8.safe_sub(-28), Err(ArithmeticError::SubtractionOverflow));
    assert_eq!(i8::MIN.safe_sub(1), Ok(127));
    assert_eq!((-100i8).safe_sub(28), Ok(-128));
    assert_eq!((-100i8).safe_sub(29), Ok(127));
    assert_eq!(i32::MAX.safe_sub(-1), Err(ArithmeticError::SubtractionOverflow));
    assert_eq!(i64::MIN.safe_sub(1), Ok(i64::MAX));
    assert_eq!(0i16.safe_sub(i16::MIN), Err(ArithmeticError::SubtractionOverflow));
}

#[test]
fn multiplication_fails_where_the_product_leaves_the_range() {
    assert_eq!(16u8.safe_mul(15), Ok(240));
    assert_eq!(16u8.safe_mul(16), Err(ArithmeticError::MultiplicationOverflow));
    assert_eq!(255u8.safe_mul(0), Ok(0));
    assert_eq!(0u8.safe_mul(255), Ok(0));
    assert_eq!(u16::MAX.safe_mul(2), Err(ArithmeticError::MultiplicationOverflow));
    assert_eq!(65536u32.safe_mul(65535), Ok(4294901760));
    assert_eq!(65536u32.safe_mul(65536), Err(ArithmeticError::MultiplicationOverflow));
    assert_eq!(u64::MAX.safe_mul(1), Ok(u64::MAX));
    assert_eq!(u64::MAX.safe_mul(u64::MAX), Err(ArithmeticError::MultiplicationOverflow));
    assert_eq!(8i8.safe_mul(-16), Ok(-128));
    assert_eq!(8i8.safe_mul(16), Err(ArithmeticError::MultiplicationOverflow));
    assert_eq!(i8::MIN.safe_mul(-1), Err(ArithmeticError::MultiplicationOverflow));
    assert_eq!((-1i8).safe_mul(i8::MIN), Err(ArithmeticError::MultiplicationOverflow));
    assert_eq!(i32::MIN.safe_mul(1), Ok(i32::MIN));
    assert_eq!(i64::MAX.safe_mul(-1), Ok(-i64::MAX));
    assert_eq!(i64::MIN.safe_mul(2), Err(ArithmeticError::MultiplicationOverflow));
    assert_eq!(i16::MIN.safe_mul(0), Ok(0));
}

#[test]
fn bounds_of_the_types() {
    assert_eq!(<u8 as SafeNumeric>::max(), 255);
    assert_eq!(<u8 as SafeNumeric>::min(), 0);
    assert_eq!(<i8 as SafeNumeric>::max(), 127);
    assert_eq!(<i8 as SafeNumeric>::min(), -128);
    assert_eq!(<i64 as SafeNumeric>::min(), i64::MIN);
    assert_eq!(<u64 as SafeNumeric>::max(), u64::MAX);
    assert_eq!(<U256 as SafeNumeric>::min(), U256::from(0));
    assert_eq!(<U256 as SafeNumeric>::max().bytes32(), [0xff; 32]);
}

#[test]
fn modular_arithmetic_on_unsigned_numbers() {
    assert_eq!(7u8.addmod(6, 5), 3);
    assert_eq!(255u8.addmod(255, 7), 6);
    assert_eq!(255u8.mulmod(255, 7), 2);
    assert_eq!(7u8.addmod(6, 0), 0);
    assert_eq!(7u8.mulmod(6, 0), 0);
    assert_eq!(u16::MAX.mulmod(u16::MAX, 1000), 225);
    assert_eq!(u32::MAX.addmod(u32::MAX, u32::MAX), 0);
    assert_eq!(u32::MAX.mulmod(u32::MAX, 1_000_000_007), 992_409_480);
    assert_eq!(u64::MAX.addmod(1, 10), 6);
    assert_eq!(u64::MAX.mulmod(u64::MAX, u64::MAX - 1), 1);
}

#[test]
fn modular_arithmetic_on_signed_numbers_uses_the_bit_pattern() {
    assert_eq!(7i8.addmod(6, 5), 3);
    assert_eq!((-1i8).addmod(0, 7), 3);
    assert_eq!((-1i8).addmod(1, -1), 1);
    assert_eq!((-1i8).mulmod(2, -1), 0);
    assert_eq!((-2i8).addmod(0, -1), -2);
    assert_eq!((-1i32).addmod(1, 1 << 20), 0);
    assert_eq!(3i64.mulmod(-1, 10), 5);
    assert_eq!(3i16.mulmod(4, 0), 0);
}

fn word(value: u128) -> U256 {
    let mut bytes = [0u8; 32];
    bytes[16..].copy_from_slice(&value.to_be_bytes());
    U256::from_be_bytes(bytes)
}

fn word_of(hi: u128, lo: u128) -> U256 {
    let mut bytes = [0u8; 32];
    bytes[..16].copy_from_slice(&hi.to_be_bytes());
    bytes[16..].copy_from_slice(&lo.to_be_bytes());
    U256::from_be_bytes(bytes)
}

#[test]
fn word_from_a_small_number() {
    let mut bytes = [0u8; 32];
    bytes[24..].copy_from_slice(&0x0102_0304_0506_0708u64.to_be_bytes());
    assert_eq!(U256::from(0x0102_0304_0506_0708u64).bytes32(), bytes);
    assert_eq!(U256::empty().bytes32(), [0u8; 32]);
    assert_eq!(U256::from(9).to_bytes32().0, word(9).bytes32());
}

#[test]
fn word_addition_wraps() {
    assert_eq!(word(250).add(word(5)), word(255));
    assert_eq!(word(u128::MAX).add(word(1)), word_of(1, 0));
    assert_eq!(U256::max().add(word(1)), word(0));
    assert_eq!(U256::max().add(U256::max()), word_of(u128::MAX, u128::MAX - 1));
    assert_eq!(word_of(1, u128::MAX).add(word_of(2, 3)), word_of(4, 2));
}

#[test]
fn word_subtraction_wraps() {
    assert_eq!(word(5).sub(word(3)), word(2));
    assert_eq!(word(0).sub(word(1)), U256::max());
    assert_eq!(word_of(1, 0).sub(word(1)), word(u128::MAX));
    assert_eq!(word_of(4, 2).sub(word_of(2, 3)), word_of(1, u128::MAX));
}

#[test]
fn the_minus_sign_subtracts_words() {
    assert_eq!(word(5) - word(3), word(2));
    assert_eq!(word(0) - word(1), U256::max());
}

#[test]
fn word_comparison() {
    assert!(word(1).lt(word(2)));
    assert!(!word(2).lt(word(2)));
    assert!(word(u128::MAX).lt(word_of(1, 0)));
    assert!(!word_of(1, 0).lt(word(u128::MAX)));
    assert!(word_of(1, 5).lt(word_of(1, 6)));
    assert!(word(7).eq(U256::from(7)));
    assert!(!word(7).eq(word_of(7, 0)));
    assert!(word(u128::MAX) < word_of(1, 0));
    assert!(word_of(2, 0) > word_of(1, u128::MAX));
}

#[test]
fn word_division() {
    assert_eq!(word(100).div(word(7)), word(14));
    assert_eq!(word(100).div(word(0)), word(0));
    assert_eq!(word(0).div(word(5)), word(0));
    assert_eq!(word_of(1, 0).div(word(2)), word(1 << 127));
    assert_eq!(U256::max().div(U256::max()), word(1));
    assert_eq!(U256::max().div(word_of(1, 0)), word(u128::MAX));
    assert_eq!(word_of(6, 0).div(word_of(0, 3)), word_of(2, 0));
    assert_eq!(word(5).div(word_of(1, 0)), word(0));
}

#[test]
fn word_addition_modulo() {
    assert_eq!(word(7).addmod(word(6), word(5)), word(3));
    assert_eq!(word(7).addmod(word(6), word(0)), word(0));
    assert_eq!(U256::max().addmod(U256::max(), word(10)), word(0));
    assert_eq!(U256::max().addmod(word(1), word(10)), word(6));
    assert_eq!(U256::max().addmod(word(2), U256::max()), word(2));
}

#[test]
fn word_multiplication_modulo() {
    assert_eq!(word(7).mulmod(word(6), word(5)), word(2));
    assert_eq!(word(7).mulmod(word(6), word(0)), word(0));
    assert_eq!(word(7).mulmod(word(6), word(100)), word(42));
    let a = 0xffff_ffff_ffff_ffff_ffffu128;
    let b = 0xffff_ffff_ffffu128;
    assert_eq!(word(a).mulmod(word(b), word(1_000_000_007)), word(a % 1_000_000_007 * (b % 1_000_000_007) % 1_000_000_007));
    // the largest word is 5 modulo 10, so its square is 5 modulo 10
    assert_eq!(U256::max().mulmod(U256::max(), word(10)), word(5));
    assert_eq!(word_of(1, 0).mulmod(word_of(1, 0), U256::max()), word(1));
    assert_eq!(word(u128::MAX).mulmod(word(u128::MAX), word_of(1, 0)), word(1));
}

#[test]
fn checked_word_addition() {
    assert_eq!(word(250).safe_add(word(5)), Ok(word(255)));
    assert_eq!(U256::max().safe_add(word(0)), Ok(U256::max()));
    assert_eq!(U256::max().safe_add(word(1)), Err(ArithmeticError::AdditionOverflow));
    assert_eq!(
        word_of(1 << 127, 0).safe_add(word_of(1 << 127, 0)),
        Err(ArithmeticError::AdditionOverflow)
    );
}

#[test]
fn checked_word_subtraction() {
    assert_eq!(word(5).safe_sub(word(5)), Ok(word(0)));
    assert_eq!(word(5).safe_sub(word(6)), Err(ArithmeticError::SubtractionOverflow));
    assert_eq!(word_of(1, 0).safe_sub(word(1)), Ok(word(u128::MAX)));
}

#[test]
fn checked_word_multiplication() {
    assert_eq!(word(6).safe_mul(word(7)), Ok(word(42)));
    assert_eq!(word(6).safe_mul(word(0)), Ok(word(0)));
    assert_eq!(word(0).safe_mul(word(6)), Ok(word(0)));
    assert_eq!(U256::max().safe_mul(word(1)), Ok(U256::max()));
    assert_eq!(word(1).safe_mul(U256::max()), Ok(U256::max()));
    assert_eq!(U256::max().safe_mul(word(0)), Ok(word(0)));
    assert_eq!(
        word(u128::MAX).safe_mul(word(u128::MAX)),
        Ok(word_of(u128::MAX - 1, 1))
    );
    assert_eq!(
        word_of(1 << 127, 0).safe_mul(word(2)),
        Err(ArithmeticError::MultiplicationOverflow)
    );
    assert_eq!(
        word_of(1 << 127, 0).safe_mul(word(3)),
        Err(ArithmeticError::MultiplicationOverflow)
    );
    assert_eq!(
        word_of(1, 0).safe_mul(word_of(1, 0)),
        Err(ArithmeticError::MultiplicationOverflow)
    );
    assert_eq!(
        U256::max().safe_mul(U256::max()),
        Err(ArithmeticError::MultiplicationOverflow)
    );
    // three times 2^256 / 3, rounded down, is the largest word
    let third = U256::max().div(word(3));
    assert_eq!(third.safe_mul(word(3)), Ok(U256::max()));
    assert_eq!(
        third.add(word(1)).safe_mul(word(3)),
        Err(ArithmeticError::MultiplicationOverflow)
    );
}

#[test]
fn word_multiplication_wraps() {
    assert_eq!(word(6).wrapping_mul(word(7)), word(42));
    assert_eq!(word_of(1, 0).wrapping_mul(word_of(1, 0)), word(0));
    assert_eq!(U256::max().wrapping_mul(U256::max()), word(1));
    assert_eq!(U256::max().wrapping_mul(word(2)), U256::max().sub(word(1)));
    assert_eq!(
        word(u128::MAX).wrapping_mul(word(u128::MAX)),
        word_of(u128::MAX - 1, 1)
    );
    assert_eq!(word_of(3, 5).wrapping_mul(word_of(1, 0)), word_of(5, 0));
}

#[test]
fn checked_word_division() {
    assert_eq!(word(100).safe_div(word(7)), Ok(word(14)));
    assert_eq!(word(100).safe_div(word(0)), Err(ArithmeticError::DivisionByZero));
    assert_eq!(word(0).safe_div(word(0)), Err(ArithmeticError::DivisionByZero));
}

#[test]
fn failures_have_a_short_diagnostic() {
    assert_eq!(ArithmeticError::AdditionOverflow.message(), "addition overflow");
    assert_eq!(ArithmeticError::SubtractionOverflow.message(), "subtraction overflow");
    assert_eq!(
        ArithmeticError::MultiplicationOverflow.message(),
        "multiplication overflow"
    );
    assert_eq!(ArithmeticError::DivisionByZero.message(), "division by zero");
    assert_eq!(ArithmeticError::DivisionOverflow.message(), "division overflow");
}

#[test]
fn signed_multiplication_over_the_whole_range_of_a_byte() {
    for a in i8::MIN..=i8::MAX {
        for b in i8::MIN..=i8::MAX {
            let expected = a
                .checked_mul(b)
                .ok_or(ArithmeticError::MultiplicationOverflow);
            assert_eq!(a.safe_mul(b), expected);
        }
    }
}

#[test]
fn unsigned_arithmetic_over_the_whole_range_of_a_byte() {
    for a in u8::MIN..=u8::MAX {
        for b in u8::MIN..=u8::MAX {
            assert_eq!(
                a.safe_mul(b),
                a.checked_mul(b).ok_or(ArithmeticError::MultiplicationOverflow)
            );
            assert_eq!(
                a.safe_add(b),
                a.checked_add(b).ok_or(ArithmeticError::AdditionOverflow)
            );
            assert_eq!(
                a.safe_sub(b),
                a.checked_sub(b).ok_or(ArithmeticError::SubtractionOverflow)
            );
        }
    }
}
