//! Checked arithmetic.
use vstd::prelude::*;
use vstd::string::*;
use vstd::arithmetic::div_mod::{lemma_div_multiples_vanish, lemma_fundamental_div_mod, lemma_small_mod};
use crate::primitives::u256::{word_modulus, U256};

verus! {

/// Why a checked operation fails.
#[derive(Clone, Copy, Debug, PartialEq, Eq)]
pub enum ArithmeticError {
    AdditionOverflow,
    SubtractionOverflow,
    MultiplicationOverflow,
    DivisionByZero,
    DivisionOverflow,
}

/// The short text with which a failed operation stops the execution.
pub open spec fn diagnostic(error: ArithmeticError) -> Seq<char> {
    match error {
        ArithmeticError::AdditionOverflow => "addition overflow"@,
        ArithmeticError::SubtractionOverflow => "subtraction overflow"@,
        ArithmeticError::MultiplicationOverflow => "multiplication overflow"@,
        ArithmeticError::DivisionByZero => "division by zero"@,
        ArithmeticError::DivisionOverflow => "division overflow"@,
    }
}

impl ArithmeticError {
    /// The short text with which the failed operation stops the execution.
    pub fn message(&self) -> (text: &'static str)
        ensures
            text@ == diagnostic(*self),
    {
        match self {
            ArithmeticError::AdditionOverflow => "addition overflow",
            ArithmeticError::SubtractionOverflow => "subtraction overflow",
            ArithmeticError::MultiplicationOverflow => "multiplication overflow",
            ArithmeticError::DivisionByZero => "division by zero",
            ArithmeticError::DivisionOverflow => "division overflow",
        }
    }
}

/// The sum of two numbers of a type that holds `min` to `max`: it fails
/// where it leaves that range.
pub open spec fn checked_sum(a: int, b: int, min: int, max: int) -> Result<int, ArithmeticError> {
    if min <= a + b <= max {
        Ok(a + b)
    } else {
        Err(ArithmeticError::AdditionOverflow)
    }
}

/// The difference of two unsigned numbers: it fails below zero.
pub open spec fn unsigned_difference(a: int, b: int) -> Result<int, ArithmeticError> {
    if a >= b {
        Ok(a - b)
    } else {
        Err(ArithmeticError::SubtractionOverflow)
    }
}

/// The difference of two signed numbers of a type that holds `min` to
/// `max`: it fails above `max`, and wraps below `min`.
pub open spec fn signed_difference(a: int, b: int, min: int, max: int) -> Result<
    int,
    ArithmeticError,
> {
    if a - b > max {
        Err(ArithmeticError::SubtractionOverflow)
    } else if a - b < min {
        Ok(a - b + (max - min + 1))
    } else {
        Ok(a - b)
    }
}

/// The product of two numbers of a type that holds `min` to `max`: it
/// fails where it leaves that range.
pub open spec fn checked_product(a: int, b: int, min: int, max: int) -> Result<
    int,
    ArithmeticError,
> {
    if min <= a * b <= max {
        Ok(a * b)
    } else {
        Err(ArithmeticError::MultiplicationOverflow)
    }
}

/// The quotient of `a` and `b`, rounded towards zero.
pub open spec fn truncated_quotient(a: int, b: int) -> int {
    if a == 0 {
        0
    } else if a > 0 && b > 0 {
        a / b
    } else if a < 0 && b < 0 {
        (-a) / (-b)
    } else if a < 0 {
        -((-a) / b)
    } else {
        -(a / (-b))
    }
}

/// The quotient of two numbers of a type that holds up to `max`: it fails
/// for a divisor of zero, and where it exceeds `max`.
pub open spec fn checked_quotient(a: int, b: int, max: int) -> Result<int, ArithmeticError> {
    if b == 0 {
        Err(ArithmeticError::DivisionByZero)
    } else if truncated_quotient(a, b) > max {
        Err(ArithmeticError::DivisionOverflow)
    } else {
        Ok(truncated_quotient(a, b))
    }
}

/// For unsigned numbers below `modulus`, the wrapped product divided by
/// the second factor differs from the first factor exactly where the
/// product wraps.
pub proof fn lemma_unsigned_product_check(a: nat, b: nat, modulus: nat)
    requires
        b > 0,
        modulus > 0,
    ensures
        (((a * b) % modulus) / b != a) <==> a * b >= modulus,
{
    let wrapped = (a * b) % modulus;
    if a * b < modulus {
        lemma_small_mod(a * b, modulus);
        lemma_div_multiples_vanish(a as int, b as int);
        assert(b * a == a * b) by (nonlinear_arith);
    } else {
        vstd::arithmetic::div_mod::lemma_mod_bound((a * b) as int, modulus as int);
        lemma_fundamental_div_mod(wrapped as int, b as int);
        if wrapped / b == a {
            assert(b * (wrapped / b) == a * b) by (nonlinear_arith)
                requires
                    wrapped / b == a,
            ;
            vstd::arithmetic::div_mod::lemma_mod_bound(wrapped as int, b as int);
        }
    }
}

/// The quotient of a product and one of its factors, rounded towards zero,
/// is the other factor.
pub proof fn lemma_truncated_exact(a: int, b: int)
    requires
        b != 0,
    ensures
        truncated_quotient(a * b, b) == a,
{
    if a == 0 {
        assert(a * b == 0) by (nonlinear_arith)
            requires
                a == 0,
        ;
    } else if a > 0 && b > 0 {
        assert(a * b > 0) by (nonlinear_arith)
            requires
                a > 0,
                b > 0,
        ;
        lemma_div_multiples_vanish(a, b);
        assert(b * a == a * b) by (nonlinear_arith);
    } else if a > 0 && b < 0 {
        assert(a * b < 0) by (nonlinear_arith)
            requires
                a > 0,
                b < 0,
        ;
        lemma_div_multiples_vanish(a, -b);
        assert((-b) * a == -(a * b)) by (nonlinear_arith);
    } else if a < 0 && b > 0 {
        assert(a * b < 0) by (nonlinear_arith)
            requires
                a < 0,
                b > 0,
        ;
        lemma_div_multiples_vanish(-a, b);
        assert(b * (-a) == -(a * b)) by (nonlinear_arith);
    } else {
        assert(a * b > 0) by (nonlinear_arith)
            requires
                a < 0,
                b < 0,
        ;
        lemma_div_multiples_vanish(-a, -b);
        assert((-b) * (-a) == a * b) by (nonlinear_arith);
    }
}

/// A number differs from its quotient, rounded towards zero, times the
/// divisor by less than the divisor.
pub proof fn lemma_truncated_remainder(w: int, b: int)
    requires
        b != 0,
    ensures
        b > 0 ==> -b < w - truncated_quotient(w, b) * b < b,
        b < 0 ==> b < w - truncated_quotient(w, b) * b < -b,
{
    let q = truncated_quotient(w, b);
    if w == 0 {
        assert(q * b == 0) by (nonlinear_arith)
            requires
                q == 0,
        ;
    } else if w > 0 && b > 0 {
        lemma_fundamental_div_mod(w, b);
        vstd::arithmetic::div_mod::lemma_mod_bound(w, b);
        assert(q * b == b * (w / b)) by (nonlinear_arith)
            requires
                q == w / b,
        ;
    } else if w < 0 && b < 0 {
        lemma_fundamental_div_mod(-w, -b);
        vstd::arithmetic::div_mod::lemma_mod_bound(-w, -b);
        assert(q * b == -((-b) * ((-w) / (-b)))) by (nonlinear_arith)
            requires
                q == (-w) / (-b),
        ;
    } else if w < 0 {
        lemma_fundamental_div_mod(-w, b);
        vstd::arithmetic::div_mod::lemma_mod_bound(-w, b);
        assert(q * b == -(b * ((-w) / b))) by (nonlinear_arith)
            requires
                q == -((-w) / b),
        ;
    } else {
        lemma_fundamental_div_mod(w, -b);
        vstd::arithmetic::div_mod::lemma_mod_bound(w, -b);
        assert(q * b == (-b) * (w / (-b))) by (nonlinear_arith)
            requires
                q == -(w / (-b)),
        ;
    }
}

/// For signed numbers of a type that holds `-half` up to `half - 1`, the
/// wrapped product `w` divided by the second factor differs from the first
/// factor exactly where the product leaves the range of the type.
pub proof fn lemma_signed_product_check(a: int, b: int, half: int, w: int, k: int)
    requires
        half > 0,
        -half <= a < half,
        -half <= b < half,
        b != 0,
        -half <= w < half,
        w == a * b + k * (2 * half),
    ensures
        truncated_quotient(w, b) != a <==> !(-half <= a * b < half),
{
    if -half <= a * b < half {
        assert(k == 0) by (nonlinear_arith)
            requires
                -half <= a * b < half,
                -half <= w < half,
                w == a * b + k * (2 * half),
                half > 0,
        ;
        assert(k * (2 * half) == 0) by (nonlinear_arith)
            requires
                k == 0,
        ;
        lemma_truncated_exact(a, b);
    } else if truncated_quotient(w, b) == a {
        lemma_truncated_remainder(w, b);
        assert(false) by (nonlinear_arith)
            requires
                -half < w - a * b < half,
                w == a * b + k * (2 * half),
                !(-half <= a * b < half),
                -half <= w < half,
                half > 0,
        ;
    }
}

/// The wrapped product of two signed numbers is the product up to a
/// multiple of `modulus`.
pub proof fn lemma_wrapped_product(x: int, modulus: int) -> (k: int)
    requires
        modulus > 0,
    ensures
        x % modulus == x + k * modulus,
{
    lemma_fundamental_div_mod(x, modulus);
    let k = -(x / modulus);
    assert(k * modulus == -(modulus * (x / modulus))) by (nonlinear_arith)
        requires
            k == -(x / modulus),
    ;
    k
}

/// Numbers with checked arithmetic. An operation that fails stops the
/// current execution: it hands back the reason and no number.
pub trait SafeNumeric: Copy + PartialOrd + Sized {
    /// The number.
    spec fn value(self) -> int;

    /// The largest number of the type.
    spec fn max_value() -> int;

    /// The smallest number of the type.
    spec fn min_value() -> int;

    /// The checked sum.
    spec fn sum(self, rhs: Self) -> Result<int, ArithmeticError>;

    /// The checked difference.
    spec fn difference(self, rhs: Self) -> Result<int, ArithmeticError>;

    /// The checked product.
    spec fn product(self, rhs: Self) -> Result<int, ArithmeticError>;

    /// The checked quotient.
    spec fn quotient(self, rhs: Self) -> Result<int, ArithmeticError>;

    fn max() -> (max: Self)
        ensures
            max.value() == Self::max_value(),
    ;

    fn min() -> (min: Self)
        ensures
            min.value() == Self::min_value(),
    ;

    fn safe_add(self, rhs: Self) -> (result: Result<Self, ArithmeticError>)
        ensures
            match result {
                Ok(sum) => self.sum(rhs) == Ok::<int, ArithmeticError>(sum.value()),
                Err(error) => self.sum(rhs) == Err::<int, ArithmeticError>(error),
            },
    ;

    fn safe_sub(self, rhs: Self) -> (result: Result<Self, ArithmeticError>)
        ensures
            match result {
                Ok(difference) => self.difference(rhs) == Ok::<int, ArithmeticError>(
                    difference.value(),
                ),
                Err(error) => self.difference(rhs) == Err::<int, ArithmeticError>(error),
            },
    ;

    fn safe_mul(self, rhs: Self) -> (result: Result<Self, ArithmeticError>)
        ensures
            match result {
                Ok(product) => self.product(rhs) == Ok::<int, ArithmeticError>(product.value()),
                Err(error) => self.product(rhs) == Err::<int, ArithmeticError>(error),
            },
    ;

    fn safe_div(self, rhs: Self) -> (result: Result<Self, ArithmeticError>)
        ensures
            match result {
                Ok(quotient) => self.quotient(rhs) == Ok::<int, ArithmeticError>(quotient.value()),
                Err(error) => self.quotient(rhs) == Err::<int, ArithmeticError>(error),
            },
    ;
}

impl SafeNumeric for i8 {
    open spec fn value(self) -> int {
        self as int
    }

    open spec fn max_value() -> int {
        i8::MAX as int
    }

    open spec fn min_value() -> int {
        i8::MIN as int
    }

    open spec fn sum(self, rhs: Self) -> Result<int, ArithmeticError> {
        checked_sum(self as int, rhs as int, i8::MIN as int, i8::MAX as int)
    }

    open spec fn difference(self, rhs: Self) -> Result<int, ArithmeticError> {
        signed_difference(self as int, rhs as int, i8::MIN as int, i8::MAX as int)
    }

    open spec fn product(self, rhs: Self) -> Result<int, ArithmeticError> {
        checked_product(self as int, rhs as int, i8::MIN as int, i8::MAX as int)
    }

    open spec fn quotient(self, rhs: Self) -> Result<int, ArithmeticError> {
        checked_quotient(self as int, rhs as int, i8::MAX as int)
    }

    fn max() -> (max: Self) {
        i8::MAX
    }

    fn min() -> (min: Self) {
        i8::MIN
    }

    fn safe_add(self, rhs: Self) -> (result: Result<Self, ArithmeticError>) {
        let result = self.wrapping_add(rhs);
        if (self > 0 && rhs > 0 && result < self) || (self < 0 && rhs < 0 && result > self) {
            return Err(ArithmeticError::AdditionOverflow);
        }
        Ok(result)
    }

    fn safe_sub(self, rhs: Self) -> (result: Result<Self, ArithmeticError>) {
        let result = self.wrapping_sub(rhs);
        if rhs < 0 && self > result {
            return Err(ArithmeticError::SubtractionOverflow);
        }
        Ok(result)
    }

    fn safe_mul(self, rhs: Self) -> (result: Result<Self, ArithmeticError>) {
        let result = self.wrapping_mul(rhs);
        if rhs != 0 {
            proof {
                let product = self as int * rhs as int;
                let k = lemma_wrapped_product(product, 0x100);
                if product % 0x100 > i8::MAX as int {
                    assert((k - 1) * (2 * 0x80) == k * 0x100 - 0x100) by (nonlinear_arith);
                    lemma_signed_product_check(
                        self as int,
                        rhs as int,
                        0x80,
                        result as int,
                        k - 1,
                    );
                } else {
                    assert(k * (2 * 0x80) == k * 0x100) by (nonlinear_arith);
                    lemma_signed_product_check(self as int, rhs as int, 0x80, result as int, k);
                }
            }
            match result.checked_div(rhs) {
                Some(quotient) => {
                    if quotient != self {
                        return Err(ArithmeticError::MultiplicationOverflow);
                    }
                },
                None => {
                    return Err(ArithmeticError::MultiplicationOverflow);
                },
            }
        } else {
            proof {
                assert(self as int * rhs as int == 0) by (nonlinear_arith)
                    requires
                        rhs == 0,
                ;
            }
        }
        Ok(result)
    }

    fn safe_div(self, rhs: Self) -> (result: Result<Self, ArithmeticError>) {
        if rhs == 0 {
            return Err(ArithmeticError::DivisionByZero);
        }
        match self.checked_div(rhs) {
            Some(quotient) => Ok(quotient),
            None => Err(ArithmeticError::DivisionOverflow),
        }
    }
}

impl SafeNumeric for i16 {
    open spec fn value(self) -> int {
        self as int
    }

    open spec fn max_value() -> int {
        i16::MAX as int
    }

    open spec fn min_value() -> int {
        i16::MIN as int
    }

    open spec fn sum(self, rhs: Self) -> Result<int, ArithmeticError> {
        checked_sum(self as int, rhs as int, i16::MIN as int, i16::MAX as int)
    }

    open spec fn difference(self, rhs: Self) -> Result<int, ArithmeticError> {
        signed_difference(self as int, rhs as int, i16::MIN as int, i16::MAX as int)
    }

    open spec fn product(self, rhs: Self) -> Result<int, ArithmeticError> {
        checked_product(self as int, rhs as int, i16::MIN as int, i16::MAX as int)
    }

    open spec fn quotient(self, rhs: Self) -> Result<int, ArithmeticError> {
        checked_quotient(self as int, rhs as int, i16::MAX as int)
    }

    fn max() -> (max: Self) {
        i16::MAX
    }

    fn min() -> (min: Self) {
        i16::MIN
    }

    fn safe_add(self, rhs: Self) -> (result: Result<Self, ArithmeticError>) {
        let result = self.wrapping_add(rhs);
        if (self > 0 && rhs > 0 && result < self) || (self < 0 && rhs < 0 && result > self) {
            return Err(ArithmeticError::AdditionOverflow);
        }
        Ok(result)
    }

    fn safe_sub(self, rhs: Self) -> (result: Result<Self, ArithmeticError>) {
        let result = self.wrapping_sub(rhs);
        if rhs < 0 && self > result {
            return Err(ArithmeticError::SubtractionOverflow);
        }
        Ok(result)
    }

    fn safe_mul(self, rhs: Self) -> (result: Result<Self, ArithmeticError>) {
        let result = self.wrapping_mul(rhs);
        if rhs != 0 {
            proof {
                let product = self as int * rhs as int;
                let k = lemma_wrapped_product(product, 0x10000);
                if product % 0x10000 > i16::MAX as int {
                    assert((k - 1) * (2 * 0x8000) == k * 0x10000 - 0x10000) by (nonlinear_arith);
                    lemma_signed_product_check(
                        self as int,
                        rhs as int,
                        0x8000,
                        result as int,
                        k - 1,
                    );
                } else {
                    assert(k * (2 * 0x8000) == k * 0x10000) by (nonlinear_arith);
                    lemma_signed_product_check(self as int, rhs as int, 0x8000, result as int, k);
                }
            }
            match result.checked_div(rhs) {
                Some(quotient) => {
                    if quotient != self {
                        return Err(ArithmeticError::MultiplicationOverflow);
                    }
                },
                None => {
                    return Err(ArithmeticError::MultiplicationOverflow);
                },
            }
        } else {
            proof {
                assert(self as int * rhs as int == 0) by (nonlinear_arith)
                    requires
                        rhs == 0,
                ;
            }
        }
        Ok(result)
    }

    fn safe_div(self, rhs: Self) -> (result: Result<Self, ArithmeticError>) {
        if rhs == 0 {
            return Err(ArithmeticError::DivisionByZero);
        }
        match self.checked_div(rhs) {
            Some(quotient) => Ok(quotient),
            None => Err(ArithmeticError::DivisionOverflow),
        }
    }
}

impl SafeNumeric for i32 {
    open spec fn value(self) -> int {
        self as int
    }

    open spec fn max_value() -> int {
        i32::MAX as int
    }

    open spec fn min_value() -> int {
        i32::MIN as int
    }

    open spec fn sum(self, rhs: Self) -> Result<int, ArithmeticError> {
        checked_sum(self as int, rhs as int, i32::MIN as int, i32::MAX as int)
    }

    open spec fn difference(self, rhs: Self) -> Result<int, ArithmeticError> {
        signed_difference(self as int, rhs as int, i32::MIN as int, i32::MAX as int)
    }

    open spec fn product(self, rhs: Self) -> Result<int, ArithmeticError> {
        checked_product(self as int, rhs as int, i32::MIN as int, i32::MAX as int)
    }

    open spec fn quotient(self, rhs: Self) -> Result<int, ArithmeticError> {
        checked_quotient(self as int, rhs as int, i32::MAX as int)
    }

    fn max() -> (max: Self) {
        i32::MAX
    }

    fn min() -> (min: Self) {
        i32::MIN
    }

    fn safe_add(self, rhs: Self) -> (result: Result<Self, ArithmeticError>) {
        let result = self.wrapping_add(rhs);
        if (self > 0 && rhs > 0 && result < self) || (self < 0 && rhs < 0 && result > self) {
            return Err(ArithmeticError::AdditionOverflow);
        }
        Ok(result)
    }

    fn safe_sub(self, rhs: Self) -> (result: Result<Self, ArithmeticError>) {
        let result = self.wrapping_sub(rhs);
        if rhs < 0 && self > result {
            return Err(ArithmeticError::SubtractionOverflow);
        }
        Ok(result)
    }

    fn safe_mul(self, rhs: Self) -> (result: Result<Self, ArithmeticError>) {
        let result = self.wrapping_mul(rhs);
        if rhs != 0 {
            proof {
                let product = self as int * rhs as int;
                let k = lemma_wrapped_product(product, 0x100000000);
                if product % 0x100000000 > i32::MAX as int {
                    assert((k - 1) * (2 * 0x80000000) == k * 0x100000000 - 0x100000000) by (nonlinear_arith);
                    lemma_signed_product_check(
                        self as int,
                        rhs as int,
                        0x80000000,
                        result as int,
                        k - 1,
                    );
                } else {
                    assert(k * (2 * 0x80000000) == k * 0x100000000) by (nonlinear_arith);
                    lemma_signed_product_check(self as int, rhs as int, 0x80000000, result as int, k);
                }
            }
            match result.checked_div(rhs) {
                Some(quotient) => {
                    if quotient != self {
                        return Err(ArithmeticError::MultiplicationOverflow);
                    }
                },
                None => {
                    return Err(ArithmeticError::MultiplicationOverflow);
                },
            }
        } else {
            proof {
                assert(self as int * rhs as int == 0) by (nonlinear_arith)
                    requires
                        rhs == 0,
                ;
            }
        }
        Ok(result)
    }

    fn safe_div(self, rhs: Self) -> (result: Result<Self, ArithmeticError>) {
        if rhs == 0 {
            return Err(ArithmeticError::DivisionByZero);
        }
        match self.checked_div(rhs) {
            Some(quotient) => Ok(quotient),
            None => Err(ArithmeticError::DivisionOverflow),
        }
    }
}

impl SafeNumeric for i64 {
    open spec fn value(self) -> int {
        self as int
    }

    open spec fn max_value() -> int {
        i64::MAX as int
    }

    open spec fn min_value() -> int {
        i64::MIN as int
    }

    open spec fn sum(self, rhs: Self) -> Result<int, ArithmeticError> {
        checked_sum(self as int, rhs as int, i64::MIN as int, i64::MAX as int)
    }

    open spec fn difference(self, rhs: Self) -> Result<int, ArithmeticError> {
        signed_difference(self as int, rhs as int, i64::MIN as int, i64::MAX as int)
    }

    open spec fn product(self, rhs: Self) -> Result<int, ArithmeticError> {
        checked_product(self as int, rhs as int, i64::MIN as int, i64::MAX as int)
    }

    open spec fn quotient(self, rhs: Self) -> Result<int, ArithmeticError> {
        checked_quotient(self as int, rhs as int, i64::MAX as int)
    }

    fn max() -> (max: Self) {
        i64::MAX
    }

    fn min() -> (min: Self) {
        i64::MIN
    }

    fn safe_add(self, rhs: Self) -> (result: Result<Self, ArithmeticError>) {
        let result = self.wrapping_add(rhs);
        if (self > 0 && rhs > 0 && result < self) || (self < 0 && rhs < 0 && result > self) {
            return Err(ArithmeticError::AdditionOverflow);
        }
        Ok(result)
    }

    fn safe_sub(self, rhs: Self) -> (result: Result<Self, ArithmeticError>) {
        let result = self.wrapping_sub(rhs);
        if rhs < 0 && self > result {
            return Err(ArithmeticError::SubtractionOverflow);
        }
        Ok(result)
    }

    fn safe_mul(self, rhs: Self) -> (result: Result<Self, ArithmeticError>) {
        let result = self.wrapping_mul(rhs);
        if rhs != 0 {
            proof {
                let product = self as int * rhs as int;
                let k = lemma_wrapped_product(product, 0x10000000000000000);
                if product % 0x10000000000000000 > i64::MAX as int {
                    assert((k - 1) * (2 * 0x8000000000000000) == k * 0x10000000000000000 - 0x10000000000000000) by (nonlinear_arith);
                    lemma_signed_product_check(
                        self as int,
                        rhs as int,
                        0x8000000000000000,
                        result as int,
                        k - 1,
                    );
                } else {
                    assert(k * (2 * 0x8000000000000000) == k * 0x10000000000000000) by (nonlinear_arith);
                    lemma_signed_product_check(self as int, rhs as int, 0x8000000000000000, result as int, k);
                }
            }
            match result.checked_div(rhs) {
                Some(quotient) => {
                    if quotient != self {
                        return Err(ArithmeticError::MultiplicationOverflow);
                    }
                },
                None => {
                    return Err(ArithmeticError::MultiplicationOverflow);
                },
            }
        } else {
            proof {
                assert(self as int * rhs as int == 0) by (nonlinear_arith)
                    requires
                        rhs == 0,
                ;
            }
        }
        Ok(result)
    }

    fn safe_div(self, rhs: Self) -> (result: Result<Self, ArithmeticError>) {
        if rhs == 0 {
            return Err(ArithmeticError::DivisionByZero);
        }
        match self.checked_div(rhs) {
            Some(quotient) => Ok(quotient),
            None => Err(ArithmeticError::DivisionOverflow),
        }
    }
}

impl SafeNumeric for u8 {
    open spec fn value(self) -> int {
        self as int
    }

    open spec fn max_value() -> int {
        u8::MAX as int
    }

    open spec fn min_value() -> int {
        0
    }

    open spec fn sum(self, rhs: Self) -> Result<int, ArithmeticError> {
        checked_sum(self as int, rhs as int, 0, u8::MAX as int)
    }

    open spec fn difference(self, rhs: Self) -> Result<int, ArithmeticError> {
        unsigned_difference(self as int, rhs as int)
    }

    open spec fn product(self, rhs: Self) -> Result<int, ArithmeticError> {
        checked_product(self as int, rhs as int, 0, u8::MAX as int)
    }

    open spec fn quotient(self, rhs: Self) -> Result<int, ArithmeticError> {
        checked_quotient(self as int, rhs as int, u8::MAX as int)
    }

    fn max() -> (max: Self) {
        u8::MAX
    }

    fn min() -> (min: Self) {
        u8::MIN
    }

    fn safe_add(self, rhs: Self) -> (result: Result<Self, ArithmeticError>) {
        let result = self.wrapping_add(rhs);
        if result < self {
            return Err(ArithmeticError::AdditionOverflow);
        }
        Ok(result)
    }

    fn safe_sub(self, rhs: Self) -> (result: Result<Self, ArithmeticError>) {
        let result = self.wrapping_sub(rhs);
        if result > self {
            return Err(ArithmeticError::SubtractionOverflow);
        }
        Ok(result)
    }

    fn safe_mul(self, rhs: Self) -> (result: Result<Self, ArithmeticError>) {
        let result = self.wrapping_mul(rhs);
        proof {
            if rhs != 0 {
                lemma_unsigned_product_check(self as nat, rhs as nat, 0x100);
            } else {
                assert(self * rhs == 0) by (nonlinear_arith)
                    requires
                        rhs == 0,
                ;
            }
            assert(self * rhs >= 0) by (nonlinear_arith)
                requires
                    self >= 0,
                    rhs >= 0,
            ;
        }
        if rhs != 0 && result / rhs != self {
            return Err(ArithmeticError::MultiplicationOverflow);
        }
        proof {
            lemma_small_mod((self * rhs) as nat, 0x100);
        }
        Ok(result)
    }

    fn safe_div(self, rhs: Self) -> (result: Result<Self, ArithmeticError>) {
        if rhs == 0 {
            return Err(ArithmeticError::DivisionByZero);
        }
        proof {
            vstd::arithmetic::div_mod::lemma_div_pos_is_pos(self as int, rhs as int);
            vstd::arithmetic::div_mod::lemma_div_is_ordered_by_denominator(self as int, 1, rhs as int);
            vstd::arithmetic::div_mod::lemma_div_basics(self as int);
        }
        Ok(self / rhs)
    }
}

impl SafeNumeric for u16 {
    open spec fn value(self) -> int {
        self as int
    }

    open spec fn max_value() -> int {
        u16::MAX as int
    }

    open spec fn min_value() -> int {
        0
    }

    open spec fn sum(self, rhs: Self) -> Result<int, ArithmeticError> {
        checked_sum(self as int, rhs as int, 0, u16::MAX as int)
    }

    open spec fn difference(self, rhs: Self) -> Result<int, ArithmeticError> {
        unsigned_difference(self as int, rhs as int)
    }

    open spec fn product(self, rhs: Self) -> Result<int, ArithmeticError> {
        checked_product(self as int, rhs as int, 0, u16::MAX as int)
    }

    open spec fn quotient(self, rhs: Self) -> Result<int, ArithmeticError> {
        checked_quotient(self as int, rhs as int, u16::MAX as int)
    }

    fn max() -> (max: Self) {
        u16::MAX
    }

    fn min() -> (min: Self) {
        u16::MIN
    }

    fn safe_add(self, rhs: Self) -> (result: Result<Self, ArithmeticError>) {
        let result = self.wrapping_add(rhs);
        if result < self {
            return Err(ArithmeticError::AdditionOverflow);
        }
        Ok(result)
    }

    fn safe_sub(self, rhs: Self) -> (result: Result<Self, ArithmeticError>) {
        let result = self.wrapping_sub(rhs);
        if result > self {
            return Err(ArithmeticError::SubtractionOverflow);
        }
        Ok(result)
    }

    fn safe_mul(self, rhs: Self) -> (result: Result<Self, ArithmeticError>) {
        let result = self.wrapping_mul(rhs);
        proof {
            if rhs != 0 {
                lemma_unsigned_product_check(self as nat, rhs as nat, 0x10000);
            } else {
                assert(self * rhs == 0) by (nonlinear_arith)
                    requires
                        rhs == 0,
                ;
            }
            assert(self * rhs >= 0) by (nonlinear_arith)
                requires
                    self >= 0,
                    rhs >= 0,
            ;
        }
        if rhs != 0 && result / rhs != self {
            return Err(ArithmeticError::MultiplicationOverflow);
        }
        proof {
            lemma_small_mod((self * rhs) as nat, 0x10000);
        }
        Ok(result)
    }

    fn safe_div(self, rhs: Self) -> (result: Result<Self, ArithmeticError>) {
        if rhs == 0 {
            return Err(ArithmeticError::DivisionByZero);
        }
        proof {
            vstd::arithmetic::div_mod::lemma_div_pos_is_pos(self as int, rhs as int);
            vstd::arithmetic::div_mod::lemma_div_is_ordered_by_denominator(self as int, 1, rhs as int);
            vstd::arithmetic::div_mod::lemma_div_basics(self as int);
        }
        Ok(self / rhs)
    }
}

impl SafeNumeric for u32 {
    open spec fn value(self) -> int {
        self as int
    }

    open spec fn max_value() -> int {
        u32::MAX as int
    }

    open spec fn min_value() -> int {
        0
    }

    open spec fn sum(self, rhs: Self) -> Result<int, ArithmeticError> {
        checked_sum(self as int, rhs as int, 0, u32::MAX as int)
    }

    open spec fn difference(self, rhs: Self) -> Result<int, ArithmeticError> {
        unsigned_difference(self as int, rhs as int)
    }

    open spec fn product(self, rhs: Self) -> Result<int, ArithmeticError> {
        checked_product(self as int, rhs as int, 0, u32::MAX as int)
    }

    open spec fn quotient(self, rhs: Self) -> Result<int, ArithmeticError> {
        checked_quotient(self as int, rhs as int, u32::MAX as int)
    }

    fn max() -> (max: Self) {
        u32::MAX
    }

    fn min() -> (min: Self) {
        u32::MIN
    }

    fn safe_add(self, rhs: Self) -> (result: Result<Self, ArithmeticError>) {
        let result = self.wrapping_add(rhs);
        if result < self {
            return Err(ArithmeticError::AdditionOverflow);
        }
        Ok(result)
    }

    fn safe_sub(self, rhs: Self) -> (result: Result<Self, ArithmeticError>) {
        let result = self.wrapping_sub(rhs);
        if result > self {
            return Err(ArithmeticError::SubtractionOverflow);
        }
        Ok(result)
    }

    fn safe_mul(self, rhs: Self) -> (result: Result<Self, ArithmeticError>) {
        let result = self.wrapping_mul(rhs);
        proof {
            if rhs != 0 {
                lemma_unsigned_product_check(self as nat, rhs as nat, 0x100000000);
            } else {
                assert(self * rhs == 0) by (nonlinear_arith)
                    requires
                        rhs == 0,
                ;
            }
            assert(self * rhs >= 0) by (nonlinear_arith)
                requires
                    self >= 0,
                    rhs >= 0,
            ;
        }
        if rhs != 0 && result / rhs != self {
            return Err(ArithmeticError::MultiplicationOverflow);
        }
        proof {
            lemma_small_mod((self * rhs) as nat, 0x100000000);
        }
        Ok(result)
    }

    fn safe_div(self, rhs: Self) -> (result: Result<Self, ArithmeticError>) {
        if rhs == 0 {
            return Err(ArithmeticError::DivisionByZero);
        }
        proof {
            vstd::arithmetic::div_mod::lemma_div_pos_is_pos(self as int, rhs as int);
            vstd::arithmetic::div_mod::lemma_div_is_ordered_by_denominator(self as int, 1, rhs as int);
            vstd::arithmetic::div_mod::lemma_div_basics(self as int);
        }
        Ok(self / rhs)
    }
}

impl SafeNumeric for u64 {
    open spec fn value(self) -> int {
        self as int
    }

    open spec fn max_value() -> int {
        u64::MAX as int
    }

    open spec fn min_value() -> int {
        0
    }

    open spec fn sum(self, rhs: Self) -> Result<int, ArithmeticError> {
        checked_sum(self as int, rhs as int, 0, u64::MAX as int)
    }

    open spec fn difference(self, rhs: Self) -> Result<int, ArithmeticError> {
        unsigned_difference(self as int, rhs as int)
    }

    open spec fn product(self, rhs: Self) -> Result<int, ArithmeticError> {
        checked_product(self as int, rhs as int, 0, u64::MAX as int)
    }

    open spec fn quotient(self, rhs: Self) -> Result<int, ArithmeticError> {
        checked_quotient(self as int, rhs as int, u64::MAX as int)
    }

    fn max() -> (max: Self) {
        u64::MAX
    }

    fn min() -> (min: Self) {
        u64::MIN
    }

    fn safe_add(self, rhs: Self) -> (result: Result<Self, ArithmeticError>) {
        let result = self.wrapping_add(rhs);
        if result < self {
            return Err(ArithmeticError::AdditionOverflow);
        }
        Ok(result)
    }

    fn safe_sub(self, rhs: Self) -> (result: Result<Self, ArithmeticError>) {
        let result = self.wrapping_sub(rhs);
        if result > self {
            return Err(ArithmeticError::SubtractionOverflow);
        }
        Ok(result)
    }

    fn safe_mul(self, rhs: Self) -> (result: Result<Self, ArithmeticError>) {
        let result = self.wrapping_mul(rhs);
        proof {
            if rhs != 0 {
                lemma_unsigned_product_check(self as nat, rhs as nat, 0x10000000000000000);
            } else {
                assert(self * rhs == 0) by (nonlinear_arith)
                    requires
                        rhs == 0,
                ;
            }
            assert(self * rhs >= 0) by (nonlinear_arith)
                requires
                    self >= 0,
                    rhs >= 0,
            ;
        }
        if rhs != 0 && result / rhs != self {
            return Err(ArithmeticError::MultiplicationOverflow);
        }
        proof {
            lemma_small_mod((self * rhs) as nat, 0x10000000000000000);
        }
        Ok(result)
    }

    fn safe_div(self, rhs: Self) -> (result: Result<Self, ArithmeticError>) {
        if rhs == 0 {
            return Err(ArithmeticError::DivisionByZero);
        }
        proof {
            vstd::arithmetic::div_mod::lemma_div_pos_is_pos(self as int, rhs as int);
            vstd::arithmetic::div_mod::lemma_div_is_ordered_by_denominator(self as int, 1, rhs as int);
            vstd::arithmetic::div_mod::lemma_div_basics(self as int);
        }
        Ok(self / rhs)
    }
}

impl SafeNumeric for U256 {
    open spec fn value(self) -> int {
        self@ as int
    }

    open spec fn max_value() -> int {
        word_modulus() - 1
    }

    open spec fn min_value() -> int {
        0
    }

    open spec fn sum(self, rhs: Self) -> Result<int, ArithmeticError> {
        checked_sum(self@ as int, rhs@ as int, 0, word_modulus() - 1)
    }

    open spec fn difference(self, rhs: Self) -> Result<int, ArithmeticError> {
        unsigned_difference(self@ as int, rhs@ as int)
    }

    open spec fn product(self, rhs: Self) -> Result<int, ArithmeticError> {
        checked_product(self@ as int, rhs@ as int, 0, word_modulus() - 1)
    }

    open spec fn quotient(self, rhs: Self) -> Result<int, ArithmeticError> {
        checked_quotient(self@ as int, rhs@ as int, word_modulus() - 1)
    }

    fn max() -> (max: Self) {
        U256::max()
    }

    fn min() -> (min: Self) {
        U256::empty()
    }

    fn safe_add(self, rhs: Self) -> (result: Result<Self, ArithmeticError>) {
        let result = self.add(rhs);
        proof {
            self.lemma_range();
            rhs.lemma_range();
            if self@ + rhs@ < word_modulus() {
                lemma_small_mod(self@ + rhs@, word_modulus());
            } else {
                vstd::arithmetic::div_mod::lemma_fundamental_div_mod_converse(
                    (self@ + rhs@) as int,
                    word_modulus() as int,
                    1,
                    self@ + rhs@ - word_modulus(),
                );
            }
        }
        if result.lt(self) {
            return Err(ArithmeticError::AdditionOverflow);
        }
        Ok(result)
    }

    fn safe_sub(self, rhs: Self) -> (result: Result<Self, ArithmeticError>) {
        let result = self.sub(rhs);
        proof {
            self.lemma_range();
            rhs.lemma_range();
        }
        if self.lt(result) {
            return Err(ArithmeticError::SubtractionOverflow);
        }
        Ok(result)
    }

    fn safe_mul(self, rhs: Self) -> (result: Result<Self, ArithmeticError>) {
        let result = self.wrapping_mul(rhs);
        proof {
            self.lemma_range();
            rhs.lemma_range();
            if rhs@ != 0 {
                lemma_unsigned_product_check(self@, rhs@, word_modulus());
            } else {
                assert(self@ * rhs@ == 0) by (nonlinear_arith)
                    requires
                        rhs@ == 0,
                ;
            }
            assert(self@ * rhs@ >= 0) by (nonlinear_arith)
                requires
                    self@ >= 0,
                    rhs@ >= 0,
            ;
            if self@ * rhs@ < word_modulus() {
                lemma_small_mod(self@ * rhs@, word_modulus());
            }
        }
        if !rhs.eq(U256::empty()) && !result.div(rhs).eq(self) {
            return Err(ArithmeticError::MultiplicationOverflow);
        }
        Ok(result)
    }

    fn safe_div(self, rhs: Self) -> (result: Result<Self, ArithmeticError>) {
        if rhs.eq(U256::empty()) {
            return Err(ArithmeticError::DivisionByZero);
        }
        proof {
            self.lemma_range();
            vstd::arithmetic::div_mod::lemma_div_pos_is_pos(self@ as int, rhs@ as int);
            vstd::arithmetic::div_mod::lemma_div_is_ordered_by_denominator(
                self@ as int,
                1,
                rhs@ as int,
            );
            vstd::arithmetic::div_mod::lemma_div_basics(self@ as int);
        }
        Ok(self.div(rhs))
    }
}

} // verus!
