//! Modular arithmetic on the primitive integers.
use vstd::prelude::*;
use crate::primitives::u256::{product_modulo, sum_modulo};
use crate::storage::bit_pattern;

pub mod safe;

pub use safe::SafeNumeric;

verus! {

/// A number with modular arithmetic. The machine computes on the bit
/// patterns of its operands, read as unsigned numbers; a modulus of zero
/// gives zero.
pub trait Numeric: Sized {
    /// The bit pattern of the number, read as an unsigned number.
    spec fn pattern(self) -> nat;

    /// Add modulo.
    fn addmod(self, other: Self, n: Self) -> (sum: Self)
        ensures
            sum.pattern() == sum_modulo(self.pattern(), other.pattern(), n.pattern()),
    ;

    /// Multiply modulo.
    fn mulmod(self, other: Self, n: Self) -> (product: Self)
        ensures
            product.pattern() == product_modulo(self.pattern(), other.pattern(), n.pattern()),
    ;
}

impl Numeric for i8 {
    open spec fn pattern(self) -> nat {
        bit_pattern(self as int, 0x100)
    }

    fn addmod(self, other: Self, n: Self) -> (sum: Self) {
        let a: u64 = if self < 0 {
            (self as i64 + 0x100) as u64
        } else {
            self as u64
        };
        let b: u64 = if other < 0 {
            (other as i64 + 0x100) as u64
        } else {
            other as u64
        };
        let m: u64 = if n < 0 {
            (n as i64 + 0x100) as u64
        } else {
            n as u64
        };
        if m == 0 {
            return 0;
        }
        let r: u64 = (a + b) % m;
        if r >= 0x80 {
            (r as i64 - 0x100) as i8
        } else {
            r as i8
        }
    }

    fn mulmod(self, other: Self, n: Self) -> (product: Self) {
        let a: u64 = if self < 0 {
            (self as i64 + 0x100) as u64
        } else {
            self as u64
        };
        let b: u64 = if other < 0 {
            (other as i64 + 0x100) as u64
        } else {
            other as u64
        };
        let m: u64 = if n < 0 {
            (n as i64 + 0x100) as u64
        } else {
            n as u64
        };
        if m == 0 {
            return 0;
        }
        assert(a * b <= 0xff * 0xff) by (nonlinear_arith)
            requires
                a <= 0xff,
                b <= 0xff,
        ;
        let r: u64 = (a * b) % m;
        if r >= 0x80 {
            (r as i64 - 0x100) as i8
        } else {
            r as i8
        }
    }
}

impl Numeric for u8 {
    open spec fn pattern(self) -> nat {
        self as nat
    }

    fn addmod(self, other: Self, n: Self) -> (sum: Self) {
        let a: u64 = self as u64;
        let b: u64 = other as u64;
        let m: u64 = n as u64;
        if m == 0 {
            return 0;
        }
        let r: u64 = (a + b) % m;
        r as u8
    }

    fn mulmod(self, other: Self, n: Self) -> (product: Self) {
        let a: u64 = self as u64;
        let b: u64 = other as u64;
        let m: u64 = n as u64;
        if m == 0 {
            return 0;
        }
        assert(a * b <= 0xff * 0xff) by (nonlinear_arith)
            requires
                a <= 0xff,
                b <= 0xff,
        ;
        let r: u64 = (a * b) % m;
        r as u8
    }
}

impl Numeric for i16 {
    open spec fn pattern(self) -> nat {
        bit_pattern(self as int, 0x1_0000)
    }

    fn addmod(self, other: Self, n: Self) -> (sum: Self) {
        let a: u64 = if self < 0 {
            (self as i64 + 0x1_0000) as u64
        } else {
            self as u64
        };
        let b: u64 = if other < 0 {
            (other as i64 + 0x1_0000) as u64
        } else {
            other as u64
        };
        let m: u64 = if n < 0 {
            (n as i64 + 0x1_0000) as u64
        } else {
            n as u64
        };
        if m == 0 {
            return 0;
        }
        let r: u64 = (a + b) % m;
        if r >= 0x8000 {
            (r as i64 - 0x1_0000) as i16
        } else {
            r as i16
        }
    }

    fn mulmod(self, other: Self, n: Self) -> (product: Self) {
        let a: u64 = if self < 0 {
            (self as i64 + 0x1_0000) as u64
        } else {
            self as u64
        };
        let b: u64 = if other < 0 {
            (other as i64 + 0x1_0000) as u64
        } else {
            other as u64
        };
        let m: u64 = if n < 0 {
            (n as i64 + 0x1_0000) as u64
        } else {
            n as u64
        };
        if m == 0 {
            return 0;
        }
        assert(a * b <= 0xffff * 0xffff) by (nonlinear_arith)
            requires
                a <= 0xffff,
                b <= 0xffff,
        ;
        let r: u64 = (a * b) % m;
        if r >= 0x8000 {
            (r as i64 - 0x1_0000) as i16
        } else {
            r as i16
        }
    }
}

impl Numeric for u16 {
    open spec fn pattern(self) -> nat {
        self as nat
    }

    fn addmod(self, other: Self, n: Self) -> (sum: Self) {
        let a: u64 = self as u64;
        let b: u64 = other as u64;
        let m: u64 = n as u64;
        if m == 0 {
            return 0;
        }
        let r: u64 = (a + b) % m;
        r as u16
    }

    fn mulmod(self, other: Self, n: Self) -> (product: Self) {
        let a: u64 = self as u64;
        let b: u64 = other as u64;
        let m: u64 = n as u64;
        if m == 0 {
            return 0;
        }
        assert(a * b <= 0xffff * 0xffff) by (nonlinear_arith)
            requires
                a <= 0xffff,
                b <= 0xffff,
        ;
        let r: u64 = (a * b) % m;
        r as u16
    }
}

impl Numeric for i32 {
    open spec fn pattern(self) -> nat {
        bit_pattern(self as int, 0x1_0000_0000)
    }

    fn addmod(self, other: Self, n: Self) -> (sum: Self) {
        let a: u64 = if self < 0 {
            (self as i64 + 0x1_0000_0000) as u64
        } else {
            self as u64
        };
        let b: u64 = if other < 0 {
            (other as i64 + 0x1_0000_0000) as u64
        } else {
            other as u64
        };
        let m: u64 = if n < 0 {
            (n as i64 + 0x1_0000_0000) as u64
        } else {
            n as u64
        };
        if m == 0 {
            return 0;
        }
        let r: u64 = (a + b) % m;
        if r >= 0x80000000 {
            (r as i64 - 0x1_0000_0000) as i32
        } else {
            r as i32
        }
    }

    fn mulmod(self, other: Self, n: Self) -> (product: Self) {
        let a: u128 = if self < 0 {
            (self as i64 + 0x1_0000_0000) as u128
        } else {
            self as u128
        };
        let b: u128 = if other < 0 {
            (other as i64 + 0x1_0000_0000) as u128
        } else {
            other as u128
        };
        let m: u128 = if n < 0 {
            (n as i64 + 0x1_0000_0000) as u128
        } else {
            n as u128
        };
        if m == 0 {
            return 0;
        }
        assert(a * b <= 0xffffffff * 0xffffffff) by (nonlinear_arith)
            requires
                a <= 0xffffffff,
                b <= 0xffffffff,
        ;
        let r: u128 = (a * b) % m;
        if r >= 0x80000000 {
            (r as i64 - 0x1_0000_0000) as i32
        } else {
            r as i32
        }
    }
}

impl Numeric for u32 {
    open spec fn pattern(self) -> nat {
        self as nat
    }

    fn addmod(self, other: Self, n: Self) -> (sum: Self) {
        let a: u128 = self as u128;
        let b: u128 = other as u128;
        let m: u128 = n as u128;
        if m == 0 {
            return 0;
        }
        let r: u128 = (a + b) % m;
        r as u32
    }

    fn mulmod(self, other: Self, n: Self) -> (product: Self) {
        let a: u128 = self as u128;
        let b: u128 = other as u128;
        let m: u128 = n as u128;
        if m == 0 {
            return 0;
        }
        assert(a * b <= 0xffffffff * 0xffffffff) by (nonlinear_arith)
            requires
                a <= 0xffffffff,
                b <= 0xffffffff,
        ;
        let r: u128 = (a * b) % m;
        r as u32
    }
}

impl Numeric for i64 {
    open spec fn pattern(self) -> nat {
        bit_pattern(self as int, 0x1_0000_0000_0000_0000)
    }

    fn addmod(self, other: Self, n: Self) -> (sum: Self) {
        let a: u128 = if self < 0 {
            (self as i128 + 0x1_0000_0000_0000_0000) as u128
        } else {
            self as u128
        };
        let b: u128 = if other < 0 {
            (other as i128 + 0x1_0000_0000_0000_0000) as u128
        } else {
            other as u128
        };
        let m: u128 = if n < 0 {
            (n as i128 + 0x1_0000_0000_0000_0000) as u128
        } else {
            n as u128
        };
        if m == 0 {
            return 0;
        }
        let r: u128 = (a + b) % m;
        if r >= 0x8000000000000000 {
            (r as i128 - 0x1_0000_0000_0000_0000) as i64
        } else {
            r as i64
        }
    }

    fn mulmod(self, other: Self, n: Self) -> (product: Self) {
        let a: u128 = if self < 0 {
            (self as i128 + 0x1_0000_0000_0000_0000) as u128
        } else {
            self as u128
        };
        let b: u128 = if other < 0 {
            (other as i128 + 0x1_0000_0000_0000_0000) as u128
        } else {
            other as u128
        };
        let m: u128 = if n < 0 {
            (n as i128 + 0x1_0000_0000_0000_0000) as u128
        } else {
            n as u128
        };
        if m == 0 {
            return 0;
        }
        assert(a * b <= 0xffffffffffffffff * 0xffffffffffffffff) by (nonlinear_arith)
            requires
                a <= 0xffffffffffffffff,
                b <= 0xffffffffffffffff,
        ;
        let r: u128 = (a * b) % m;
        if r >= 0x8000000000000000 {
            (r as i128 - 0x1_0000_0000_0000_0000) as i64
        } else {
            r as i64
        }
    }
}

impl Numeric for u64 {
    open spec fn pattern(self) -> nat {
        self as nat
    }

    fn addmod(self, other: Self, n: Self) -> (sum: Self) {
        let a: u128 = self as u128;
        let b: u128 = other as u128;
        let m: u128 = n as u128;
        if m == 0 {
            return 0;
        }
        let r: u128 = (a + b) % m;
        r as u64
    }

    fn mulmod(self, other: Self, n: Self) -> (product: Self) {
        let a: u128 = self as u128;
        let b: u128 = other as u128;
        let m: u128 = n as u128;
        if m == 0 {
            return 0;
        }
        assert(a * b <= 0xffffffffffffffff * 0xffffffffffffffff) by (nonlinear_arith)
            requires
                a <= 0xffffffffffffffff,
                b <= 0xffffffffffffffff,
        ;
        let r: u128 = (a * b) % m;
        r as u64
    }
}

} // verus!
