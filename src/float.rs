//! IEEE 754 doubles held by their bit pattern, with the comparisons that
//! the layout rules need.

use core::cmp::Ordering;
use vstd::prelude::*;

verus! {

/// The bit of a double that holds its sign.
pub const SIGN_BIT: u64 = 0x8000_0000_0000_0000;

/// The bit pattern of positive infinity; every larger magnitude is a NaN.
pub const INFINITY_BITS: u64 = 0x7FF0_0000_0000_0000;

/// A double-precision value, carried as its IEEE 754 bit pattern.
#[derive(Clone, Copy, Debug)]
pub struct F64Bits {
    pub bits: u64,
}

/// The sign of an integer as an ordering against zero.
pub open spec fn ordering_of(d: int) -> Ordering {
    if d < 0 {
        Ordering::Less
    } else if d == 0 {
        Ordering::Equal
    } else {
        Ordering::Greater
    }
}

impl F64Bits {
    /// The bits below the sign bit.
    pub open spec fn magnitude(self) -> int {
        (self.bits % SIGN_BIT) as int
    }

    pub open spec fn is_negative(self) -> bool {
        self.bits >= SIGN_BIT
    }

    /// Exponent all ones and a nonzero mantissa.
    pub open spec fn is_nan(self) -> bool {
        self.magnitude() > INFINITY_BITS
    }

    /// An integer that orders the non-NaN doubles as the reals they denote
    /// (both zeros sit at 0, infinities at the ends).
    pub open spec fn rank(self) -> int {
        if self.is_negative() {
            -self.magnitude()
        } else {
            self.magnitude()
        }
    }

    /// Floating-point `==`: false whenever a NaN is involved.
    pub open spec fn float_eq(self, other: F64Bits) -> bool {
        !self.is_nan() && !other.is_nan() && self.rank() == other.rank()
    }

    /// Floating-point `partial_cmp`: none when a NaN is involved.
    pub open spec fn float_cmp(self, other: F64Bits) -> Option<Ordering> {
        if self.is_nan() || other.is_nan() {
            None
        } else {
            Some(ordering_of(self.rank() - other.rank()))
        }
    }

    pub fn is_nan_exec(&self) -> (r: bool)
        ensures
            r == self.is_nan(),
    {
        self.bits % SIGN_BIT > INFINITY_BITS
    }

    fn rank_exec(&self) -> (r: i128)
        ensures
            r as int == self.rank(),
    {
        let m: u64 = self.bits % SIGN_BIT;
        if self.bits >= SIGN_BIT {
            -(m as i128)
        } else {
            m as i128
        }
    }

    /// Compares two doubles as `==` on `f64` does.
    pub fn equals(&self, other: &F64Bits) -> (r: bool)
        ensures
            r == self.float_eq(*other),
    {
        !self.is_nan_exec() && !other.is_nan_exec() && self.rank_exec() == other.rank_exec()
    }

    /// Orders two doubles as `partial_cmp` on `f64` does.
    pub fn compare(&self, other: &F64Bits) -> (r: Option<Ordering>)
        ensures
            r == self.float_cmp(*other),
    {
        if self.is_nan_exec() || other.is_nan_exec() {
            None
        } else {
            let a = self.rank_exec();
            let b = other.rank_exec();
            if a < b {
                Some(Ordering::Less)
            } else if a == b {
                Some(Ordering::Equal)
            } else {
                Some(Ordering::Greater)
            }
        }
    }
}

} // verus!
