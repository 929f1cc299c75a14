//! Double-precision numbers as they order: compared, never computed with.
use vstd::prelude::*;

verus! {

/// A double-precision number, held as its IEEE 754 bit pattern: the sign in the top bit, the
/// magnitude in the others.
#[derive(Clone, Copy, PartialEq, Eq, Structural, Debug)]
pub struct Double {
    pub bits: u64,
}

/// The pattern with only the sign bit set.
pub const SIGN_BIT: u64 = 0x8000_0000_0000_0000;

/// The magnitude of infinity; larger magnitudes are no numbers.
pub const INFINITE: u64 = 0x7FF0_0000_0000_0000;

impl Double {
    /// The pattern without its sign.
    pub open spec fn magnitude(self) -> int {
        if self.bits < SIGN_BIT {
            self.bits as int
        } else {
            self.bits - SIGN_BIT
        }
    }

    /// Whether the pattern stands for no number at all.
    pub open spec fn is_nan(self) -> bool {
        self.magnitude() > INFINITE
    }

    /// An integer that orders as the numbers do; both zeros have the rank zero.
    pub open spec fn rank(self) -> int {
        if self.bits < SIGN_BIT {
            self.magnitude()
        } else {
            -self.magnitude()
        }
    }

    /// Whether this number is less than another; what is no number is less than nothing.
    pub open spec fn less(self, other: Double) -> bool {
        !self.is_nan() && !other.is_nan() && self.rank() < other.rank()
    }

    /// Whether this number is at most another; what is no number is at most nothing.
    pub open spec fn at_most(self, other: Double) -> bool {
        !self.is_nan() && !other.is_nan() && self.rank() <= other.rank()
    }

    fn magnitude_bits(self) -> (m: u64)
        ensures
            m == self.magnitude(),
    {
        if self.bits < SIGN_BIT {
            self.bits
        } else {
            self.bits - SIGN_BIT
        }
    }

    /// Compares with `<`.
    pub fn lt(self, other: Double) -> (r: bool)
        ensures
            r == self.less(other),
    {
        let a = self.magnitude_bits();
        let b = other.magnitude_bits();
        if a > INFINITE || b > INFINITE {
            false
        } else if self.bits < SIGN_BIT {
            other.bits < SIGN_BIT && a < b
        } else if other.bits < SIGN_BIT {
            a > 0 || b > 0
        } else {
            a > b
        }
    }

    /// Compares with `<=`.
    pub fn le(self, other: Double) -> (r: bool)
        ensures
            r == self.at_most(other),
    {
        let a = self.magnitude_bits();
        let b = other.magnitude_bits();
        if a > INFINITE || b > INFINITE {
            false
        } else {
            !other.lt(self)
        }
    }

    /// The number without its sign.
    pub fn abs(self) -> (r: Double)
        ensures
            r.bits == self.magnitude(),
            r.is_nan() == self.is_nan(),
            r.rank() == (if self.rank() < 0 {
                -self.rank()
            } else {
                self.rank()
            }),
    {
        Double { bits: self.magnitude_bits() }
    }
}

// ---------------------------------------------------------------------------
// Laws
// ---------------------------------------------------------------------------

/// Numbers without a sign order as their patterns do; a sign turns the order round; a number with
/// a sign is below one without, but for the two zeros, which are equal; what is no number is
/// neither below nor above anything.
pub proof fn patterns_order_as_numbers(a: u64, b: u64)
    requires
        a < 0x8000_0000_0000_0000,
        b < 0x8000_0000_0000_0000,
    ensures
        a <= 0x7FF0_0000_0000_0000 && b <= 0x7FF0_0000_0000_0000 ==> {
            let (x, y) = (Double { bits: a }, Double { bits: b });
            let (p, q) = (
                Double { bits: (a + 0x8000_0000_0000_0000) as u64 },
                Double { bits: (b + 0x8000_0000_0000_0000) as u64 },
            );
            &&& x.less(y) <==> a < b
            &&& p.less(q) <==> b < a
            &&& p.less(y) <==> a > 0 || b > 0
            &&& !x.less(q)
            &&& x.at_most(y) <==> a <= b
            &&& p.at_most(q) <==> b <= a
            &&& p.at_most(y)
            &&& x.at_most(q) <==> a == 0 && b == 0
        },
        a > 0x7FF0_0000_0000_0000 ==> forall|other: Double|
            #![trigger other.is_nan()]
            {
                let x = Double { bits: a };
                let p = Double { bits: (a + 0x8000_0000_0000_0000) as u64 };
                &&& !x.less(other) && !other.less(x) && !x.at_most(other) && !other.at_most(x)
                &&& !p.less(other) && !other.less(p) && !p.at_most(other) && !other.at_most(p)
            },
{
}

} // verus!
