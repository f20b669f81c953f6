//! The scalar capability contracts that the fraction types are built on.
//!
//! The hierarchy comes in two flavours: an unchecked one, whose
//! operations require the mathematical result to be representable, and a
//! checked one, whose operations report an unrepresentable result as an
//! absent value instead.

use vstd::prelude::*;

verus! {

use crate::arith::{gcd_int, gcd_nat};
use vstd::math::abs;

/// Marks a struct that stands for a binary operation.
pub trait Op {}

/// Stands for multiplication.
pub struct MulOp {}

impl Op for MulOp {}

/// Stands for addition.
pub struct AddOp {}

impl Op for AddOp {}

/// The operation `O` is commutative on the implementing type.
pub trait Com<O: Op> {}

/// The operation `O` is associative on the implementing type.
pub trait Ass<O: Op> {}

/// Marks a type whose arithmetic reports overflow instead of wrapping.
pub trait Checked {}

/// Mathematical view of a scalar type: every value stands for an
/// integer, and the representable integers form a range around zero.
pub trait Meta: Sized + Copy {
    /// The integer this value stands for.
    spec fn v(&self) -> int;

    /// Whether the integer `x` is representable in this type.
    spec fn in_bounds(x: int) -> bool;

    /// The representable range contains zero and one, and everything
    /// that lies between zero and a representable integer.
    proof fn bounds_properties()
        ensures
            Self::in_bounds(0),
            Self::in_bounds(1),
            forall|a: int, b: int|
                #![trigger Self::in_bounds(a), Self::in_bounds(b)]
                Self::in_bounds(a) && (0 <= b <= a || a <= b <= 0) ==> Self::in_bounds(b),
    ;

    /// Every value of the type stands for a representable integer.
    proof fn val_in_bounds(&self)
        ensures
            Self::in_bounds(self.v()),
    ;

    /// An example of a value that is not zero.
    fn non_zero() -> (r: Self)
        ensures
            r.v() == 1,
    ;

    /// The name of the type.
    fn name() -> String;

    /// Total order on the values.
    fn le(&self, rhs: &Self) -> (r: bool)
        ensures
            r <==> self.v() <= rhs.v(),
    ;
}

/// A group under the operation `O`; `neut` is its neutral element.
pub trait Group<O: Op>: Ass<O> + Sized {
    fn neut() -> Self;
}

/// A commutative group under the operation `O`.
pub trait Abelian<O: Op>: Com<O> + Group<O> {}

/// The gcd of two scalar values can be computed exactly when the
/// absolute value of each operand is representable and the second
/// operand is not zero.
pub open spec fn gcd_ok<T: Meta>(x: int, y: int) -> bool {
    &&& T::in_bounds(abs(x) as int)
    &&& T::in_bounds(abs(y) as int)
    &&& y != 0
}

/// Additive structure with unchecked operations: callers must show that
/// each result is representable.
pub trait AddGroup: Group<AddOp> + Abelian<AddOp> + Meta {
    fn zero() -> (r: Self)
        ensures
            r.v() == 0,
    ;

    fn is_zero(&self) -> (r: bool)
        ensures
            r <==> self.v() == 0,
    ;

    fn add(&self, rhs: &Self) -> (r: Self)
        requires
            Self::in_bounds(self.v() + rhs.v()),
        ensures
            r.v() == self.v() + rhs.v(),
    ;

    fn sub(&self, rhs: &Self) -> (r: Self)
        requires
            Self::in_bounds(self.v() - rhs.v()),
        ensures
            r.v() == self.v() - rhs.v(),
    ;

    fn neg(&self) -> (r: Self)
        requires
            Self::in_bounds(-self.v()),
        ensures
            r.v() == -self.v(),
    ;
}

/// A ring: an additive group with an unchecked multiplication.
pub trait Ring: AddGroup {
    fn mul(&self, rhs: &Self) -> (r: Self)
        requires
            Self::in_bounds(self.v() * rhs.v()),
        ensures
            r.v() == self.v() * rhs.v(),
    ;
}

/// Multiplicative structure with a neutral element.
pub trait MulGroup: Group<MulOp> + Abelian<MulOp> + Meta {
    fn one() -> (r: Self)
        ensures
            r.v() == 1,
    ;

    fn is_one(&self) -> (r: bool)
        ensures
            r <==> self.v() == 1,
    ;
}

/// A commutative ring without zero divisors; exact division by a
/// divisor of the value is available.
pub trait IntegralDomain: Ring + Com<MulOp> + Ass<MulOp> {
    fn div(&self, rhs: &Self) -> (r: Self)
        requires
            rhs.v() != 0,
            self.v() % rhs.v() == 0,
            Self::in_bounds(self.v() / rhs.v()),
        ensures
            r.v() == self.v() / rhs.v(),
    ;
}

/// An integral domain whose nonzero values form a multiplicative group.
pub trait Field: IntegralDomain + MulGroup {}

/// Unchecked greatest common divisor.
pub trait Gcd: Meta {
    fn gcd(&self, rhs: &Self) -> (r: Self)
        requires
            gcd_ok::<Self>(self.v(), rhs.v()),
        ensures
            r.v() == gcd_int(self.v(), rhs.v()),
            r.v() >= 1,
    ;
}

/// Additive structure whose operations signal an unrepresentable result
/// by returning an absent value.
pub trait CheckAddGroup: Group<AddOp> + Checked + Abelian<AddOp> + Meta {
    fn zero() -> (r: Self)
        ensures
            r.v() == 0,
    ;

    fn is_zero(&self) -> (r: bool)
        ensures
            r <==> self.v() == 0,
    ;

    fn add(&self, rhs: &Self) -> (r: Option<Self>)
        ensures
            match r {
                Some(s) => s.v() == self.v() + rhs.v() && Self::in_bounds(self.v() + rhs.v()),
                None => !Self::in_bounds(self.v() + rhs.v()),
            },
    ;

    fn sub(&self, rhs: &Self) -> (r: Option<Self>)
        ensures
            match r {
                Some(s) => s.v() == self.v() - rhs.v() && Self::in_bounds(self.v() - rhs.v()),
                None => !Self::in_bounds(self.v() - rhs.v()),
            },
    ;

    fn neg(&self) -> (r: Option<Self>)
        ensures
            match r {
                Some(s) => s.v() == -self.v() && Self::in_bounds(-self.v()),
                None => !Self::in_bounds(-self.v()),
            },
    ;
}

/// A ring over checked operations.
pub trait CheckRing: CheckAddGroup {
    fn mul(&self, rhs: &Self) -> (r: Option<Self>)
        ensures
            match r {
                Some(s) => s.v() == self.v() * rhs.v() && Self::in_bounds(self.v() * rhs.v()),
                None => !Self::in_bounds(self.v() * rhs.v()),
            },
    ;
}

/// A checked commutative ring without zero divisors; division is
/// specified on exact divisions, which the fraction engines rely on when
/// cancelling a gcd.
pub trait CheckIntegralDomain: CheckRing + Com<MulOp> + Ass<MulOp> {
    fn div(&self, rhs: &Self) -> (r: Option<Self>)
        ensures
            rhs.v() != 0 && self.v() % rhs.v() == 0 && Self::in_bounds(self.v() / rhs.v())
                ==> (r matches Some(q) && q.v() == self.v() / rhs.v()),
    ;
}

/// Multiplicative neutral structure over checked operations.
pub trait CheckMulGroup: Group<MulOp> + Checked + Abelian<MulOp> + Meta {
    fn one() -> (r: Self)
        ensures
            r.v() == 1,
    ;

    fn is_one(&self) -> (r: bool)
        ensures
            r <==> self.v() == 1,
    ;
}

/// A checked integral domain with a multiplicative group structure.
pub trait CheckField: CheckIntegralDomain + CheckMulGroup {}

/// Overflow-checked greatest common divisor, built from a checked
/// absolute value and a checked remainder by the Euclidean algorithm.
pub trait CheckGcd: Checked + CheckAddGroup {
    /// Checked absolute value.
    fn abs(&self) -> (r: Option<Self>)
        ensures
            match r {
                Some(s) => s.v() == abs(self.v()) && Self::in_bounds(abs(self.v()) as int),
                None => !Self::in_bounds(abs(self.v()) as int),
            },
    ;

    /// Checked remainder, specified for nonnegative dividends and
    /// positive divisors, which is all the Euclidean algorithm needs.
    fn rem(&self, rhs: &Self) -> (r: Option<Self>)
        ensures
            self.v() >= 0 && rhs.v() > 0 ==> (r matches Some(s) && s.v() == self.v() % rhs.v()),
            rhs.v() == 0 ==> r is None,
    ;

    /// The gcd of the two values, absent when an absolute value is not
    /// representable or the second argument is zero.
    fn gcd(&self, rhs: &Self) -> (r: Option<Self>)
        ensures
            match r {
                Some(g) => {
                    &&& gcd_ok::<Self>(self.v(), rhs.v())
                    &&& g.v() == gcd_int(self.v(), rhs.v())
                    &&& g.v() >= 1
                },
                None => !gcd_ok::<Self>(self.v(), rhs.v()),
            },
    {
        let a0 = match self.abs() {
            Some(t) => t,
            None => { return None; },
        };
        let b0 = match rhs.abs() {
            Some(t) => t,
            None => { return None; },
        };
        if b0.is_zero() {
            return None;
        }
        let mut x = a0;
        let mut y = b0;
        loop
            invariant
                x.v() >= 0,
                y.v() >= 1,
                Self::in_bounds(abs(self.v()) as int),
                Self::in_bounds(abs(rhs.v()) as int),
                rhs.v() != 0,
                gcd_nat(x.v() as nat, y.v() as nat) == gcd_nat(
                    abs(self.v()) as nat,
                    abs(rhs.v()) as nat,
                ),
            decreases y.v(),
        {
            let t = match x.rem(&y) {
                Some(t) => t,
                None => {
                    proof {
                        assert(false);
                    }
                    return None;
                },
            };
            proof {
                assert(0 <= x.v() % y.v() < y.v()) by (nonlinear_arith)
                    requires
                        y.v() > 0,
                        x.v() >= 0,
                ;
            }
            if t.is_zero() {
                proof {
                    assert(gcd_nat(x.v() as nat, y.v() as nat) == gcd_nat(
                        y.v() as nat,
                        (x.v() as nat) % (y.v() as nat),
                    ));
                }
                return Some(y);
            }
            x = y;
            y = t;
        }
    }
}

} // verus!
