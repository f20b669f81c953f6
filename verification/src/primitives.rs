//! The scalar capability contracts, implemented for the primitive
//! signed integer types the fraction types are used with.

use vstd::prelude::*;

verus! {

use crate::arith::{gcd_int, gcd_nat, lemma_truncating_div_exact};
use crate::tech::{
    AddGroup, AddOp, Ass, Abelian, CheckAddGroup, CheckField, CheckGcd, CheckIntegralDomain,
    CheckMulGroup, CheckRing, Checked, Com, Field, Gcd, Group, IntegralDomain, Meta, MulGroup,
    MulOp, Ring,
};
use vstd::math::abs;
use vstd::string::StringExecFns;

/// Conversion into the overflow-checked form of a value; for the
/// primitive scalars of this crate the two forms coincide.
pub trait IntoCheck<U> {
    fn safe(self) -> U;
}

/// Euclidean gcd of two `i64` values whose absolute values are
/// representable.
fn gcd_i64(a: i64, b: i64) -> (r: i64)
    requires
        a != i64::MIN,
        b != i64::MIN,
        b != 0,
    ensures
        r == gcd_int(a as int, b as int),
        r >= 1,
{
    let mut x: i64 = if a < 0 { -a } else { a };
    let mut y: i64 = if b < 0 { -b } else { b };
    loop
        invariant
            0 <= x,
            1 <= y,
            gcd_nat(x as nat, y as nat) == gcd_nat(abs(a as int) as nat, abs(b as int) as nat),
        decreases y,
    {
        proof {
            assert(0 <= (x as int) % (y as int) && (x as int) % (y as int) < y as int)
                by (nonlinear_arith)
                requires
                    y as int > 0,
                    x as int >= 0,
            ;
        }
        let t: i64 = x % y;
        if t == 0 {
            proof {
                assert(gcd_nat(x as nat, y as nat) == gcd_nat(
                    y as nat,
                    (x as nat) % (y as nat),
                ));
            }
            return y;
        }
        x = y;
        y = t;
    }
}

impl Meta for i64 {
    open spec fn v(&self) -> int {
        *self as int
    }

    open spec fn in_bounds(x: int) -> bool {
        i64::MIN <= x <= i64::MAX
    }

    proof fn bounds_properties() {
    }

    proof fn val_in_bounds(&self) {
    }

    fn non_zero() -> (r: i64) {
        1
    }

    fn name() -> String {
        <String as StringExecFns>::from_str("i64")
    }

    fn le(&self, rhs: &i64) -> (r: bool) {
        *self <= *rhs
    }
}

impl Com<AddOp> for i64 {}

impl Com<MulOp> for i64 {}

impl Ass<AddOp> for i64 {}

impl Ass<MulOp> for i64 {}

impl Group<AddOp> for i64 {
    fn neut() -> i64 {
        0
    }
}

impl Group<MulOp> for i64 {
    fn neut() -> i64 {
        1
    }
}

impl Abelian<AddOp> for i64 {}

impl Abelian<MulOp> for i64 {}

impl Checked for i64 {}

impl AddGroup for i64 {
    fn zero() -> (r: i64) {
        0
    }

    fn is_zero(&self) -> (r: bool) {
        *self == 0
    }

    fn add(&self, rhs: &i64) -> (r: i64) {
        *self + *rhs
    }

    fn sub(&self, rhs: &i64) -> (r: i64) {
        *self - *rhs
    }

    fn neg(&self) -> (r: i64) {
        -*self
    }
}

impl Ring for i64 {
    fn mul(&self, rhs: &i64) -> (r: i64) {
        *self * *rhs
    }
}

impl MulGroup for i64 {
    fn one() -> (r: i64) {
        1
    }

    fn is_one(&self) -> (r: bool) {
        *self == 1
    }
}

impl IntegralDomain for i64 {
    fn div(&self, rhs: &i64) -> (r: i64) {
        proof {
            lemma_truncating_div_exact(*self as int, *rhs as int);
        }
        (*self).checked_div(*rhs).unwrap()
    }
}

impl Field for i64 {}

impl Gcd for i64 {
    fn gcd(&self, rhs: &i64) -> (r: i64) {
        gcd_i64(*self, *rhs)
    }
}

impl CheckAddGroup for i64 {
    fn zero() -> (r: i64) {
        0
    }

    fn is_zero(&self) -> (r: bool) {
        *self == 0
    }

    fn add(&self, rhs: &i64) -> (r: Option<i64>) {
        (*self).checked_add(*rhs)
    }

    fn sub(&self, rhs: &i64) -> (r: Option<i64>) {
        (*self).checked_sub(*rhs)
    }

    fn neg(&self) -> (r: Option<i64>) {
        if *self == i64::MIN {
            None
        } else {
            Some(-*self)
        }
    }
}

impl CheckRing for i64 {
    fn mul(&self, rhs: &i64) -> (r: Option<i64>) {
        (*self).checked_mul(*rhs)
    }
}

impl CheckIntegralDomain for i64 {
    fn div(&self, rhs: &i64) -> (r: Option<i64>) {
        proof {
            if *rhs != 0 && *self as int % *rhs as int == 0 {
                lemma_truncating_div_exact(*self as int, *rhs as int);
            }
        }
        (*self).checked_div(*rhs)
    }
}

impl CheckMulGroup for i64 {
    fn one() -> (r: i64) {
        1
    }

    fn is_one(&self) -> (r: bool) {
        *self == 1
    }
}

impl CheckField for i64 {}

impl CheckGcd for i64 {
    fn abs(&self) -> (r: Option<i64>) {
        if *self == i64::MIN {
            None
        } else if *self < 0 {
            Some(-*self)
        } else {
            Some(*self)
        }
    }

    fn rem(&self, rhs: &i64) -> (r: Option<i64>) {
        proof {
            let x = *self as int;
            let d = *rhs as int;
            if x >= 0 && d > 0 {
                assert(0 <= x % d && x % d < d) by (nonlinear_arith)
                    requires
                        d > 0,
                        x >= 0,
                ;
                if x == 0 {
                    assert(x % d == 0) by (nonlinear_arith)
                        requires
                            d > 0,
                            x == 0,
                    ;
                }
            }
        }
        (*self).checked_rem(*rhs)
    }

    fn gcd(&self, rhs: &i64) -> (r: Option<i64>) {
        if *self == i64::MIN || *rhs == i64::MIN || *rhs == 0 {
            None
        } else {
            Some(gcd_i64(*self, *rhs))
        }
    }
}

impl IntoCheck<i64> for i64 {
    fn safe(self) -> i64 {
        self
    }
}

/// Euclidean gcd of two `i8` values whose absolute values are
/// representable.
fn gcd_i8(a: i8, b: i8) -> (r: i8)
    requires
        a != i8::MIN,
        b != i8::MIN,
        b != 0,
    ensures
        r == gcd_int(a as int, b as int),
        r >= 1,
{
    let mut x: i8 = if a < 0 { -a } else { a };
    let mut y: i8 = if b < 0 { -b } else { b };
    loop
        invariant
            0 <= x,
            1 <= y,
            gcd_nat(x as nat, y as nat) == gcd_nat(abs(a as int) as nat, abs(b as int) as nat),
        decreases y,
    {
        proof {
            assert(0 <= (x as int) % (y as int) && (x as int) % (y as int) < y as int)
                by (nonlinear_arith)
                requires
                    y as int > 0,
                    x as int >= 0,
            ;
        }
        let t: i8 = x % y;
        if t == 0 {
            proof {
                assert(gcd_nat(x as nat, y as nat) == gcd_nat(
                    y as nat,
                    (x as nat) % (y as nat),
                ));
            }
            return y;
        }
        x = y;
        y = t;
    }
}

impl Meta for i8 {
    open spec fn v(&self) -> int {
        *self as int
    }

    open spec fn in_bounds(x: int) -> bool {
        i8::MIN <= x <= i8::MAX
    }

    proof fn bounds_properties() {
    }

    proof fn val_in_bounds(&self) {
    }

    fn non_zero() -> (r: i8) {
        1
    }

    fn name() -> String {
        <String as StringExecFns>::from_str("i8")
    }

    fn le(&self, rhs: &i8) -> (r: bool) {
        *self <= *rhs
    }
}

impl Com<AddOp> for i8 {}

impl Com<MulOp> for i8 {}

impl Ass<AddOp> for i8 {}

impl Ass<MulOp> for i8 {}

impl Group<AddOp> for i8 {
    fn neut() -> i8 {
        0
    }
}

impl Group<MulOp> for i8 {
    fn neut() -> i8 {
        1
    }
}

impl Abelian<AddOp> for i8 {}

impl Abelian<MulOp> for i8 {}

impl Checked for i8 {}

impl CheckAddGroup for i8 {
    fn zero() -> (r: i8) {
        0
    }

    fn is_zero(&self) -> (r: bool) {
        *self == 0
    }

    fn add(&self, rhs: &i8) -> (r: Option<i8>) {
        (*self).checked_add(*rhs)
    }

    fn sub(&self, rhs: &i8) -> (r: Option<i8>) {
        (*self).checked_sub(*rhs)
    }

    fn neg(&self) -> (r: Option<i8>) {
        if *self == i8::MIN {
            None
        } else {
            Some(-*self)
        }
    }
}

impl CheckRing for i8 {
    fn mul(&self, rhs: &i8) -> (r: Option<i8>) {
        (*self).checked_mul(*rhs)
    }
}

impl CheckIntegralDomain for i8 {
    fn div(&self, rhs: &i8) -> (r: Option<i8>) {
        proof {
            if *rhs != 0 && *self as int % *rhs as int == 0 {
                lemma_truncating_div_exact(*self as int, *rhs as int);
            }
        }
        (*self).checked_div(*rhs)
    }
}

impl CheckMulGroup for i8 {
    fn one() -> (r: i8) {
        1
    }

    fn is_one(&self) -> (r: bool) {
        *self == 1
    }
}

impl CheckField for i8 {}

impl CheckGcd for i8 {
    fn abs(&self) -> (r: Option<i8>) {
        if *self == i8::MIN {
            None
        } else if *self < 0 {
            Some(-*self)
        } else {
            Some(*self)
        }
    }

    fn rem(&self, rhs: &i8) -> (r: Option<i8>) {
        proof {
            let x = *self as int;
            let d = *rhs as int;
            if x >= 0 && d > 0 {
                assert(0 <= x % d && x % d < d) by (nonlinear_arith)
                    requires
                        d > 0,
                        x >= 0,
                ;
                if x == 0 {
                    assert(x % d == 0) by (nonlinear_arith)
                        requires
                            d > 0,
                            x == 0,
                    ;
                }
            }
        }
        (*self).checked_rem(*rhs)
    }

    fn gcd(&self, rhs: &i8) -> (r: Option<i8>) {
        if *self == i8::MIN || *rhs == i8::MIN || *rhs == 0 {
            None
        } else {
            Some(gcd_i8(*self, *rhs))
        }
    }
}

impl IntoCheck<i8> for i8 {
    fn safe(self) -> i8 {
        self
    }
}

} // verus!
