//! A fraction that never reduces: numerator and denominator grow with
//! every operation, and every operation requires its direct formula to
//! stay within the scalar's range.

use vstd::prelude::*;

verus! {

use crate::engine::frac_eq;
use crate::tech::{
    AddGroup, AddOp, Ass, Abelian, Com, Group, IntegralDomain, Meta, MulOp, Ring,
};
use vstd::string::StringExecFns;

/// A fraction over an unchecked scalar with no reduction policy at all.
#[derive(Clone, Copy, Debug)]
pub struct GrowFract<T: IntegralDomain + Meta> {
    num: T,
    denom: T,
}

impl<T: IntegralDomain + Meta> GrowFract<T> {
    /// The denominator never stands for zero.
    pub open spec fn wf(&self) -> bool {
        self.denom_v() != 0
    }

    /// The integer the numerator stands for.
    pub closed spec fn num_v(&self) -> int {
        self.num.v()
    }

    /// The integer the denominator stands for.
    pub closed spec fn denom_v(&self) -> int {
        self.denom.v()
    }

    /// Construct a fraction; the denominator must not stand for zero.
    pub fn new(num: T, denom: T) -> (r: Self)
        requires
            denom.v() != 0,
        ensures
            r.wf(),
            r.num_v() == num.v(),
            r.denom_v() == denom.v(),
    {
        GrowFract { num, denom }
    }

    /// The numerator.
    pub fn num(&self) -> (r: &T)
        ensures
            r.v() == self.num_v(),
    {
        &self.num
    }

    /// The denominator.
    pub fn denom(&self) -> (r: &T)
        ensures
            r.v() == self.denom_v(),
    {
        &self.denom
    }

    /// The fraction standing for zero.
    pub fn zero() -> (r: Self)
        ensures
            r.wf(),
            r.num_v() == 0,
            r.denom_v() == 1,
    {
        GrowFract { num: AddGroup::zero(), denom: T::non_zero() }
    }

    /// The fraction standing for one.
    pub fn one() -> (r: Self)
        ensures
            r.wf(),
            r.num_v() == 1,
            r.denom_v() == 1,
    {
        GrowFract { num: T::non_zero(), denom: T::non_zero() }
    }

    /// Whether the fraction stands for zero.
    pub fn is_zero(&self) -> (r: bool)
        requires
            self.wf(),
        ensures
            r <==> self.num_v() == 0,
    {
        self.num.is_zero()
    }

    /// Whether the fraction stands for one.
    pub fn is_one(&self) -> (r: bool)
        requires
            self.wf(),
        ensures
            r <==> self.num_v() == self.denom_v(),
    {
        self.num.le(&self.denom) && self.denom.le(&self.num)
    }

    /// An example of a nonzero fraction.
    pub fn non_zero() -> (r: Self)
        ensures
            r.wf(),
            r.num_v() == 1,
            r.denom_v() == 1,
    {
        Self::one()
    }

    /// The name of the type.
    pub fn name() -> String {
        <String as StringExecFns>::from_str("GrowFract<").concat(T::name().as_str()).concat(">")
    }

    /// Direct multiplication; both products must be representable.
    pub fn mul(&self, rhs: &Self) -> (r: Self)
        requires
            self.wf(),
            rhs.wf(),
            T::in_bounds(self.num_v() * rhs.num_v()),
            T::in_bounds(self.denom_v() * rhs.denom_v()),
        ensures
            r.wf(),
            r.num_v() == self.num_v() * rhs.num_v(),
            r.denom_v() == self.denom_v() * rhs.denom_v(),
    {
        let n = Ring::mul(&self.num, &rhs.num);
        let d = Ring::mul(&self.denom, &rhs.denom);
        proof {
            assert(d.v() != 0) by (nonlinear_arith)
                requires
                    d.v() == self.denom.v() * rhs.denom.v(),
                    self.denom.v() != 0,
                    rhs.denom.v() != 0,
            ;
        }
        GrowFract { num: n, denom: d }
    }

    /// Direct division; the divisor must not stand for zero, and both
    /// cross-products must be representable.
    pub fn div(&self, rhs: &Self) -> (r: Self)
        requires
            self.wf(),
            rhs.wf(),
            rhs.num_v() != 0,
            T::in_bounds(self.num_v() * rhs.denom_v()),
            T::in_bounds(self.denom_v() * rhs.num_v()),
        ensures
            r.wf(),
            r.num_v() == self.num_v() * rhs.denom_v(),
            r.denom_v() == self.denom_v() * rhs.num_v(),
    {
        let n = Ring::mul(&self.num, &rhs.denom);
        let d = Ring::mul(&self.denom, &rhs.num);
        proof {
            assert(d.v() != 0) by (nonlinear_arith)
                requires
                    d.v() == self.denom.v() * rhs.num.v(),
                    self.denom.v() != 0,
                    rhs.num.v() != 0,
            ;
        }
        GrowFract { num: n, denom: d }
    }

    /// Direct addition over the product denominator; every intermediate
    /// value must be representable.
    pub fn add(&self, rhs: &Self) -> (r: Self)
        requires
            self.wf(),
            rhs.wf(),
            T::in_bounds(self.denom_v() * rhs.denom_v()),
            T::in_bounds(self.num_v() * rhs.denom_v()),
            T::in_bounds(self.denom_v() * rhs.num_v()),
            T::in_bounds(self.num_v() * rhs.denom_v() + self.denom_v() * rhs.num_v()),
        ensures
            r.wf(),
            r.num_v() == self.num_v() * rhs.denom_v() + self.denom_v() * rhs.num_v(),
            r.denom_v() == self.denom_v() * rhs.denom_v(),
    {
        let x = Ring::mul(&self.num, &rhs.denom);
        let y = Ring::mul(&self.denom, &rhs.num);
        let n = AddGroup::add(&x, &y);
        let d = Ring::mul(&self.denom, &rhs.denom);
        proof {
            assert(d.v() != 0) by (nonlinear_arith)
                requires
                    d.v() == self.denom.v() * rhs.denom.v(),
                    self.denom.v() != 0,
                    rhs.denom.v() != 0,
            ;
        }
        GrowFract { num: n, denom: d }
    }

    /// Direct subtraction over the product denominator; every
    /// intermediate value must be representable.
    pub fn sub(&self, rhs: &Self) -> (r: Self)
        requires
            self.wf(),
            rhs.wf(),
            T::in_bounds(self.denom_v() * rhs.denom_v()),
            T::in_bounds(self.num_v() * rhs.denom_v()),
            T::in_bounds(self.denom_v() * rhs.num_v()),
            T::in_bounds(self.num_v() * rhs.denom_v() - self.denom_v() * rhs.num_v()),
        ensures
            r.wf(),
            r.num_v() == self.num_v() * rhs.denom_v() - self.denom_v() * rhs.num_v(),
            r.denom_v() == self.denom_v() * rhs.denom_v(),
    {
        let x = Ring::mul(&self.num, &rhs.denom);
        let y = Ring::mul(&self.denom, &rhs.num);
        let n = AddGroup::sub(&x, &y);
        let d = Ring::mul(&self.denom, &rhs.denom);
        proof {
            assert(d.v() != 0) by (nonlinear_arith)
                requires
                    d.v() == self.denom.v() * rhs.denom.v(),
                    self.denom.v() != 0,
                    rhs.denom.v() != 0,
            ;
        }
        GrowFract { num: n, denom: d }
    }

    /// Negation, routed through subtraction from the zero fraction.
    pub fn neg(&self) -> (r: Self)
        requires
            self.wf(),
            T::in_bounds(-self.num_v()),
        ensures
            r.wf(),
            frac_eq(r.num_v(), r.denom_v(), -self.num_v(), self.denom_v()),
    {
        let z = Self::zero();
        proof {
            T::bounds_properties();
            self.num.val_in_bounds();
            self.denom.val_in_bounds();
        }
        let r = z.sub(self);
        proof {
            assert(r.num_v() * self.denom_v() == r.denom_v() * (-self.num_v()))
                by (nonlinear_arith)
                requires
                    r.num_v() == 0 * self.denom_v() - 1 * self.num_v(),
                    r.denom_v() == 1 * self.denom_v(),
            ;
        }
        r
    }

    /// Semantic equality by cross-multiplication.
    pub fn eq_frac(&self, rhs: &Self) -> (r: bool)
        requires
            self.wf(),
            rhs.wf(),
            T::in_bounds(self.num_v() * rhs.denom_v()),
            T::in_bounds(self.denom_v() * rhs.num_v()),
        ensures
            r <==> self.num_v() * rhs.denom_v() == self.denom_v() * rhs.num_v(),
    {
        let l = Ring::mul(&self.num, &rhs.denom);
        let rr = Ring::mul(&self.denom, &rhs.num);
        l.le(&rr) && rr.le(&l)
    }

    /// Cross-multiplication ordering.
    pub fn le_frac(&self, rhs: &Self) -> (r: bool)
        requires
            self.wf(),
            rhs.wf(),
            T::in_bounds(self.num_v() * rhs.denom_v()),
            T::in_bounds(self.denom_v() * rhs.num_v()),
        ensures
            r <==> self.num_v() * rhs.denom_v() <= self.denom_v() * rhs.num_v(),
    {
        let l = Ring::mul(&self.num, &rhs.denom);
        let rr = Ring::mul(&self.denom, &rhs.num);
        l.le(&rr)
    }
}

impl<T: IntegralDomain + Meta> Com<AddOp> for GrowFract<T> {}

impl<T: IntegralDomain + Meta> Com<MulOp> for GrowFract<T> {}

impl<T: IntegralDomain + Meta> Ass<AddOp> for GrowFract<T> {}

impl<T: IntegralDomain + Meta> Ass<MulOp> for GrowFract<T> {}

impl<T: IntegralDomain + Meta> Group<AddOp> for GrowFract<T> {
    fn neut() -> Self {
        Self::zero()
    }
}

impl<T: IntegralDomain + Meta> Group<MulOp> for GrowFract<T> {
    fn neut() -> Self {
        Self::one()
    }
}

impl<T: IntegralDomain + Meta> Abelian<AddOp> for GrowFract<T> {}

impl<T: IntegralDomain + Meta> Abelian<MulOp> for GrowFract<T> {}

impl<T: IntegralDomain + Meta> Default for GrowFract<T> {
    /// The default fraction stands for one.
    fn default() -> (r: Self)
        ensures
            r.wf(),
            r.num_v() == 1,
            r.denom_v() == 1,
    {
        GrowFract { num: T::non_zero(), denom: T::non_zero() }
    }
}

} // verus!
