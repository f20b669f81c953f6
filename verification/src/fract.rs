//! The plain fraction value and the cadence-reduced fraction built on
//! top of it.
//!
//! `Fraction` performs the direct formulas with no reduction at all;
//! `Reducible` counts operations and reduces by the gcd only when the
//! counter reaches its cadence, amortizing the cost of the gcd.

use vstd::prelude::*;

verus! {

use crate::arith::{gcd_int, lemma_divides_iff_mod, lemma_exact_quotient_bounds,
    lemma_gcd_int_divides};
use crate::engine::frac_eq;
use crate::tech::{
    gcd_ok, AddGroup, AddOp, Ass, Abelian, Com, Gcd, Group, IntegralDomain, Meta, MulOp, Ring,
};
use vstd::string::StringExecFns;

/// The cadence at which a `Reducible` forces a reduction pass.
pub const CADENCE: i32 = 4;

/// An immutable numerator/denominator pair over an unchecked scalar;
/// operations apply the direct formulas and never reduce.
#[derive(Clone, Copy, Debug)]
pub struct Fraction<T: IntegralDomain + Meta> {
    num: T,
    denom: T,
}

impl<T: IntegralDomain + Meta> Fraction<T> {
    /// The denominator never stands for zero.
    pub open spec fn wf(&self) -> bool {
        self.denom_v() != 0
    }

    /// The integer the numerator stands for.
    pub closed spec fn num_v(&self) -> int {
        self.num.v()
    }

    /// The integer the denominator stands for.
    pub closed spec fn denom_v(&self) -> int {
        self.denom.v()
    }

    /// Construct a fraction; the denominator must not stand for zero.
    pub fn new(num: T, denom: T) -> (r: Self)
        requires
            denom.v() != 0,
        ensures
            r.wf(),
            r.num_v() == num.v(),
            r.denom_v() == denom.v(),
    {
        Fraction { num, denom }
    }

    /// The numerator.
    pub fn num(&self) -> (r: &T)
        ensures
            r.v() == self.num_v(),
    {
        &self.num
    }

    /// The denominator.
    pub fn denom(&self) -> (r: &T)
        ensures
            r.v() == self.denom_v(),
    {
        &self.denom
    }

    /// The fraction standing for zero.
    pub fn zero() -> (r: Self)
        ensures
            r.wf(),
            r.num_v() == 0,
            r.denom_v() == 1,
    {
        Fraction { num: AddGroup::zero(), denom: T::non_zero() }
    }

    /// The fraction standing for one.
    pub fn one() -> (r: Self)
        ensures
            r.wf(),
            r.num_v() == 1,
            r.denom_v() == 1,
    {
        Fraction { num: T::non_zero(), denom: T::non_zero() }
    }

    /// An example of a nonzero fraction.
    pub fn non_zero() -> (r: Self)
        ensures
            r.wf(),
            r.num_v() == 1,
            r.denom_v() == 1,
    {
        Self::one()
    }

    /// The name of the type.
    pub fn name() -> String {
        <String as StringExecFns>::from_str("Fraction<").concat(T::name().as_str()).concat(">")
    }

    /// Direct multiplication; both products must be representable.
    pub fn mul(&self, rhs: &Self) -> (r: Self)
        requires
            self.wf(),
            rhs.wf(),
            T::in_bounds(self.num_v() * rhs.num_v()),
            T::in_bounds(self.denom_v() * rhs.denom_v()),
        ensures
            r.wf(),
            r.num_v() == self.num_v() * rhs.num_v(),
            r.denom_v() == self.denom_v() * rhs.denom_v(),
    {
        let n = Ring::mul(&self.num, &rhs.num);
        let d = Ring::mul(&self.denom, &rhs.denom);
        proof {
            assert(d.v() != 0) by (nonlinear_arith)
                requires
                    d.v() == self.denom.v() * rhs.denom.v(),
                    self.denom.v() != 0,
                    rhs.denom.v() != 0,
            ;
        }
        Fraction { num: n, denom: d }
    }

    /// Direct division; the divisor must not stand for zero, and both
    /// cross-products must be representable.
    pub fn div(&self, rhs: &Self) -> (r: Self)
        requires
            self.wf(),
            rhs.wf(),
            rhs.num_v() != 0,
            T::in_bounds(self.num_v() * rhs.denom_v()),
            T::in_bounds(self.denom_v() * rhs.num_v()),
        ensures
            r.wf(),
            r.num_v() == self.num_v() * rhs.denom_v(),
            r.denom_v() == self.denom_v() * rhs.num_v(),
    {
        let n = Ring::mul(&self.num, &rhs.denom);
        let d = Ring::mul(&self.denom, &rhs.num);
        proof {
            assert(d.v() != 0) by (nonlinear_arith)
                requires
                    d.v() == self.denom.v() * rhs.num.v(),
                    self.denom.v() != 0,
                    rhs.num.v() != 0,
            ;
        }
        Fraction { num: n, denom: d }
    }

    /// Direct addition over the product denominator; every intermediate
    /// value must be representable.
    pub fn add(&self, rhs: &Self) -> (r: Self)
        requires
            self.wf(),
            rhs.wf(),
            T::in_bounds(self.denom_v() * rhs.denom_v()),
            T::in_bounds(self.num_v() * rhs.denom_v()),
            T::in_bounds(self.denom_v() * rhs.num_v()),
            T::in_bounds(self.num_v() * rhs.denom_v() + self.denom_v() * rhs.num_v()),
        ensures
            r.wf(),
            r.num_v() == self.num_v() * rhs.denom_v() + self.denom_v() * rhs.num_v(),
            r.denom_v() == self.denom_v() * rhs.denom_v(),
    {
        let x = Ring::mul(&self.num, &rhs.denom);
        let y = Ring::mul(&self.denom, &rhs.num);
        let n = AddGroup::add(&x, &y);
        let d = Ring::mul(&self.denom, &rhs.denom);
        proof {
            assert(d.v() != 0) by (nonlinear_arith)
                requires
                    d.v() == self.denom.v() * rhs.denom.v(),
                    self.denom.v() != 0,
                    rhs.denom.v() != 0,
            ;
        }
        Fraction { num: n, denom: d }
    }

    /// Direct subtraction over the product denominator; every
    /// intermediate value must be representable.
    pub fn sub(&self, rhs: &Self) -> (r: Self)
        requires
            self.wf(),
            rhs.wf(),
            T::in_bounds(self.denom_v() * rhs.denom_v()),
            T::in_bounds(self.num_v() * rhs.denom_v()),
            T::in_bounds(self.denom_v() * rhs.num_v()),
            T::in_bounds(self.num_v() * rhs.denom_v() - self.denom_v() * rhs.num_v()),
        ensures
            r.wf(),
            r.num_v() == self.num_v() * rhs.denom_v() - self.denom_v() * rhs.num_v(),
            r.denom_v() == self.denom_v() * rhs.denom_v(),
    {
        let x = Ring::mul(&self.num, &rhs.denom);
        let y = Ring::mul(&self.denom, &rhs.num);
        let n = AddGroup::sub(&x, &y);
        let d = Ring::mul(&self.denom, &rhs.denom);
        proof {
            assert(d.v() != 0) by (nonlinear_arith)
                requires
                    d.v() == self.denom.v() * rhs.denom.v(),
                    self.denom.v() != 0,
                    rhs.denom.v() != 0,
            ;
        }
        Fraction { num: n, denom: d }
    }

    /// Negation: the numerator is multiplied by minus one.
    pub fn neg(&self) -> (r: Self)
        requires
            self.wf(),
            T::in_bounds(-1),
            T::in_bounds(-self.num_v()),
        ensures
            r.wf(),
            r.num_v() == -self.num_v(),
            r.denom_v() == self.denom_v(),
    {
        proof {
            T::bounds_properties();
            self.num.val_in_bounds();
            self.denom.val_in_bounds();
        }
        let minus_one = AddGroup::sub(&AddGroup::zero(), &T::non_zero());
        let n = Ring::mul(&self.num, &minus_one);
        let d = Ring::mul(&self.denom, &T::non_zero());
        Fraction { num: n, denom: d }
    }

    /// Semantic equality by cross-multiplication.
    pub fn eq_frac(&self, rhs: &Self) -> (r: bool)
        requires
            self.wf(),
            rhs.wf(),
            T::in_bounds(self.num_v() * rhs.denom_v()),
            T::in_bounds(self.denom_v() * rhs.num_v()),
        ensures
            r <==> self.num_v() * rhs.denom_v() == self.denom_v() * rhs.num_v(),
    {
        let l = Ring::mul(&self.num, &rhs.denom);
        let rr = Ring::mul(&self.denom, &rhs.num);
        l.le(&rr) && rr.le(&l)
    }

    /// In-place addition.
    pub fn add_assign(&mut self, rhs: &Self)
        requires
            old(self).wf(),
            rhs.wf(),
            T::in_bounds(old(self).denom_v() * rhs.denom_v()),
            T::in_bounds(old(self).num_v() * rhs.denom_v()),
            T::in_bounds(old(self).denom_v() * rhs.num_v()),
            T::in_bounds(old(self).num_v() * rhs.denom_v() + old(self).denom_v() * rhs.num_v()),
        ensures
            final(self).wf(),
            final(self).num_v() == old(self).num_v() * rhs.denom_v() + old(self).denom_v()
                * rhs.num_v(),
            final(self).denom_v() == old(self).denom_v() * rhs.denom_v(),
    {
        *self = self.add(rhs);
    }

    /// In-place subtraction.
    pub fn sub_assign(&mut self, rhs: &Self)
        requires
            old(self).wf(),
            rhs.wf(),
            T::in_bounds(old(self).denom_v() * rhs.denom_v()),
            T::in_bounds(old(self).num_v() * rhs.denom_v()),
            T::in_bounds(old(self).denom_v() * rhs.num_v()),
            T::in_bounds(old(self).num_v() * rhs.denom_v() - old(self).denom_v() * rhs.num_v()),
        ensures
            final(self).wf(),
            final(self).num_v() == old(self).num_v() * rhs.denom_v() - old(self).denom_v()
                * rhs.num_v(),
            final(self).denom_v() == old(self).denom_v() * rhs.denom_v(),
    {
        *self = self.sub(rhs);
    }

    /// In-place multiplication.
    pub fn mul_assign(&mut self, rhs: &Self)
        requires
            old(self).wf(),
            rhs.wf(),
            T::in_bounds(old(self).num_v() * rhs.num_v()),
            T::in_bounds(old(self).denom_v() * rhs.denom_v()),
        ensures
            final(self).wf(),
            final(self).num_v() == old(self).num_v() * rhs.num_v(),
            final(self).denom_v() == old(self).denom_v() * rhs.denom_v(),
    {
        *self = self.mul(rhs);
    }

    /// In-place division; the divisor must not stand for zero.
    pub fn div_assign(&mut self, rhs: &Self)
        requires
            old(self).wf(),
            rhs.wf(),
            rhs.num_v() != 0,
            T::in_bounds(old(self).num_v() * rhs.denom_v()),
            T::in_bounds(old(self).denom_v() * rhs.num_v()),
        ensures
            final(self).wf(),
            final(self).num_v() == old(self).num_v() * rhs.denom_v(),
            final(self).denom_v() == old(self).denom_v() * rhs.num_v(),
    {
        *self = self.div(rhs);
    }
}

impl<T: IntegralDomain + Meta> Com<AddOp> for Fraction<T> {}

impl<T: IntegralDomain + Meta> Com<MulOp> for Fraction<T> {}

impl<T: IntegralDomain + Meta> Ass<AddOp> for Fraction<T> {}

impl<T: IntegralDomain + Meta> Ass<MulOp> for Fraction<T> {}

impl<T: IntegralDomain + Meta> Group<AddOp> for Fraction<T> {
    fn neut() -> Self {
        Self::zero()
    }
}

impl<T: IntegralDomain + Meta> Group<MulOp> for Fraction<T> {
    fn neut() -> Self {
        Self::one()
    }
}

impl<T: IntegralDomain + Meta> Abelian<AddOp> for Fraction<T> {}

impl<T: IntegralDomain + Meta> Abelian<MulOp> for Fraction<T> {}

/// A fraction with a lazy reduction policy: an operation counter
/// triggers a gcd reduction only when it reaches the cadence.
#[derive(Clone, Copy, Debug)]
pub struct Reducible<T: IntegralDomain + Gcd + Meta> {
    fract: Fraction<T>,
    count: i32,
}

impl<T: IntegralDomain + Gcd + Meta> Reducible<T> {
    /// The denominator never stands for zero and the counter stays
    /// strictly below the cadence after every public operation.
    pub closed spec fn wf(&self) -> bool {
        &&& self.fract.wf()
        &&& 0 <= self.count < CADENCE
    }

    /// The integer the numerator stands for.
    pub closed spec fn num_v(&self) -> int {
        self.fract.num_v()
    }

    /// The integer the denominator stands for.
    pub closed spec fn denom_v(&self) -> int {
        self.fract.denom_v()
    }

    /// The operation counter.
    pub closed spec fn count_v(&self) -> int {
        self.count as int
    }

    /// Construct a fraction with a fresh counter; the denominator must
    /// not stand for zero.
    pub fn new(num: T, denom: T) -> (r: Self)
        requires
            denom.v() != 0,
        ensures
            r.wf(),
            r.num_v() == num.v(),
            r.denom_v() == denom.v(),
            r.count_v() == 0,
    {
        Reducible { fract: Fraction::new(num, denom), count: 0 }
    }

    /// The numerator.
    pub fn num(&self) -> (r: &T)
        ensures
            r.v() == self.num_v(),
    {
        self.fract.num()
    }

    /// The denominator.
    pub fn denom(&self) -> (r: &T)
        ensures
            r.v() == self.denom_v(),
    {
        self.fract.denom()
    }

    /// An example of a nonzero fraction.
    pub fn non_zero() -> (r: Self)
        ensures
            r.wf(),
            r.num_v() == 1,
            r.denom_v() == 1,
            r.count_v() == 0,
    {
        Reducible { fract: Fraction::non_zero(), count: 0 }
    }

    /// The fraction standing for zero.
    pub fn zero() -> (r: Self)
        ensures
            r.wf(),
            r.num_v() == 0,
            r.denom_v() == 1,
            r.count_v() == 0,
    {
        Reducible { fract: Fraction::zero(), count: 0 }
    }

    /// The fraction standing for one.
    pub fn one() -> (r: Self)
        ensures
            r.wf(),
            r.num_v() == 1,
            r.denom_v() == 1,
            r.count_v() == 0,
    {
        Reducible { fract: Fraction::one(), count: 0 }
    }

    /// The name of the type.
    pub fn name() -> String {
        <String as StringExecFns>::from_str("Reducible<").concat(T::name().as_str()).concat(">")
    }

    /// Advance the counter, and reduce by the gcd once it has reached
    /// the cadence.
    fn simplify(&mut self)
        requires
            old(self).fract.wf(),
            0 <= old(self).count <= 2 * CADENCE,
            old(self).count + 1 >= CADENCE ==> gcd_ok::<T>(old(self).num_v(),
                old(self).denom_v()),
        ensures
            final(self).wf(),
            frac_eq(final(self).num_v(), final(self).denom_v(), old(self).num_v(),
                old(self).denom_v()),
            if old(self).count + 1 < CADENCE {
                final(self).num_v() == old(self).num_v() && final(self).denom_v() == old(
                    self,
                ).denom_v() && final(self).count_v() == old(self).count + 1
            } else {
                final(self).num_v() == old(self).num_v() / gcd_int(old(self).num_v(),
                    old(self).denom_v()) && final(self).denom_v() == old(self).denom_v()
                    / gcd_int(old(self).num_v(), old(self).denom_v()) && final(self).count_v()
                    == 0
            },
    {
        if self.count + 1 < CADENCE {
            self.count = self.count + 1;
            proof {
                let n0 = old(self).num_v();
                let d0 = old(self).denom_v();
                assert(self.num_v() * d0 == self.denom_v() * n0) by (nonlinear_arith)
                    requires
                        self.num_v() == n0,
                        self.denom_v() == d0,
                ;
            }
            return ;
        }
        let g = Gcd::gcd(self.fract.num(), self.fract.denom());
        proof {
            lemma_gcd_int_divides(self.num_v(), self.denom_v());
            lemma_divides_iff_mod(g.v(), self.num_v());
            lemma_divides_iff_mod(g.v(), self.denom_v());
            lemma_exact_quotient_bounds(self.num_v(), g.v());
            lemma_exact_quotient_bounds(self.denom_v(), g.v());
            T::bounds_properties();
            self.fract.num.val_in_bounds();
            self.fract.denom.val_in_bounds();
        }
        let n = IntegralDomain::div(self.fract.num(), &g);
        let d = IntegralDomain::div(self.fract.denom(), &g);
        proof {
            assert(n.v() * self.denom_v() == d.v() * self.num_v()) by (nonlinear_arith)
                requires
                    self.num_v() == g.v() * n.v(),
                    self.denom_v() == g.v() * d.v(),
            ;
        }
        self.fract = Fraction::new(n, d);
        self.count = 0;
    }

    /// Multiplication with deferred reduction: the fractions multiply
    /// directly, the counters add, and a reduction pass runs only once
    /// the combined counter has reached the cadence.
    pub fn mul(&self, rhs: &Self) -> (r: Self)
        requires
            self.wf(),
            rhs.wf(),
            T::in_bounds(self.num_v() * rhs.num_v()),
            T::in_bounds(self.denom_v() * rhs.denom_v()),
            self.count_v() + rhs.count_v() + 1 >= CADENCE ==> gcd_ok::<T>(
                self.num_v() * rhs.num_v(), self.denom_v() * rhs.denom_v()),
        ensures
            r.wf(),
            frac_eq(r.num_v(), r.denom_v(), self.num_v() * rhs.num_v(),
                self.denom_v() * rhs.denom_v()),
            self.count_v() + rhs.count_v() + 1 < CADENCE ==> r.num_v() == self.num_v() * rhs.num_v()
                && r.denom_v() == self.denom_v() * rhs.denom_v() && r.count_v() == self.count_v()
                + rhs.count_v() + 1,
            self.count_v() + rhs.count_v() + 1 >= CADENCE ==> r.num_v() == (self.num_v()
                * rhs.num_v()) / gcd_int(self.num_v() * rhs.num_v(),
                self.denom_v() * rhs.denom_v()) && r.denom_v() == (self.denom_v()
                * rhs.denom_v()) / gcd_int(self.num_v() * rhs.num_v(),
                self.denom_v() * rhs.denom_v()) && r.count_v() == 0,
    {
        let f = self.fract.mul(&rhs.fract);
        let mut res = Reducible { fract: f, count: self.count + rhs.count };
        res.simplify();
        res
    }

    /// Division with deferred reduction; the divisor must not stand for
    /// zero.
    pub fn div(&self, rhs: &Self) -> (r: Self)
        requires
            self.wf(),
            rhs.wf(),
            rhs.num_v() != 0,
            T::in_bounds(self.num_v() * rhs.denom_v()),
            T::in_bounds(self.denom_v() * rhs.num_v()),
            self.count_v() + rhs.count_v() + 1 >= CADENCE ==> gcd_ok::<T>(
                self.num_v() * rhs.denom_v(), self.denom_v() * rhs.num_v()),
        ensures
            r.wf(),
            frac_eq(r.num_v(), r.denom_v(), self.num_v() * rhs.denom_v(),
                self.denom_v() * rhs.num_v()),
            self.count_v() + rhs.count_v() + 1 < CADENCE ==> r.num_v() == self.num_v()
                * rhs.denom_v() && r.denom_v() == self.denom_v() * rhs.num_v() && r.count_v()
                == self.count_v() + rhs.count_v() + 1,
            self.count_v() + rhs.count_v() + 1 >= CADENCE ==> r.num_v() == (self.num_v()
                * rhs.denom_v()) / gcd_int(self.num_v() * rhs.denom_v(),
                self.denom_v() * rhs.num_v()) && r.denom_v() == (self.denom_v()
                * rhs.num_v()) / gcd_int(self.num_v() * rhs.denom_v(),
                self.denom_v() * rhs.num_v()) && r.count_v() == 0,
    {
        let f = self.fract.div(&rhs.fract);
        let mut res = Reducible { fract: f, count: self.count + rhs.count };
        res.simplify();
        res
    }

    /// Addition with deferred reduction.
    pub fn add(&self, rhs: &Self) -> (r: Self)
        requires
            self.wf(),
            rhs.wf(),
            T::in_bounds(self.denom_v() * rhs.denom_v()),
            T::in_bounds(self.num_v() * rhs.denom_v()),
            T::in_bounds(self.denom_v() * rhs.num_v()),
            T::in_bounds(self.num_v() * rhs.denom_v() + self.denom_v() * rhs.num_v()),
            self.count_v() + rhs.count_v() + 1 >= CADENCE ==> gcd_ok::<T>(
                self.num_v() * rhs.denom_v() + self.denom_v() * rhs.num_v(),
                self.denom_v() * rhs.denom_v()),
        ensures
            r.wf(),
            frac_eq(r.num_v(), r.denom_v(),
                self.num_v() * rhs.denom_v() + self.denom_v() * rhs.num_v(),
                self.denom_v() * rhs.denom_v()),
            self.count_v() + rhs.count_v() + 1 < CADENCE ==> r.num_v() == self.num_v()
                * rhs.denom_v() + self.denom_v() * rhs.num_v() && r.denom_v() == self.denom_v()
                * rhs.denom_v() && r.count_v() == self.count_v() + rhs.count_v() + 1,
            self.count_v() + rhs.count_v() + 1 >= CADENCE ==> r.num_v() == (self.num_v()
                * rhs.denom_v() + self.denom_v() * rhs.num_v()) / gcd_int(self.num_v()
                * rhs.denom_v() + self.denom_v() * rhs.num_v(),
                self.denom_v() * rhs.denom_v()) && r.denom_v() == (self.denom_v()
                * rhs.denom_v()) / gcd_int(self.num_v() * rhs.denom_v() + self.denom_v()
                * rhs.num_v(), self.denom_v() * rhs.denom_v()) && r.count_v() == 0,
    {
        let f = self.fract.add(&rhs.fract);
        let mut res = Reducible { fract: f, count: self.count + rhs.count };
        res.simplify();
        res
    }

    /// Subtraction with deferred reduction.
    pub fn sub(&self, rhs: &Self) -> (r: Self)
        requires
            self.wf(),
            rhs.wf(),
            T::in_bounds(self.denom_v() * rhs.denom_v()),
            T::in_bounds(self.num_v() * rhs.denom_v()),
            T::in_bounds(self.denom_v() * rhs.num_v()),
            T::in_bounds(self.num_v() * rhs.denom_v() - self.denom_v() * rhs.num_v()),
            self.count_v() + rhs.count_v() + 1 >= CADENCE ==> gcd_ok::<T>(
                self.num_v() * rhs.denom_v() - self.denom_v() * rhs.num_v(),
                self.denom_v() * rhs.denom_v()),
        ensures
            r.wf(),
            frac_eq(r.num_v(), r.denom_v(),
                self.num_v() * rhs.denom_v() - self.denom_v() * rhs.num_v(),
                self.denom_v() * rhs.denom_v()),
            self.count_v() + rhs.count_v() + 1 < CADENCE ==> r.num_v() == self.num_v()
                * rhs.denom_v() - self.denom_v() * rhs.num_v() && r.denom_v() == self.denom_v()
                * rhs.denom_v() && r.count_v() == self.count_v() + rhs.count_v() + 1,
            self.count_v() + rhs.count_v() + 1 >= CADENCE ==> r.num_v() == (self.num_v()
                * rhs.denom_v() - self.denom_v() * rhs.num_v()) / gcd_int(self.num_v()
                * rhs.denom_v() - self.denom_v() * rhs.num_v(),
                self.denom_v() * rhs.denom_v()) && r.denom_v() == (self.denom_v()
                * rhs.denom_v()) / gcd_int(self.num_v() * rhs.denom_v() - self.denom_v()
                * rhs.num_v(), self.denom_v() * rhs.denom_v()) && r.count_v() == 0,
    {
        let f = self.fract.sub(&rhs.fract);
        let mut res = Reducible { fract: f, count: self.count + rhs.count };
        res.simplify();
        res
    }

    /// Negation with deferred reduction.
    pub fn neg(&self) -> (r: Self)
        requires
            self.wf(),
            T::in_bounds(-1),
            T::in_bounds(-self.num_v()),
            self.count_v() + 1 >= CADENCE ==> gcd_ok::<T>(-self.num_v(), self.denom_v()),
        ensures
            r.wf(),
            frac_eq(r.num_v(), r.denom_v(), -self.num_v(), self.denom_v()),
            self.count_v() + 1 < CADENCE ==> r.num_v() == -self.num_v() && r.denom_v()
                == self.denom_v() && r.count_v() == self.count_v() + 1,
            self.count_v() + 1 >= CADENCE ==> r.count_v() == 0,
    {
        let f = self.fract.neg();
        let mut res = Reducible { fract: f, count: self.count };
        res.simplify();
        res
    }

    /// Semantic equality of the underlying fractions.
    pub fn eq_frac(&self, rhs: &Self) -> (r: bool)
        requires
            self.wf(),
            rhs.wf(),
            T::in_bounds(self.num_v() * rhs.denom_v()),
            T::in_bounds(self.denom_v() * rhs.num_v()),
        ensures
            r <==> self.num_v() * rhs.denom_v() == self.denom_v() * rhs.num_v(),
    {
        self.fract.eq_frac(&rhs.fract)
    }
}

impl<T: IntegralDomain + Gcd + Meta> Com<AddOp> for Reducible<T> {}

impl<T: IntegralDomain + Gcd + Meta> Com<MulOp> for Reducible<T> {}

impl<T: IntegralDomain + Gcd + Meta> Ass<AddOp> for Reducible<T> {}

impl<T: IntegralDomain + Gcd + Meta> Ass<MulOp> for Reducible<T> {}

impl<T: IntegralDomain + Gcd + Meta> Group<AddOp> for Reducible<T> {
    fn neut() -> Self {
        Self::zero()
    }
}

impl<T: IntegralDomain + Gcd + Meta> Group<MulOp> for Reducible<T> {
    fn neut() -> Self {
        Self::one()
    }
}

impl<T: IntegralDomain + Gcd + Meta> Abelian<AddOp> for Reducible<T> {}

impl<T: IntegralDomain + Gcd + Meta> Abelian<MulOp> for Reducible<T> {}

} // verus!
