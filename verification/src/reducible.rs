//! Reducible fractions over checked scalars.
//!
//! `CheckRdc` reports an unrecoverable overflow as an absent result;
//! `Rdc` treats it as a caller error and therefore demands, as a
//! precondition, that the staged retry succeeds. `ClassicRdc` reduces
//! eagerly over unchecked scalars. All three share the invariant that
//! the denominator never stands for zero.

use vstd::prelude::*;

verus! {

use crate::arith::{gcd_int, lemma_divides_iff_mod, lemma_exact_quotient_bounds,
    lemma_gcd_int_divides};
use crate::engine::{
    cross_div_den, cross_div_num, cross_mul_den, cross_mul_num, cross_div_ok, cross_mul_ok,
    direct_add_ok, direct_cross_ok, direct_div_ok, direct_mul_ok, direct_sub_ok, frac_add,
    frac_div, frac_eq, frac_equal, frac_le, frac_mul, frac_sub, lcd_add_ok, lcd_den, lcd_part1,
    lcd_part2, lcd_sub_ok, red_cmp_ok, s_den, s_num, simplify_pair,
};
use crate::tech::{
    gcd_ok, AddGroup, AddOp, Ass, Abelian, CheckAddGroup, CheckGcd, CheckIntegralDomain,
    Checked, Com, Gcd, Group, IntegralDomain, Meta, MulOp, Ring,
};
use vstd::string::StringExecFns;

/// A fraction over a checked scalar whose operations recover from
/// overflow by staged reduction and report terminal overflow as an
/// absent result.
#[derive(Clone, Copy, Debug)]
pub struct CheckRdc<T: CheckIntegralDomain + CheckGcd> {
    num: T,
    denom: T,
}

impl<T: CheckIntegralDomain + CheckGcd> CheckRdc<T> {
    /// The denominator never stands for zero.
    pub open spec fn wf(&self) -> bool {
        self.denom_v() != 0
    }

    /// The integer the numerator stands for.
    pub closed spec fn num_v(&self) -> int {
        self.num.v()
    }

    /// The integer the denominator stands for.
    pub closed spec fn denom_v(&self) -> int {
        self.denom.v()
    }

    /// Construct a fraction; the denominator must not stand for zero.
    /// The fraction is simplified on construction when its gcd can be
    /// computed.
    pub fn new(num: T, denom: T) -> (r: Self)
        requires
            denom.v() != 0,
        ensures
            r.wf(),
            frac_eq(r.num_v(), r.denom_v(), num.v(), denom.v()),
            r.num_v() == s_num::<T>(num.v(), denom.v()),
            r.denom_v() == s_den::<T>(num.v(), denom.v()),
            gcd_ok::<T>(num.v(), denom.v()) ==> gcd_int(r.num_v(), r.denom_v()) == 1,
    {
        let (n, d) = simplify_pair(&num, &denom);
        CheckRdc { num: n, denom: d }
    }

    /// The numerator.
    pub fn num(&self) -> (r: &T)
        ensures
            r.v() == self.num_v(),
    {
        &self.num
    }

    /// The denominator.
    pub fn denom(&self) -> (r: &T)
        ensures
            r.v() == self.denom_v(),
    {
        &self.denom
    }

    /// Divide numerator and denominator by their gcd; reports absence,
    /// and leaves the value untouched, when the gcd cannot be computed.
    pub fn simplify(&mut self) -> (r: Option<()>)
        requires
            old(self).wf(),
        ensures
            final(self).wf(),
            frac_eq(final(self).num_v(), final(self).denom_v(), old(self).num_v(),
                old(self).denom_v()),
            final(self).num_v() == s_num::<T>(old(self).num_v(), old(self).denom_v()),
            final(self).denom_v() == s_den::<T>(old(self).num_v(), old(self).denom_v()),
            r is Some <==> gcd_ok::<T>(old(self).num_v(), old(self).denom_v()),
            r is Some ==> gcd_int(final(self).num_v(), final(self).denom_v()) == 1,
    {
        match CheckGcd::gcd(&self.num, &self.denom) {
            Some(g) => {
                proof {
                    lemma_gcd_int_divides(self.num.v(), self.denom.v());
                    lemma_divides_iff_mod(g.v(), self.num.v());
                    lemma_divides_iff_mod(g.v(), self.denom.v());
                    lemma_exact_quotient_bounds(self.num.v(), g.v());
                    lemma_exact_quotient_bounds(self.denom.v(), g.v());
                    T::bounds_properties();
                    self.num.val_in_bounds();
                    self.denom.val_in_bounds();
                }
                let n = CheckIntegralDomain::div(&self.num, &g).unwrap();
                let d = CheckIntegralDomain::div(&self.denom, &g).unwrap();
                proof {
                    assert(n.v() * self.denom.v() == self.num.v() * d.v()) by (nonlinear_arith)
                        requires
                            self.num.v() == g.v() * n.v(),
                            self.denom.v() == g.v() * d.v(),
                    ;
                    crate::engine::lemma_reduced_coprime(self.num.v(), self.denom.v(), g.v(),
                        n.v(), d.v());
                }
                self.num = n;
                self.denom = d;
                Some(())
            },
            None => None,
        }
    }

    /// The fraction standing for zero.
    pub fn zero() -> (r: Self)
        ensures
            r.wf(),
            r.num_v() == 0,
            r.denom_v() == 1,
    {
        CheckRdc { num: CheckAddGroup::zero(), denom: T::non_zero() }
    }

    /// The fraction standing for one.
    pub fn one() -> (r: Self)
        ensures
            r.wf(),
            r.num_v() == 1,
            r.denom_v() == 1,
    {
        CheckRdc { num: T::non_zero(), denom: T::non_zero() }
    }

    /// Whether the fraction stands for zero.
    pub fn is_zero(&self) -> (r: bool)
        requires
            self.wf(),
        ensures
            r <==> self.num_v() == 0,
    {
        self.num.is_zero()
    }

    /// Whether the fraction stands for one.
    pub fn is_one(&self) -> (r: bool)
        requires
            self.wf(),
        ensures
            r <==> self.num_v() == self.denom_v(),
    {
        self.num.le(&self.denom) && self.denom.le(&self.num)
    }

    /// An example of a nonzero fraction.
    pub fn non_zero() -> (r: Self)
        ensures
            r.wf(),
            r.num_v() == 1,
            r.denom_v() == 1,
    {
        Self::one()
    }

    /// The name of the type.
    pub fn name() -> String {
        <String as StringExecFns>::from_str("CheckRdc<").concat(T::name().as_str()).concat(">")
    }

    /// Staged addition; absent exactly when both the direct formula and
    /// the least-common-denominator retry overflow.
    pub fn add(&self, rhs: &Self) -> (r: Option<Self>)
        requires
            self.wf(),
            rhs.wf(),
        ensures
            match r {
                Some(s) => {
                    &&& s.wf()
                    &&& frac_eq(s.num_v(), s.denom_v(),
                        self.num_v() * rhs.denom_v() + self.denom_v() * rhs.num_v(),
                        self.denom_v() * rhs.denom_v())
                    &&& if direct_add_ok::<T>(self.num_v(), self.denom_v(), rhs.num_v(),
                        rhs.denom_v()) {
                        s.num_v() == self.num_v() * rhs.denom_v() + self.denom_v() * rhs.num_v()
                            && s.denom_v() == self.denom_v() * rhs.denom_v()
                    } else {
                        &&& lcd_add_ok::<T>(self.num_v(), self.denom_v(), rhs.num_v(),
                            rhs.denom_v())
                        &&& s.num_v() == lcd_part1::<T>(self.num_v(), self.denom_v(), rhs.num_v(),
                            rhs.denom_v()) + lcd_part2::<T>(self.num_v(), self.denom_v(),
                            rhs.num_v(), rhs.denom_v())
                        &&& s.denom_v() == lcd_den::<T>(self.num_v(), self.denom_v(), rhs.num_v(),
                            rhs.denom_v())
                    }
                },
                None => {
                    &&& !direct_add_ok::<T>(self.num_v(), self.denom_v(), rhs.num_v(),
                        rhs.denom_v())
                    &&& !lcd_add_ok::<T>(self.num_v(), self.denom_v(), rhs.num_v(), rhs.denom_v())
                },
            },
    {
        match frac_add(&self.num, &self.denom, &rhs.num, &rhs.denom) {
            Some((n, d)) => Some(CheckRdc { num: n, denom: d }),
            None => None,
        }
    }

    /// Staged subtraction; absent exactly when both the direct formula
    /// and the least-common-denominator retry overflow.
    pub fn sub(&self, rhs: &Self) -> (r: Option<Self>)
        requires
            self.wf(),
            rhs.wf(),
        ensures
            match r {
                Some(s) => {
                    &&& s.wf()
                    &&& frac_eq(s.num_v(), s.denom_v(),
                        self.num_v() * rhs.denom_v() - self.denom_v() * rhs.num_v(),
                        self.denom_v() * rhs.denom_v())
                    &&& if direct_sub_ok::<T>(self.num_v(), self.denom_v(), rhs.num_v(),
                        rhs.denom_v()) {
                        s.num_v() == self.num_v() * rhs.denom_v() - self.denom_v() * rhs.num_v()
                            && s.denom_v() == self.denom_v() * rhs.denom_v()
                    } else {
                        &&& lcd_sub_ok::<T>(self.num_v(), self.denom_v(), rhs.num_v(),
                            rhs.denom_v())
                        &&& s.num_v() == lcd_part1::<T>(self.num_v(), self.denom_v(), rhs.num_v(),
                            rhs.denom_v()) - lcd_part2::<T>(self.num_v(), self.denom_v(),
                            rhs.num_v(), rhs.denom_v())
                        &&& s.denom_v() == lcd_den::<T>(self.num_v(), self.denom_v(), rhs.num_v(),
                            rhs.denom_v())
                    }
                },
                None => {
                    &&& !direct_sub_ok::<T>(self.num_v(), self.denom_v(), rhs.num_v(),
                        rhs.denom_v())
                    &&& !lcd_sub_ok::<T>(self.num_v(), self.denom_v(), rhs.num_v(), rhs.denom_v())
                },
            },
    {
        match frac_sub(&self.num, &self.denom, &rhs.num, &rhs.denom) {
            Some((n, d)) => Some(CheckRdc { num: n, denom: d }),
            None => None,
        }
    }

    /// Staged multiplication; absent exactly when both the direct
    /// formula and the cross-cancelled retry overflow.
    pub fn mul(&self, rhs: &Self) -> (r: Option<Self>)
        requires
            self.wf(),
            rhs.wf(),
        ensures
            match r {
                Some(s) => {
                    &&& s.wf()
                    &&& frac_eq(s.num_v(), s.denom_v(), self.num_v() * rhs.num_v(),
                        self.denom_v() * rhs.denom_v())
                    &&& if direct_mul_ok::<T>(self.num_v(), self.denom_v(), rhs.num_v(),
                        rhs.denom_v()) {
                        s.num_v() == self.num_v() * rhs.num_v() && s.denom_v() == self.denom_v()
                            * rhs.denom_v()
                    } else {
                        &&& cross_mul_ok::<T>(self.num_v(), self.denom_v(), rhs.num_v(),
                            rhs.denom_v())
                        &&& s.num_v() == cross_mul_num::<T>(self.num_v(), self.denom_v(),
                            rhs.num_v(), rhs.denom_v())
                        &&& s.denom_v() == cross_mul_den::<T>(self.num_v(), self.denom_v(),
                            rhs.num_v(), rhs.denom_v())
                    }
                },
                None => {
                    &&& !direct_mul_ok::<T>(self.num_v(), self.denom_v(), rhs.num_v(),
                        rhs.denom_v())
                    &&& !cross_mul_ok::<T>(self.num_v(), self.denom_v(), rhs.num_v(),
                        rhs.denom_v())
                },
            },
    {
        match frac_mul(&self.num, &self.denom, &rhs.num, &rhs.denom) {
            Some((n, d)) => Some(CheckRdc { num: n, denom: d }),
            None => None,
        }
    }

    /// Staged division; the divisor must not stand for zero. Absent
    /// exactly when both the direct formula and the cross-cancelled
    /// retry overflow.
    pub fn div(&self, rhs: &Self) -> (r: Option<Self>)
        requires
            self.wf(),
            rhs.wf(),
            rhs.num_v() != 0,
        ensures
            match r {
                Some(s) => {
                    &&& s.wf()
                    &&& frac_eq(s.num_v(), s.denom_v(), self.num_v() * rhs.denom_v(),
                        self.denom_v() * rhs.num_v())
                    &&& if direct_div_ok::<T>(self.num_v(), self.denom_v(), rhs.num_v(),
                        rhs.denom_v()) {
                        s.num_v() == self.num_v() * rhs.denom_v() && s.denom_v() == self.denom_v()
                            * rhs.num_v()
                    } else {
                        &&& cross_div_ok::<T>(self.num_v(), self.denom_v(), rhs.num_v(),
                            rhs.denom_v())
                        &&& s.num_v() == cross_div_num::<T>(self.num_v(), self.denom_v(),
                            rhs.num_v(), rhs.denom_v())
                        &&& s.denom_v() == cross_div_den::<T>(self.num_v(), self.denom_v(),
                            rhs.num_v(), rhs.denom_v())
                    }
                },
                None => {
                    &&& !direct_div_ok::<T>(self.num_v(), self.denom_v(), rhs.num_v(),
                        rhs.denom_v())
                    &&& !cross_div_ok::<T>(self.num_v(), self.denom_v(), rhs.num_v(),
                        rhs.denom_v())
                },
            },
    {
        match frac_div(&self.num, &self.denom, &rhs.num, &rhs.denom) {
            Some((n, d)) => Some(CheckRdc { num: n, denom: d }),
            None => None,
        }
    }

    /// Negation, routed through subtraction from the zero fraction.
    pub fn neg(&self) -> (r: Option<Self>)
        requires
            self.wf(),
        ensures
            match r {
                Some(s) => {
                    &&& s.wf()
                    &&& frac_eq(s.num_v(), s.denom_v(), -self.num_v(), self.denom_v())
                },
                None => {
                    &&& !direct_sub_ok::<T>(0, 1, self.num_v(), self.denom_v())
                    &&& !lcd_sub_ok::<T>(0, 1, self.num_v(), self.denom_v())
                },
            },
    {
        let z = Self::zero();
        match z.sub(self) {
            Some(s) => {
                proof {
                    assert(s.num_v() * self.denom_v() == s.denom_v() * (-self.num_v()))
                        by (nonlinear_arith)
                        requires
                            s.num_v() * (1 * self.denom_v()) == s.denom_v() * (0 * self.denom_v()
                                - 1 * self.num_v()),
                    ;
                }
                Some(s)
            },
            None => None,
        }
    }

    /// Semantic equality by cross-multiplication, with a reduced retry;
    /// absent when even the reduced cross-products overflow.
    pub fn eq_frac(&self, rhs: &Self) -> (r: Option<bool>)
        requires
            self.wf(),
            rhs.wf(),
        ensures
            match r {
                Some(b) => b <==> self.num_v() * rhs.denom_v() == self.denom_v() * rhs.num_v(),
                None => {
                    &&& !direct_cross_ok::<T>(self.num_v(), self.denom_v(), rhs.num_v(),
                        rhs.denom_v())
                    &&& !red_cmp_ok::<T>(self.num_v(), self.denom_v(), rhs.num_v(), rhs.denom_v())
                },
            },
    {
        frac_equal(&self.num, &self.denom, &rhs.num, &rhs.denom)
    }

    /// Cross-multiplication ordering, with a reduced retry; absent when
    /// even the reduced cross-products overflow.
    pub fn le_frac(&self, rhs: &Self) -> (r: Option<bool>)
        requires
            self.wf(),
            rhs.wf(),
        ensures
            match r {
                Some(b) => b <==> self.num_v() * rhs.denom_v() <= self.denom_v() * rhs.num_v(),
                None => {
                    &&& !direct_cross_ok::<T>(self.num_v(), self.denom_v(), rhs.num_v(),
                        rhs.denom_v())
                    &&& !red_cmp_ok::<T>(self.num_v(), self.denom_v(), rhs.num_v(), rhs.denom_v())
                },
            },
    {
        frac_le(&self.num, &self.denom, &rhs.num, &rhs.denom)
    }
}

impl<T: CheckIntegralDomain + CheckGcd> Com<AddOp> for CheckRdc<T> {}

impl<T: CheckIntegralDomain + CheckGcd> Com<MulOp> for CheckRdc<T> {}

impl<T: CheckIntegralDomain + CheckGcd> Ass<AddOp> for CheckRdc<T> {}

impl<T: CheckIntegralDomain + CheckGcd> Ass<MulOp> for CheckRdc<T> {}

impl<T: CheckIntegralDomain + CheckGcd> Checked for CheckRdc<T> {}

impl<T: CheckIntegralDomain + CheckGcd> Group<AddOp> for CheckRdc<T> {
    fn neut() -> Self {
        Self::zero()
    }
}

impl<T: CheckIntegralDomain + CheckGcd> Group<MulOp> for CheckRdc<T> {
    fn neut() -> Self {
        Self::one()
    }
}

impl<T: CheckIntegralDomain + CheckGcd> Abelian<AddOp> for CheckRdc<T> {}

impl<T: CheckIntegralDomain + CheckGcd> Abelian<MulOp> for CheckRdc<T> {}

impl<T: CheckIntegralDomain + CheckGcd> Default for CheckRdc<T> {
    /// The default fraction stands for one.
    fn default() -> (r: Self)
        ensures
            r.wf(),
            r.num_v() == 1,
            r.denom_v() == 1,
    {
        CheckRdc { num: T::non_zero(), denom: T::non_zero() }
    }
}

/// A fraction over a checked scalar whose operations recover from
/// overflow by staged reduction and treat terminal overflow as a caller
/// error: every operation demands, as a precondition, that the staged
/// retry can represent the result.
#[derive(Clone, Copy, Debug)]
pub struct Rdc<T: CheckIntegralDomain + CheckGcd> {
    num: T,
    denom: T,
}

impl<T: CheckIntegralDomain + CheckGcd> Rdc<T> {
    /// The denominator never stands for zero.
    pub open spec fn wf(&self) -> bool {
        self.denom_v() != 0
    }

    /// The integer the numerator stands for.
    pub closed spec fn num_v(&self) -> int {
        self.num.v()
    }

    /// The integer the denominator stands for.
    pub closed spec fn denom_v(&self) -> int {
        self.denom.v()
    }

    /// Construct a fraction and simplify it. The denominator must not
    /// stand for zero and the gcd of the pair must be computable.
    pub fn new(num: T, denom: T) -> (r: Self)
        requires
            denom.v() != 0,
            gcd_ok::<T>(num.v(), denom.v()),
        ensures
            r.wf(),
            frac_eq(r.num_v(), r.denom_v(), num.v(), denom.v()),
            r.num_v() == s_num::<T>(num.v(), denom.v()),
            r.denom_v() == s_den::<T>(num.v(), denom.v()),
            gcd_int(r.num_v(), r.denom_v()) == 1,
    {
        let (n, d) = simplify_pair(&num, &denom);
        Rdc { num: n, denom: d }
    }

    /// The numerator.
    pub fn num(&self) -> (r: &T)
        ensures
            r.v() == self.num_v(),
    {
        &self.num
    }

    /// The denominator.
    pub fn denom(&self) -> (r: &T)
        ensures
            r.v() == self.denom_v(),
    {
        &self.denom
    }

    /// Divide numerator and denominator by their gcd, which must be
    /// computable.
    pub fn simplify(&mut self)
        requires
            old(self).wf(),
            gcd_ok::<T>(old(self).num_v(), old(self).denom_v()),
        ensures
            final(self).wf(),
            frac_eq(final(self).num_v(), final(self).denom_v(), old(self).num_v(),
                old(self).denom_v()),
            final(self).num_v() == s_num::<T>(old(self).num_v(), old(self).denom_v()),
            final(self).denom_v() == s_den::<T>(old(self).num_v(), old(self).denom_v()),
            gcd_int(final(self).num_v(), final(self).denom_v()) == 1,
    {
        let (n, d) = simplify_pair(&self.num, &self.denom);
        self.num = n;
        self.denom = d;
    }

    /// The fraction standing for zero.
    pub fn zero() -> (r: Self)
        ensures
            r.wf(),
            r.num_v() == 0,
            r.denom_v() == 1,
    {
        Rdc { num: CheckAddGroup::zero(), denom: T::non_zero() }
    }

    /// The fraction standing for one.
    pub fn one() -> (r: Self)
        ensures
            r.wf(),
            r.num_v() == 1,
            r.denom_v() == 1,
    {
        Rdc { num: T::non_zero(), denom: T::non_zero() }
    }

    /// Whether the fraction stands for zero.
    pub fn is_zero(&self) -> (r: bool)
        requires
            self.wf(),
        ensures
            r <==> self.num_v() == 0,
    {
        self.num.is_zero()
    }

    /// Whether the fraction stands for one.
    pub fn is_one(&self) -> (r: bool)
        requires
            self.wf(),
        ensures
            r <==> self.num_v() == self.denom_v(),
    {
        self.num.le(&self.denom) && self.denom.le(&self.num)
    }

    /// An example of a nonzero fraction.
    pub fn non_zero() -> (r: Self)
        ensures
            r.wf(),
            r.num_v() == 1,
            r.denom_v() == 1,
    {
        Self::one()
    }

    /// The name of the type.
    pub fn name() -> String {
        <String as StringExecFns>::from_str("Rdc<").concat(T::name().as_str()).concat(">")
    }

    /// Staged addition; the direct formula or the retry must succeed.
    pub fn add(&self, rhs: &Self) -> (r: Self)
        requires
            self.wf(),
            rhs.wf(),
            direct_add_ok::<T>(self.num_v(), self.denom_v(), rhs.num_v(), rhs.denom_v())
                || lcd_add_ok::<T>(self.num_v(), self.denom_v(), rhs.num_v(), rhs.denom_v()),
        ensures
            r.wf(),
            frac_eq(r.num_v(), r.denom_v(),
                self.num_v() * rhs.denom_v() + self.denom_v() * rhs.num_v(),
                self.denom_v() * rhs.denom_v()),
            if direct_add_ok::<T>(self.num_v(), self.denom_v(), rhs.num_v(), rhs.denom_v()) {
                r.num_v() == self.num_v() * rhs.denom_v() + self.denom_v() * rhs.num_v()
                    && r.denom_v() == self.denom_v() * rhs.denom_v()
            } else {
                r.num_v() == lcd_part1::<T>(self.num_v(), self.denom_v(), rhs.num_v(),
                    rhs.denom_v()) + lcd_part2::<T>(self.num_v(), self.denom_v(), rhs.num_v(),
                    rhs.denom_v()) && r.denom_v() == lcd_den::<T>(self.num_v(), self.denom_v(),
                    rhs.num_v(), rhs.denom_v())
            },
    {
        let (n, d) = frac_add(&self.num, &self.denom, &rhs.num, &rhs.denom).unwrap();
        Rdc { num: n, denom: d }
    }

    /// Staged subtraction; the direct formula or the retry must succeed.
    pub fn sub(&self, rhs: &Self) -> (r: Self)
        requires
            self.wf(),
            rhs.wf(),
            direct_sub_ok::<T>(self.num_v(), self.denom_v(), rhs.num_v(), rhs.denom_v())
                || lcd_sub_ok::<T>(self.num_v(), self.denom_v(), rhs.num_v(), rhs.denom_v()),
        ensures
            r.wf(),
            frac_eq(r.num_v(), r.denom_v(),
                self.num_v() * rhs.denom_v() - self.denom_v() * rhs.num_v(),
                self.denom_v() * rhs.denom_v()),
            if direct_sub_ok::<T>(self.num_v(), self.denom_v(), rhs.num_v(), rhs.denom_v()) {
                r.num_v() == self.num_v() * rhs.denom_v() - self.denom_v() * rhs.num_v()
                    && r.denom_v() == self.denom_v() * rhs.denom_v()
            } else {
                r.num_v() == lcd_part1::<T>(self.num_v(), self.denom_v(), rhs.num_v(),
                    rhs.denom_v()) - lcd_part2::<T>(self.num_v(), self.denom_v(), rhs.num_v(),
                    rhs.denom_v()) && r.denom_v() == lcd_den::<T>(self.num_v(), self.denom_v(),
                    rhs.num_v(), rhs.denom_v())
            },
    {
        let (n, d) = frac_sub(&self.num, &self.denom, &rhs.num, &rhs.denom).unwrap();
        Rdc { num: n, denom: d }
    }

    /// Staged multiplication; the direct formula or the retry must
    /// succeed.
    pub fn mul(&self, rhs: &Self) -> (r: Self)
        requires
            self.wf(),
            rhs.wf(),
            direct_mul_ok::<T>(self.num_v(), self.denom_v(), rhs.num_v(), rhs.denom_v())
                || cross_mul_ok::<T>(self.num_v(), self.denom_v(), rhs.num_v(), rhs.denom_v()),
        ensures
            r.wf(),
            frac_eq(r.num_v(), r.denom_v(), self.num_v() * rhs.num_v(),
                self.denom_v() * rhs.denom_v()),
            if direct_mul_ok::<T>(self.num_v(), self.denom_v(), rhs.num_v(), rhs.denom_v()) {
                r.num_v() == self.num_v() * rhs.num_v() && r.denom_v() == self.denom_v()
                    * rhs.denom_v()
            } else {
                r.num_v() == cross_mul_num::<T>(self.num_v(), self.denom_v(), rhs.num_v(),
                    rhs.denom_v()) && r.denom_v() == cross_mul_den::<T>(self.num_v(),
                    self.denom_v(), rhs.num_v(), rhs.denom_v())
            },
    {
        let (n, d) = frac_mul(&self.num, &self.denom, &rhs.num, &rhs.denom).unwrap();
        Rdc { num: n, denom: d }
    }

    /// Staged division; the divisor must not stand for zero, and the
    /// direct formula or the retry must succeed.
    pub fn div(&self, rhs: &Self) -> (r: Self)
        requires
            self.wf(),
            rhs.wf(),
            rhs.num_v() != 0,
            direct_div_ok::<T>(self.num_v(), self.denom_v(), rhs.num_v(), rhs.denom_v())
                || cross_div_ok::<T>(self.num_v(), self.denom_v(), rhs.num_v(), rhs.denom_v()),
        ensures
            r.wf(),
            frac_eq(r.num_v(), r.denom_v(), self.num_v() * rhs.denom_v(),
                self.denom_v() * rhs.num_v()),
            if direct_div_ok::<T>(self.num_v(), self.denom_v(), rhs.num_v(), rhs.denom_v()) {
                r.num_v() == self.num_v() * rhs.denom_v() && r.denom_v() == self.denom_v()
                    * rhs.num_v()
            } else {
                r.num_v() == cross_div_num::<T>(self.num_v(), self.denom_v(), rhs.num_v(),
                    rhs.denom_v()) && r.denom_v() == cross_div_den::<T>(self.num_v(),
                    self.denom_v(), rhs.num_v(), rhs.denom_v())
            },
    {
        let (n, d) = frac_div(&self.num, &self.denom, &rhs.num, &rhs.denom).unwrap();
        Rdc { num: n, denom: d }
    }

    /// Negation, routed through subtraction from the zero fraction.
    pub fn neg(&self) -> (r: Self)
        requires
            self.wf(),
            direct_sub_ok::<T>(0, 1, self.num_v(), self.denom_v())
                || lcd_sub_ok::<T>(0, 1, self.num_v(), self.denom_v()),
        ensures
            r.wf(),
            frac_eq(r.num_v(), r.denom_v(), -self.num_v(), self.denom_v()),
    {
        let z = Self::zero();
        let r = z.sub(self);
        proof {
            assert(r.num_v() * self.denom_v() == r.denom_v() * (-self.num_v()))
                by (nonlinear_arith)
                requires
                    r.num_v() * (1 * self.denom_v()) == r.denom_v() * (0 * self.denom_v() - 1
                        * self.num_v()),
            ;
        }
        r
    }

    /// Semantic equality by cross-multiplication, with a reduced retry;
    /// one of the two must stay within bounds.
    pub fn eq_frac(&self, rhs: &Self) -> (r: bool)
        requires
            self.wf(),
            rhs.wf(),
            direct_cross_ok::<T>(self.num_v(), self.denom_v(), rhs.num_v(), rhs.denom_v())
                || red_cmp_ok::<T>(self.num_v(), self.denom_v(), rhs.num_v(), rhs.denom_v()),
        ensures
            r <==> self.num_v() * rhs.denom_v() == self.denom_v() * rhs.num_v(),
    {
        frac_equal(&self.num, &self.denom, &rhs.num, &rhs.denom).unwrap()
    }

    /// Cross-multiplication ordering, with a reduced retry; one of the
    /// two must stay within bounds.
    pub fn le_frac(&self, rhs: &Self) -> (r: bool)
        requires
            self.wf(),
            rhs.wf(),
            direct_cross_ok::<T>(self.num_v(), self.denom_v(), rhs.num_v(), rhs.denom_v())
                || red_cmp_ok::<T>(self.num_v(), self.denom_v(), rhs.num_v(), rhs.denom_v()),
        ensures
            r <==> self.num_v() * rhs.denom_v() <= self.denom_v() * rhs.num_v(),
    {
        frac_le(&self.num, &self.denom, &rhs.num, &rhs.denom).unwrap()
    }
}

impl<T: CheckIntegralDomain + CheckGcd> Com<AddOp> for Rdc<T> {}

impl<T: CheckIntegralDomain + CheckGcd> Com<MulOp> for Rdc<T> {}

impl<T: CheckIntegralDomain + CheckGcd> Ass<AddOp> for Rdc<T> {}

impl<T: CheckIntegralDomain + CheckGcd> Ass<MulOp> for Rdc<T> {}

impl<T: CheckIntegralDomain + CheckGcd> Group<AddOp> for Rdc<T> {
    fn neut() -> Self {
        Self::zero()
    }
}

impl<T: CheckIntegralDomain + CheckGcd> Group<MulOp> for Rdc<T> {
    fn neut() -> Self {
        Self::one()
    }
}

impl<T: CheckIntegralDomain + CheckGcd> Abelian<AddOp> for Rdc<T> {}

impl<T: CheckIntegralDomain + CheckGcd> Abelian<MulOp> for Rdc<T> {}

impl<T: CheckIntegralDomain + CheckGcd> Default for Rdc<T> {
    /// The default fraction stands for one.
    fn default() -> (r: Self)
        ensures
            r.wf(),
            r.num_v() == 1,
            r.denom_v() == 1,
    {
        Rdc { num: T::non_zero(), denom: T::non_zero() }
    }
}

/// A fraction over an unchecked scalar with an eager reduction policy:
/// every constructor and every operation reduces the result by its gcd.
#[derive(Clone, Copy, Debug)]
pub struct ClassicRdc<T: IntegralDomain + Gcd + Meta> {
    num: T,
    denom: T,
}

impl<T: IntegralDomain + Gcd + Meta> ClassicRdc<T> {
    /// The denominator never stands for zero.
    pub open spec fn wf(&self) -> bool {
        self.denom_v() != 0
    }

    /// The integer the numerator stands for.
    pub closed spec fn num_v(&self) -> int {
        self.num.v()
    }

    /// The integer the denominator stands for.
    pub closed spec fn denom_v(&self) -> int {
        self.denom.v()
    }

    /// Divide numerator and denominator by their gcd.
    fn simplify(&mut self)
        requires
            old(self).wf(),
            gcd_ok::<T>(old(self).num_v(), old(self).denom_v()),
        ensures
            final(self).wf(),
            frac_eq(final(self).num_v(), final(self).denom_v(), old(self).num_v(),
                old(self).denom_v()),
            final(self).num_v() == old(self).num_v() / gcd_int(old(self).num_v(),
                old(self).denom_v()),
            final(self).denom_v() == old(self).denom_v() / gcd_int(old(self).num_v(),
                old(self).denom_v()),
            gcd_int(final(self).num_v(), final(self).denom_v()) == 1,
    {
        let g = Gcd::gcd(&self.num, &self.denom);
        proof {
            lemma_gcd_int_divides(self.num.v(), self.denom.v());
            lemma_divides_iff_mod(g.v(), self.num.v());
            lemma_divides_iff_mod(g.v(), self.denom.v());
            lemma_exact_quotient_bounds(self.num.v(), g.v());
            lemma_exact_quotient_bounds(self.denom.v(), g.v());
            T::bounds_properties();
            self.num.val_in_bounds();
            self.denom.val_in_bounds();
        }
        let n = IntegralDomain::div(&self.num, &g);
        let d = IntegralDomain::div(&self.denom, &g);
        proof {
            assert(n.v() * self.denom.v() == d.v() * self.num.v()) by (nonlinear_arith)
                requires
                    self.num.v() == g.v() * n.v(),
                    self.denom.v() == g.v() * d.v(),
            ;
            crate::engine::lemma_reduced_coprime(self.num.v(), self.denom.v(), g.v(), n.v(),
                d.v());
        }
        self.num = n;
        self.denom = d;
    }

    /// Construct a fraction and reduce it. The denominator must not
    /// stand for zero and the gcd of the pair must be computable.
    pub fn new(num: T, denom: T) -> (r: Self)
        requires
            denom.v() != 0,
            gcd_ok::<T>(num.v(), denom.v()),
        ensures
            r.wf(),
            frac_eq(r.num_v(), r.denom_v(), num.v(), denom.v()),
            r.num_v() == num.v() / gcd_int(num.v(), denom.v()),
            r.denom_v() == denom.v() / gcd_int(num.v(), denom.v()),
            gcd_int(r.num_v(), r.denom_v()) == 1,
    {
        let mut res = ClassicRdc { num, denom };
        res.simplify();
        res
    }

    /// The numerator.
    pub fn num(&self) -> (r: &T)
        ensures
            r.v() == self.num_v(),
    {
        &self.num
    }

    /// The denominator.
    pub fn denom(&self) -> (r: &T)
        ensures
            r.v() == self.denom_v(),
    {
        &self.denom
    }

    /// The fraction standing for zero.
    pub fn zero() -> (r: Self)
        ensures
            r.wf(),
            r.num_v() == 0,
            r.denom_v() == 1,
    {
        ClassicRdc { num: AddGroup::zero(), denom: T::non_zero() }
    }

    /// The fraction standing for one.
    pub fn one() -> (r: Self)
        ensures
            r.wf(),
            r.num_v() == 1,
            r.denom_v() == 1,
    {
        ClassicRdc { num: T::non_zero(), denom: T::non_zero() }
    }

    /// Whether the fraction stands for zero.
    pub fn is_zero(&self) -> (r: bool)
        requires
            self.wf(),
        ensures
            r <==> self.num_v() == 0,
    {
        self.num.is_zero()
    }

    /// Whether the fraction stands for one.
    pub fn is_one(&self) -> (r: bool)
        requires
            self.wf(),
        ensures
            r <==> self.num_v() == self.denom_v(),
    {
        self.num.le(&self.denom) && self.denom.le(&self.num)
    }

    /// An example of a nonzero fraction.
    pub fn non_zero() -> (r: Self)
        ensures
            r.wf(),
            r.num_v() == 1,
            r.denom_v() == 1,
    {
        Self::one()
    }

    /// The name of the type.
    pub fn name() -> String {
        <String as StringExecFns>::from_str("ClassicRdc<").concat(T::name().as_str()).concat(">")
    }

    /// Eager multiplication: multiply directly, then reduce. Every
    /// intermediate product must be representable.
    pub fn mul(&self, rhs: &Self) -> (r: Self)
        requires
            self.wf(),
            rhs.wf(),
            T::in_bounds(self.num_v() * rhs.num_v()),
            T::in_bounds(self.denom_v() * rhs.denom_v()),
            gcd_ok::<T>(self.num_v() * rhs.num_v(), self.denom_v() * rhs.denom_v()),
        ensures
            r.wf(),
            frac_eq(r.num_v(), r.denom_v(), self.num_v() * rhs.num_v(),
                self.denom_v() * rhs.denom_v()),
            r.num_v() == (self.num_v() * rhs.num_v()) / gcd_int(self.num_v() * rhs.num_v(),
                self.denom_v() * rhs.denom_v()),
            r.denom_v() == (self.denom_v() * rhs.denom_v()) / gcd_int(
                self.num_v() * rhs.num_v(), self.denom_v() * rhs.denom_v()),
            gcd_int(r.num_v(), r.denom_v()) == 1,
    {
        let n = Ring::mul(&self.num, &rhs.num);
        let d = Ring::mul(&self.denom, &rhs.denom);
        proof {
            assert(d.v() != 0) by (nonlinear_arith)
                requires
                    d.v() == self.denom.v() * rhs.denom.v(),
                    self.denom.v() != 0,
                    rhs.denom.v() != 0,
            ;
        }
        let mut res = ClassicRdc { num: n, denom: d };
        res.simplify();
        res
    }

    /// Eager division: cross-multiply into a new reduced fraction. The
    /// divisor must not stand for zero.
    pub fn div(&self, rhs: &Self) -> (r: Self)
        requires
            self.wf(),
            rhs.wf(),
            rhs.num_v() != 0,
            T::in_bounds(self.num_v() * rhs.denom_v()),
            T::in_bounds(self.denom_v() * rhs.num_v()),
            gcd_ok::<T>(self.num_v() * rhs.denom_v(), self.denom_v() * rhs.num_v()),
        ensures
            r.wf(),
            frac_eq(r.num_v(), r.denom_v(), self.num_v() * rhs.denom_v(),
                self.denom_v() * rhs.num_v()),
            r.num_v() == (self.num_v() * rhs.denom_v()) / gcd_int(self.num_v() * rhs.denom_v(),
                self.denom_v() * rhs.num_v()),
            r.denom_v() == (self.denom_v() * rhs.num_v()) / gcd_int(
                self.num_v() * rhs.denom_v(), self.denom_v() * rhs.num_v()),
            gcd_int(r.num_v(), r.denom_v()) == 1,
    {
        let n = Ring::mul(&self.num, &rhs.denom);
        let d = Ring::mul(&self.denom, &rhs.num);
        proof {
            assert(d.v() != 0) by (nonlinear_arith)
                requires
                    d.v() == self.denom.v() * rhs.num.v(),
                    self.denom.v() != 0,
                    rhs.num.v() != 0,
            ;
        }
        Self::new(n, d)
    }

    /// Eager addition over the common denominator, then reduce.
    pub fn add(&self, rhs: &Self) -> (r: Self)
        requires
            self.wf(),
            rhs.wf(),
            T::in_bounds(self.denom_v() * rhs.denom_v()),
            T::in_bounds(self.num_v() * rhs.denom_v()),
            T::in_bounds(self.denom_v() * rhs.num_v()),
            T::in_bounds(self.num_v() * rhs.denom_v() + self.denom_v() * rhs.num_v()),
            gcd_ok::<T>(self.num_v() * rhs.denom_v() + self.denom_v() * rhs.num_v(),
                self.denom_v() * rhs.denom_v()),
        ensures
            r.wf(),
            frac_eq(r.num_v(), r.denom_v(),
                self.num_v() * rhs.denom_v() + self.denom_v() * rhs.num_v(),
                self.denom_v() * rhs.denom_v()),
            gcd_int(r.num_v(), r.denom_v()) == 1,
    {
        let x = Ring::mul(&self.num, &rhs.denom);
        let y = Ring::mul(&self.denom, &rhs.num);
        let n = AddGroup::add(&x, &y);
        let d = Ring::mul(&self.denom, &rhs.denom);
        proof {
            assert(d.v() != 0) by (nonlinear_arith)
                requires
                    d.v() == self.denom.v() * rhs.denom.v(),
                    self.denom.v() != 0,
                    rhs.denom.v() != 0,
            ;
        }
        let mut res = ClassicRdc { num: n, denom: d };
        res.simplify();
        res
    }

    /// Eager subtraction over the common denominator, then reduce.
    pub fn sub(&self, rhs: &Self) -> (r: Self)
        requires
            self.wf(),
            rhs.wf(),
            T::in_bounds(self.denom_v() * rhs.denom_v()),
            T::in_bounds(self.num_v() * rhs.denom_v()),
            T::in_bounds(self.denom_v() * rhs.num_v()),
            T::in_bounds(self.num_v() * rhs.denom_v() - self.denom_v() * rhs.num_v()),
            gcd_ok::<T>(self.num_v() * rhs.denom_v() - self.denom_v() * rhs.num_v(),
                self.denom_v() * rhs.denom_v()),
        ensures
            r.wf(),
            frac_eq(r.num_v(), r.denom_v(),
                self.num_v() * rhs.denom_v() - self.denom_v() * rhs.num_v(),
                self.denom_v() * rhs.denom_v()),
            gcd_int(r.num_v(), r.denom_v()) == 1,
    {
        let x = Ring::mul(&self.num, &rhs.denom);
        let y = Ring::mul(&self.denom, &rhs.num);
        let n = AddGroup::sub(&x, &y);
        let d = Ring::mul(&self.denom, &rhs.denom);
        proof {
            assert(d.v() != 0) by (nonlinear_arith)
                requires
                    d.v() == self.denom.v() * rhs.denom.v(),
                    self.denom.v() != 0,
                    rhs.denom.v() != 0,
            ;
        }
        let mut res = ClassicRdc { num: n, denom: d };
        res.simplify();
        res
    }

    /// Negation, routed through subtraction from the zero fraction.
    pub fn neg(&self) -> (r: Self)
        requires
            self.wf(),
            T::in_bounds(-self.num_v()),
            gcd_ok::<T>(-self.num_v(), self.denom_v()),
        ensures
            r.wf(),
            frac_eq(r.num_v(), r.denom_v(), -self.num_v(), self.denom_v()),
            gcd_int(r.num_v(), r.denom_v()) == 1,
    {
        let z = Self::zero();
        proof {
            T::bounds_properties();
            self.num.val_in_bounds();
            self.denom.val_in_bounds();
        }
        let r = z.sub(self);
        proof {
            assert(r.num_v() * self.denom_v() == r.denom_v() * (-self.num_v()))
                by (nonlinear_arith)
                requires
                    r.num_v() * (1 * self.denom_v()) == r.denom_v() * (0 * self.denom_v() - 1
                        * self.num_v()),
            ;
        }
        r
    }

    /// Semantic equality by cross-multiplication.
    pub fn eq_frac(&self, rhs: &Self) -> (r: bool)
        requires
            self.wf(),
            rhs.wf(),
            T::in_bounds(self.num_v() * rhs.denom_v()),
            T::in_bounds(self.denom_v() * rhs.num_v()),
        ensures
            r <==> self.num_v() * rhs.denom_v() == self.denom_v() * rhs.num_v(),
    {
        let l = Ring::mul(&self.num, &rhs.denom);
        let rr = Ring::mul(&self.denom, &rhs.num);
        l.le(&rr) && rr.le(&l)
    }

    /// Cross-multiplication ordering.
    pub fn le_frac(&self, rhs: &Self) -> (r: bool)
        requires
            self.wf(),
            rhs.wf(),
            T::in_bounds(self.num_v() * rhs.denom_v()),
            T::in_bounds(self.denom_v() * rhs.num_v()),
        ensures
            r <==> self.num_v() * rhs.denom_v() <= self.denom_v() * rhs.num_v(),
    {
        let l = Ring::mul(&self.num, &rhs.denom);
        let rr = Ring::mul(&self.denom, &rhs.num);
        l.le(&rr)
    }
}

impl<T: IntegralDomain + Gcd + Meta> Com<AddOp> for ClassicRdc<T> {}

impl<T: IntegralDomain + Gcd + Meta> Com<MulOp> for ClassicRdc<T> {}

impl<T: IntegralDomain + Gcd + Meta> Ass<AddOp> for ClassicRdc<T> {}

impl<T: IntegralDomain + Gcd + Meta> Ass<MulOp> for ClassicRdc<T> {}

impl<T: IntegralDomain + Gcd + Meta> Group<AddOp> for ClassicRdc<T> {
    fn neut() -> Self {
        Self::zero()
    }
}

impl<T: IntegralDomain + Gcd + Meta> Group<MulOp> for ClassicRdc<T> {
    fn neut() -> Self {
        Self::one()
    }
}

impl<T: IntegralDomain + Gcd + Meta> Abelian<AddOp> for ClassicRdc<T> {}

impl<T: IntegralDomain + Gcd + Meta> Abelian<MulOp> for ClassicRdc<T> {}

impl<T: IntegralDomain + Gcd + Meta> Default for ClassicRdc<T> {
    /// The default fraction stands for one.
    fn default() -> (r: Self)
        ensures
            r.wf(),
            r.num_v() == 1,
            r.denom_v() == 1,
    {
        ClassicRdc { num: T::non_zero(), denom: T::non_zero() }
    }
}

} // verus!
