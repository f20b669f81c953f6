//! General laws of the fraction engines, stated over the same spec
//! functions that the operation contracts use.

use vstd::prelude::*;

verus! {

use crate::arith::{
    divides, gcd_int, lemma_divides_iff_mod, lemma_exact_quotient_bounds, lemma_gcd_int_divides,
};
use crate::engine::{direct_add_ok, direct_mul_ok, frac_eq, lemma_reduced_coprime, s_den, s_num};
use crate::fract::Fraction;
use crate::tech::{gcd_ok, IntegralDomain, Meta};
use vstd::arithmetic::div_mod::lemma_fundamental_div_mod_converse;

/// Scaling numerator and denominator by the same nonzero factor leaves
/// a fraction semantically unchanged: the two cross-products agree, so
/// semantic equality holds whatever the reduction state.
pub proof fn lemma_scale_invariant(a: int, b: int, k: int)
    requires
        b != 0,
        k != 0,
    ensures
        frac_eq(a, b, k * a, k * b),
{
    assert(a * (k * b) == b * (k * a)) by (nonlinear_arith);
}

/// The law above, stated on fraction values: a fraction built from
/// `(a, b)` and one built from `(k*a, k*b)` stand for the same rational.
pub proof fn lemma_fraction_scale_invariant<T: IntegralDomain + Meta>(
    f: Fraction<T>,
    g: Fraction<T>,
    k: int,
)
    requires
        f.wf(),
        g.wf(),
        k != 0,
        g.num_v() == k * f.num_v(),
        g.denom_v() == k * f.denom_v(),
    ensures
        frac_eq(f.num_v(), f.denom_v(), g.num_v(), g.denom_v()),
{
    lemma_scale_invariant(f.num_v(), f.denom_v(), k);
}

/// The gcd divides both of its arguments evenly and does not depend on
/// their order; it is positive whenever the second argument is nonzero.
pub proof fn lemma_gcd_divides_both(a: int, b: int)
    ensures
        divides(gcd_int(a, b), a),
        divides(gcd_int(a, b), b),
        gcd_int(a, b) == gcd_int(b, a),
        b != 0 ==> gcd_int(a, b) >= 1,
{
    lemma_gcd_int_divides(a, b);
}

/// Addition is commutative: the direct formula stays in bounds for one
/// operand order exactly when it does for the other, and the two direct
/// results stand for the same rational.
pub proof fn lemma_add_commutative<T: Meta>(an: int, ad: int, bn: int, bd: int)
    ensures
        direct_add_ok::<T>(an, ad, bn, bd) <==> direct_add_ok::<T>(bn, bd, an, ad),
        frac_eq(an * bd + ad * bn, ad * bd, bn * ad + bd * an, bd * ad),
{
    assert(an * bd == bd * an && ad * bn == bn * ad && ad * bd == bd * ad) by (nonlinear_arith);
    assert((an * bd + ad * bn) * (bd * ad) == (ad * bd) * (bn * ad + bd * an))
        by (nonlinear_arith);
}

/// Multiplication is commutative: the direct formula stays in bounds
/// for one operand order exactly when it does for the other, and the
/// two direct results stand for the same rational.
pub proof fn lemma_mul_commutative<T: Meta>(an: int, ad: int, bn: int, bd: int)
    ensures
        direct_mul_ok::<T>(an, ad, bn, bd) <==> direct_mul_ok::<T>(bn, bd, an, ad),
        frac_eq(an * bn, ad * bd, bn * an, bd * ad),
{
    assert(an * bn == bn * an && ad * bd == bd * ad) by (nonlinear_arith);
    assert((an * bn) * (bd * ad) == (ad * bd) * (bn * an)) by (nonlinear_arith);
}

/// Addition is associative at the rational level: combining the direct
/// formulas left-to-right or right-to-left yields the same rational.
pub proof fn lemma_add_associative(an: int, ad: int, bn: int, bd: int, cn: int, cd: int)
    ensures
        frac_eq(
            (an * bd + ad * bn) * cd + (ad * bd) * cn,
            (ad * bd) * cd,
            an * (bd * cd) + ad * (bn * cd + bd * cn),
            ad * (bd * cd),
        ),
{
    let n_all = an * (bd * cd) + ad * (bn * cd) + ad * (bd * cn);
    let d_all = (ad * bd) * cd;
    assert((an * bd + ad * bn) * cd + (ad * bd) * cn == n_all) by (nonlinear_arith)
        requires
            n_all == an * (bd * cd) + ad * (bn * cd) + ad * (bd * cn),
    ;
    assert(an * (bd * cd) + ad * (bn * cd + bd * cn) == n_all) by (nonlinear_arith)
        requires
            n_all == an * (bd * cd) + ad * (bn * cd) + ad * (bd * cn),
    ;
    assert(ad * (bd * cd) == d_all) by (nonlinear_arith)
        requires
            d_all == (ad * bd) * cd,
    ;
    assert(n_all * d_all == d_all * n_all) by (nonlinear_arith);
}

/// Multiplication is associative at the rational level.
pub proof fn lemma_mul_associative(an: int, ad: int, bn: int, bd: int, cn: int, cd: int)
    ensures
        frac_eq((an * bn) * cn, (ad * bd) * cd, an * (bn * cn), ad * (bd * cd)),
{
    assert(((an * bn) * cn) * (ad * (bd * cd)) == ((ad * bd) * cd) * (an * (bn * cn)))
        by (nonlinear_arith);
}

/// Semantic equality of fractions is reflexive.
pub proof fn lemma_frac_eq_refl(n: int, d: int)
    ensures
        frac_eq(n, d, n, d),
{
    assert(n * d == d * n) by (nonlinear_arith);
}

/// Semantic equality of fractions is symmetric.
pub proof fn lemma_frac_eq_sym(n1: int, d1: int, n2: int, d2: int)
    requires
        frac_eq(n1, d1, n2, d2),
    ensures
        frac_eq(n2, d2, n1, d1),
{
    assert(n2 * d1 == d2 * n1) by (nonlinear_arith)
        requires
            n1 * d2 == d1 * n2,
    ;
}

/// Semantic equality of fractions is transitive across nonzero
/// denominators, whatever the reduction state of each value.
pub proof fn lemma_frac_eq_trans(n1: int, d1: int, n2: int, d2: int, n3: int, d3: int)
    requires
        d2 != 0,
        frac_eq(n1, d1, n2, d2),
        frac_eq(n2, d2, n3, d3),
    ensures
        frac_eq(n1, d1, n3, d3),
{
    assert((n1 * d3) * d2 == (d1 * n3) * d2) by (nonlinear_arith)
        requires
            n1 * d2 == d1 * n2,
            n2 * d3 == d2 * n3,
    ;
    assert(n1 * d3 == d1 * n3) by (nonlinear_arith)
        requires
            (n1 * d3) * d2 == (d1 * n3) * d2,
            d2 != 0,
    ;
}

/// Whatever retry stage produced them, two present results of adding
/// the same two fractions in either order stand for the same rational.
pub proof fn lemma_add_result_commutes(
    an: int, ad: int, bn: int, bd: int,
    n1: int, d1: int, n2: int, d2: int,
)
    requires
        ad != 0,
        bd != 0,
        frac_eq(n1, d1, an * bd + ad * bn, ad * bd),
        frac_eq(n2, d2, bn * ad + bd * an, bd * ad),
    ensures
        frac_eq(n1, d1, n2, d2),
{
    assert(ad * bd != 0 && bd * ad != 0) by (nonlinear_arith)
        requires
            ad != 0,
            bd != 0,
    ;
    lemma_add_commutative::<i64>(an, ad, bn, bd);
    lemma_frac_eq_sym(n2, d2, bn * ad + bd * an, bd * ad);
    lemma_frac_eq_trans(n1, d1, an * bd + ad * bn, ad * bd, bn * ad + bd * an, bd * ad);
    lemma_frac_eq_trans(n1, d1, bn * ad + bd * an, bd * ad, n2, d2);
}

/// Whatever retry stage produced them, two present results of
/// multiplying the same two fractions in either order stand for the
/// same rational.
pub proof fn lemma_mul_result_commutes(
    an: int, ad: int, bn: int, bd: int,
    n1: int, d1: int, n2: int, d2: int,
)
    requires
        ad != 0,
        bd != 0,
        frac_eq(n1, d1, an * bn, ad * bd),
        frac_eq(n2, d2, bn * an, bd * ad),
    ensures
        frac_eq(n1, d1, n2, d2),
{
    assert(ad * bd != 0 && bd * ad != 0) by (nonlinear_arith)
        requires
            ad != 0,
            bd != 0,
    ;
    lemma_mul_commutative::<i64>(an, ad, bn, bd);
    lemma_frac_eq_sym(n2, d2, bn * an, bd * ad);
    lemma_frac_eq_trans(n1, d1, an * bn, ad * bd, bn * an, bd * ad);
    lemma_frac_eq_trans(n1, d1, bn * an, bd * ad, n2, d2);
}

/// Reducing an already-reduced pair leaves numerator and denominator
/// unchanged.
pub proof fn lemma_reduce_idempotent<T: Meta>(n: int, d: int)
    requires
        d != 0,
        gcd_int(n, d) == 1,
    ensures
        s_num::<T>(n, d) == n,
        s_den::<T>(n, d) == d,
{
    if gcd_ok::<T>(n, d) {
        lemma_fundamental_div_mod_converse(n, 1, n, 0);
        lemma_fundamental_div_mod_converse(d, 1, d, 0);
    }
}

/// One simplification pass yields a coprime pair, and a second pass is
/// therefore a no-op.
pub proof fn lemma_simplify_idempotent<T: Meta>(n: int, d: int)
    requires
        d != 0,
        gcd_ok::<T>(n, d),
    ensures
        gcd_int(s_num::<T>(n, d), s_den::<T>(n, d)) == 1,
        s_num::<T>(s_num::<T>(n, d), s_den::<T>(n, d)) == s_num::<T>(n, d),
        s_den::<T>(s_num::<T>(n, d), s_den::<T>(n, d)) == s_den::<T>(n, d),
{
    let g = gcd_int(n, d);
    lemma_gcd_int_divides(n, d);
    lemma_divides_iff_mod(g, n);
    lemma_divides_iff_mod(g, d);
    lemma_exact_quotient_bounds(n, g);
    lemma_exact_quotient_bounds(d, g);
    lemma_reduced_coprime(n, d, g, n / g, d / g);
    lemma_reduce_idempotent::<T>(s_num::<T>(n, d), s_den::<T>(n, d));
}

} // verus!
