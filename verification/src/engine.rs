//! The overflow-recovering operation engine.
//!
//! Every binary operation first attempts the direct cross-multiplication
//! formula; when a checked sub-operation reports overflow, both operands
//! are reduced by their own gcd and the operation is re-attempted with
//! pre-cancelled cross-factors; only when the fully reduced operation is
//! still unrepresentable does the engine report an absent result.
//!
//! The spec functions in this module pin down, for each operation,
//! exactly which results are produced on the direct path and on the
//! recovery path, and exactly when the recovery path fails.

use vstd::prelude::*;

verus! {

use crate::arith::{
    gcd_int, gcd_nat, lemma_divides_iff_mod, lemma_exact_quotient_bounds, lemma_gcd_int_divides,
    lemma_gcd_reduced,
};
use crate::tech::{gcd_ok, CheckAddGroup, CheckGcd, CheckIntegralDomain, CheckRing, Meta};
use vstd::math::abs;

/// Two numerator/denominator pairs stand for the same rational number.
pub open spec fn frac_eq(n1: int, d1: int, n2: int, d2: int) -> bool {
    n1 * d2 == d1 * n2
}

/// `n1 / d1` is `n / d` scaled down by a positive factor.
pub open spec fn pos_scaled(n1: int, d1: int, n: int, d: int) -> bool {
    exists|g: int| g >= 1 && n == #[trigger] (g * n1) && d == g * d1
}

/// Numerator of `n / d` after attempted self-simplification: reduced by
/// the gcd when the gcd computation succeeds, unchanged otherwise.
pub open spec fn s_num<T: Meta>(n: int, d: int) -> int {
    if gcd_ok::<T>(n, d) {
        n / gcd_int(n, d)
    } else {
        n
    }
}

/// Denominator of `n / d` after attempted self-simplification.
pub open spec fn s_den<T: Meta>(n: int, d: int) -> int {
    if gcd_ok::<T>(n, d) {
        d / gcd_int(n, d)
    } else {
        d
    }
}

/// The direct multiplication formula stays in bounds.
pub open spec fn direct_mul_ok<T: Meta>(an: int, ad: int, bn: int, bd: int) -> bool {
    &&& T::in_bounds(an * bn)
    &&& T::in_bounds(ad * bd)
}

/// The cross-cancelled multiplication retry succeeds: both operands are
/// self-simplified, the two cross gcds can be computed, and the final
/// products of the cancelled factors stay in bounds.
pub open spec fn cross_mul_ok<T: Meta>(an: int, ad: int, bn: int, bd: int) -> bool {
    let an1 = s_num::<T>(an, ad);
    let ad1 = s_den::<T>(an, ad);
    let bn1 = s_num::<T>(bn, bd);
    let bd1 = s_den::<T>(bn, bd);
    &&& gcd_ok::<T>(an1, bd1)
    &&& gcd_ok::<T>(ad1, bn1)
    &&& T::in_bounds((an1 / gcd_int(an1, bd1)) * (bn1 / gcd_int(ad1, bn1)))
    &&& T::in_bounds((ad1 / gcd_int(ad1, bn1)) * (bd1 / gcd_int(an1, bd1)))
}

/// Numerator produced by the cross-cancelled multiplication retry.
pub open spec fn cross_mul_num<T: Meta>(an: int, ad: int, bn: int, bd: int) -> int {
    let an1 = s_num::<T>(an, ad);
    let ad1 = s_den::<T>(an, ad);
    let bn1 = s_num::<T>(bn, bd);
    let bd1 = s_den::<T>(bn, bd);
    (an1 / gcd_int(an1, bd1)) * (bn1 / gcd_int(ad1, bn1))
}

/// Denominator produced by the cross-cancelled multiplication retry.
pub open spec fn cross_mul_den<T: Meta>(an: int, ad: int, bn: int, bd: int) -> int {
    let an1 = s_num::<T>(an, ad);
    let ad1 = s_den::<T>(an, ad);
    let bn1 = s_num::<T>(bn, bd);
    let bd1 = s_den::<T>(bn, bd);
    (ad1 / gcd_int(ad1, bn1)) * (bd1 / gcd_int(an1, bd1))
}

/// The direct addition formula stays in bounds.
pub open spec fn direct_add_ok<T: Meta>(an: int, ad: int, bn: int, bd: int) -> bool {
    &&& T::in_bounds(ad * bd)
    &&& T::in_bounds(an * bd)
    &&& T::in_bounds(ad * bn)
    &&& T::in_bounds(an * bd + ad * bn)
}

/// The direct subtraction formula stays in bounds.
pub open spec fn direct_sub_ok<T: Meta>(an: int, ad: int, bn: int, bd: int) -> bool {
    &&& T::in_bounds(ad * bd)
    &&& T::in_bounds(an * bd)
    &&& T::in_bounds(ad * bn)
    &&& T::in_bounds(an * bd - ad * bn)
}

/// Both cross-products of the two fractions stay in bounds; this is the
/// direct path of division, equality and ordering.
pub open spec fn direct_cross_ok<T: Meta>(an: int, ad: int, bn: int, bd: int) -> bool {
    &&& T::in_bounds(an * bd)
    &&& T::in_bounds(ad * bn)
}

/// The least-common-denominator retry of addition and subtraction can
/// compute the scaled denominator and both scaled numerator parts.
pub open spec fn lcd_parts_ok<T: Meta>(an: int, ad: int, bn: int, bd: int) -> bool {
    let an1 = s_num::<T>(an, ad);
    let ad1 = s_den::<T>(an, ad);
    let bn1 = s_num::<T>(bn, bd);
    let bd1 = s_den::<T>(bn, bd);
    &&& gcd_ok::<T>(ad1, bd1)
    &&& T::in_bounds(ad1 * (bd1 / gcd_int(ad1, bd1)))
    &&& T::in_bounds(an1 * (bd1 / gcd_int(ad1, bd1)))
    &&& T::in_bounds((ad1 / gcd_int(ad1, bd1)) * bn1)
}

/// The common denominator of the retry: the least common multiple of the
/// two self-simplified denominators.
pub open spec fn lcd_den<T: Meta>(an: int, ad: int, bn: int, bd: int) -> int {
    let ad1 = s_den::<T>(an, ad);
    let bd1 = s_den::<T>(bn, bd);
    ad1 * (bd1 / gcd_int(ad1, bd1))
}

/// The first numerator part of the retry: the left numerator scaled to
/// the common denominator.
pub open spec fn lcd_part1<T: Meta>(an: int, ad: int, bn: int, bd: int) -> int {
    let an1 = s_num::<T>(an, ad);
    let ad1 = s_den::<T>(an, ad);
    let bd1 = s_den::<T>(bn, bd);
    an1 * (bd1 / gcd_int(ad1, bd1))
}

/// The second numerator part of the retry: the right numerator scaled to
/// the common denominator.
pub open spec fn lcd_part2<T: Meta>(an: int, ad: int, bn: int, bd: int) -> int {
    let ad1 = s_den::<T>(an, ad);
    let bn1 = s_num::<T>(bn, bd);
    let bd1 = s_den::<T>(bn, bd);
    (ad1 / gcd_int(ad1, bd1)) * bn1
}

/// The least-common-denominator retry of addition succeeds.
pub open spec fn lcd_add_ok<T: Meta>(an: int, ad: int, bn: int, bd: int) -> bool {
    &&& lcd_parts_ok::<T>(an, ad, bn, bd)
    &&& T::in_bounds(lcd_part1::<T>(an, ad, bn, bd) + lcd_part2::<T>(an, ad, bn, bd))
}

/// The least-common-denominator retry of subtraction succeeds.
pub open spec fn lcd_sub_ok<T: Meta>(an: int, ad: int, bn: int, bd: int) -> bool {
    &&& lcd_parts_ok::<T>(an, ad, bn, bd)
    &&& T::in_bounds(lcd_part1::<T>(an, ad, bn, bd) - lcd_part2::<T>(an, ad, bn, bd))
}

/// The reduced comparison retry of equality and ordering succeeds: both
/// operands are self-simplified and each numerator can be scaled by the
/// other denominator's share of the least common multiple.
pub open spec fn red_cmp_ok<T: Meta>(an: int, ad: int, bn: int, bd: int) -> bool {
    let an1 = s_num::<T>(an, ad);
    let ad1 = s_den::<T>(an, ad);
    let bn1 = s_num::<T>(bn, bd);
    let bd1 = s_den::<T>(bn, bd);
    &&& gcd_ok::<T>(ad1, bd1)
    &&& T::in_bounds(an1 * (bd1 / gcd_int(ad1, bd1)))
    &&& T::in_bounds(bn1 * (ad1 / gcd_int(ad1, bd1)))
}

/// The direct division formula stays in bounds.
pub open spec fn direct_div_ok<T: Meta>(an: int, ad: int, bn: int, bd: int) -> bool {
    direct_mul_ok::<T>(an, ad, bd, bn)
}

/// The cross-cancelled division retry succeeds.
pub open spec fn cross_div_ok<T: Meta>(an: int, ad: int, bn: int, bd: int) -> bool {
    cross_mul_ok::<T>(an, ad, bd, bn)
}

/// Numerator produced by the cross-cancelled division retry.
pub open spec fn cross_div_num<T: Meta>(an: int, ad: int, bn: int, bd: int) -> int {
    cross_mul_num::<T>(an, ad, bd, bn)
}

/// Denominator produced by the cross-cancelled division retry.
pub open spec fn cross_div_den<T: Meta>(an: int, ad: int, bn: int, bd: int) -> int {
    cross_mul_den::<T>(an, ad, bd, bn)
}

/// Self-simplify a numerator/denominator pair: divide both by their gcd
/// when the gcd computation succeeds, return the pair unchanged when it
/// does not. The represented rational never changes.
pub fn simplify_pair<T: CheckIntegralDomain + CheckGcd>(n: &T, d: &T) -> (r: (T, T))
    requires
        d.v() != 0,
    ensures
        r.0.v() == s_num::<T>(n.v(), d.v()),
        r.1.v() == s_den::<T>(n.v(), d.v()),
        r.1.v() != 0,
        pos_scaled(r.0.v(), r.1.v(), n.v(), d.v()),
        frac_eq(r.0.v(), r.1.v(), n.v(), d.v()),
        gcd_ok::<T>(n.v(), d.v()) ==> gcd_int(r.0.v(), r.1.v()) == 1,
{
    match CheckGcd::gcd(n, d) {
        Some(g) => {
            proof {
                lemma_gcd_int_divides(n.v(), d.v());
                lemma_divides_iff_mod(g.v(), n.v());
                lemma_divides_iff_mod(g.v(), d.v());
                lemma_exact_quotient_bounds(n.v(), g.v());
                lemma_exact_quotient_bounds(d.v(), g.v());
                T::bounds_properties();
                n.val_in_bounds();
                d.val_in_bounds();
            }
            let nn = CheckIntegralDomain::div(n, &g).unwrap();
            let dd = CheckIntegralDomain::div(d, &g).unwrap();
            proof {
                assert(n.v() == g.v() * nn.v() && d.v() == g.v() * dd.v());
                assert(nn.v() * d.v() == n.v() * dd.v()) by (nonlinear_arith)
                    requires
                        n.v() == g.v() * nn.v(),
                        d.v() == g.v() * dd.v(),
                ;
                lemma_reduced_coprime(n.v(), d.v(), g.v(), nn.v(), dd.v());
            }
            (nn, dd)
        },
        None => {
            proof {
                assert(n.v() == 1 * n.v() && d.v() == 1 * d.v());
            }
            (*n, *d)
        },
    }
}

/// After dividing a pair by its gcd, the quotients are coprime.
pub proof fn lemma_reduced_coprime(n: int, d: int, g: int, nn: int, dd: int)
    requires
        d != 0,
        g == gcd_int(n, d),
        g >= 1,
        nn == n / g,
        dd == d / g,
    ensures
        gcd_int(nn, dd) == 1,
{
    lemma_gcd_int_divides(n, d);
    crate::arith::lemma_abs_exact_div(n, g);
    crate::arith::lemma_abs_exact_div(d, g);
    let na = abs(n) as nat;
    let da = abs(d) as nat;
    lemma_gcd_reduced(na, da);
    assert(gcd_int(n, d) == gcd_nat(na, da) as int);
    assert(abs(nn) as int == (na as int) / g);
    assert(abs(dd) as int == (da as int) / g);
}

/// Staged multiplication: the direct formula first, then cancellation of
/// the cross gcds between one operand's numerator and the other's
/// denominator.
pub fn frac_mul<T: CheckIntegralDomain + CheckGcd>(an: &T, ad: &T, bn: &T, bd: &T) -> (r: Option<
    (T, T),
>)
    requires
        ad.v() != 0,
        bd.v() != 0,
    ensures
        match r {
            Some(p) => {
                &&& p.1.v() != 0
                &&& frac_eq(p.0.v(), p.1.v(), an.v() * bn.v(), ad.v() * bd.v())
                &&& if direct_mul_ok::<T>(an.v(), ad.v(), bn.v(), bd.v()) {
                    p.0.v() == an.v() * bn.v() && p.1.v() == ad.v() * bd.v()
                } else {
                    &&& cross_mul_ok::<T>(an.v(), ad.v(), bn.v(), bd.v())
                    &&& p.0.v() == cross_mul_num::<T>(an.v(), ad.v(), bn.v(), bd.v())
                    &&& p.1.v() == cross_mul_den::<T>(an.v(), ad.v(), bn.v(), bd.v())
                }
            },
            None => {
                &&& !direct_mul_ok::<T>(an.v(), ad.v(), bn.v(), bd.v())
                &&& !cross_mul_ok::<T>(an.v(), ad.v(), bn.v(), bd.v())
            },
        },
{
    let n0 = CheckRing::mul(an, bn);
    let d0 = CheckRing::mul(ad, bd);
    if let (Some(n), Some(d)) = (n0, d0) {
        proof {
            assert(d.v() != 0) by (nonlinear_arith)
                requires
                    d.v() == ad.v() * bd.v(),
                    ad.v() != 0,
                    bd.v() != 0,
            ;
            assert(n.v() * (ad.v() * bd.v()) == d.v() * (an.v() * bn.v())) by (nonlinear_arith)
                requires
                    n.v() == an.v() * bn.v(),
                    d.v() == ad.v() * bd.v(),
            ;
        }
        return Some((n, d));
    }
    let (an1, ad1) = simplify_pair(an, ad);
    let (bn1, bd1) = simplify_pair(bn, bd);
    let c1 = match CheckGcd::gcd(&an1, &bd1) {
        Some(g) => g,
        None => {
            return None;
        },
    };
    let c2 = match CheckGcd::gcd(&ad1, &bn1) {
        Some(g) => g,
        None => {
            return None;
        },
    };
    proof {
        lemma_gcd_int_divides(an1.v(), bd1.v());
        lemma_gcd_int_divides(ad1.v(), bn1.v());
        lemma_divides_iff_mod(c1.v(), an1.v());
        lemma_divides_iff_mod(c1.v(), bd1.v());
        lemma_divides_iff_mod(c2.v(), ad1.v());
        lemma_divides_iff_mod(c2.v(), bn1.v());
        lemma_exact_quotient_bounds(an1.v(), c1.v());
        lemma_exact_quotient_bounds(bd1.v(), c1.v());
        lemma_exact_quotient_bounds(ad1.v(), c2.v());
        lemma_exact_quotient_bounds(bn1.v(), c2.v());
        T::bounds_properties();
        an1.val_in_bounds();
        ad1.val_in_bounds();
        bn1.val_in_bounds();
        bd1.val_in_bounds();
    }
    let an2 = CheckIntegralDomain::div(&an1, &c1).unwrap();
    let bd2 = CheckIntegralDomain::div(&bd1, &c1).unwrap();
    let ad2 = CheckIntegralDomain::div(&ad1, &c2).unwrap();
    let bn2 = CheckIntegralDomain::div(&bn1, &c2).unwrap();
    let n = match CheckRing::mul(&an2, &bn2) {
        Some(n) => n,
        None => {
            return None;
        },
    };
    let d = match CheckRing::mul(&ad2, &bd2) {
        Some(d) => d,
        None => {
            return None;
        },
    };
    proof {
        assert(d.v() != 0) by (nonlinear_arith)
            requires
                d.v() == ad2.v() * bd2.v(),
                ad2.v() != 0,
                bd2.v() != 0,
        ;
        lemma_cross_mul_value(
            an.v(), ad.v(), bn.v(), bd.v(),
            an1.v(), ad1.v(), bn1.v(), bd1.v(),
            c1.v(), c2.v(),
            an2.v(), ad2.v(), bn2.v(), bd2.v(),
        );
    }
    Some((n, d))
}

/// The cross-cancelled product stands for the same rational as the
/// direct product.
proof fn lemma_cross_mul_value(
    an: int, ad: int, bn: int, bd: int,
    an1: int, ad1: int, bn1: int, bd1: int,
    c1: int, c2: int,
    an2: int, ad2: int, bn2: int, bd2: int,
)
    requires
        pos_scaled(an1, ad1, an, ad),
        pos_scaled(bn1, bd1, bn, bd),
        c1 >= 1,
        c2 >= 1,
        an1 == c1 * an2,
        bd1 == c1 * bd2,
        ad1 == c2 * ad2,
        bn1 == c2 * bn2,
    ensures
        (an2 * bn2) * (ad * bd) == (ad2 * bd2) * (an * bn),
{
    let ga = choose|g: int| g >= 1 && an == #[trigger] (g * an1) && ad == g * ad1;
    let gb = choose|g: int| g >= 1 && bn == #[trigger] (g * bn1) && bd == g * bd1;
    let k = ga * gb * c1 * c2;
    assert(ad * bd == (ga * gb) * (ad1 * bd1)) by (nonlinear_arith)
        requires
            ad == ga * ad1,
            bd == gb * bd1,
    ;
    assert(ad1 * bd1 == (c1 * c2) * (ad2 * bd2)) by (nonlinear_arith)
        requires
            ad1 == c2 * ad2,
            bd1 == c1 * bd2,
    ;
    assert((an2 * bn2) * (ad * bd) == k * (an2 * bn2 * ad2 * bd2)) by (nonlinear_arith)
        requires
            ad * bd == (ga * gb) * (ad1 * bd1),
            ad1 * bd1 == (c1 * c2) * (ad2 * bd2),
            k == ga * gb * c1 * c2,
    ;
    assert(an * bn == (ga * gb) * (an1 * bn1)) by (nonlinear_arith)
        requires
            an == ga * an1,
            bn == gb * bn1,
    ;
    assert(an1 * bn1 == (c1 * c2) * (an2 * bn2)) by (nonlinear_arith)
        requires
            an1 == c1 * an2,
            bn1 == c2 * bn2,
    ;
    assert((ad2 * bd2) * (an * bn) == k * (an2 * bn2 * ad2 * bd2)) by (nonlinear_arith)
        requires
            an * bn == (ga * gb) * (an1 * bn1),
            an1 * bn1 == (c1 * c2) * (an2 * bn2),
            k == ga * gb * c1 * c2,
    ;
}

/// Staged division: the direct swapped cross-multiplication first, then
/// cancellation of the gcds of the two numerators and of the two
/// denominators. The divisor must not stand for zero.
pub fn frac_div<T: CheckIntegralDomain + CheckGcd>(an: &T, ad: &T, bn: &T, bd: &T) -> (r: Option<
    (T, T),
>)
    requires
        ad.v() != 0,
        bd.v() != 0,
        bn.v() != 0,
    ensures
        match r {
            Some(p) => {
                &&& p.1.v() != 0
                &&& frac_eq(p.0.v(), p.1.v(), an.v() * bd.v(), ad.v() * bn.v())
                &&& if direct_div_ok::<T>(an.v(), ad.v(), bn.v(), bd.v()) {
                    p.0.v() == an.v() * bd.v() && p.1.v() == ad.v() * bn.v()
                } else {
                    &&& cross_div_ok::<T>(an.v(), ad.v(), bn.v(), bd.v())
                    &&& p.0.v() == cross_div_num::<T>(an.v(), ad.v(), bn.v(), bd.v())
                    &&& p.1.v() == cross_div_den::<T>(an.v(), ad.v(), bn.v(), bd.v())
                }
            },
            None => {
                &&& !direct_div_ok::<T>(an.v(), ad.v(), bn.v(), bd.v())
                &&& !cross_div_ok::<T>(an.v(), ad.v(), bn.v(), bd.v())
            },
        },
{
    frac_mul(an, ad, bd, bn)
}

/// Compute the parts of the least-common-denominator retry: both
/// operands self-simplified, the denominator gcd cancelled, and the
/// numerators scaled to the common denominator.
fn lcd_parts<T: CheckIntegralDomain + CheckGcd>(an: &T, ad: &T, bn: &T, bd: &T) -> (r: Option<
    (T, T, T),
>)
    requires
        ad.v() != 0,
        bd.v() != 0,
    ensures
        match r {
            Some(t) => {
                &&& lcd_parts_ok::<T>(an.v(), ad.v(), bn.v(), bd.v())
                &&& t.0.v() == lcd_part1::<T>(an.v(), ad.v(), bn.v(), bd.v())
                &&& t.1.v() == lcd_part2::<T>(an.v(), ad.v(), bn.v(), bd.v())
                &&& t.2.v() == lcd_den::<T>(an.v(), ad.v(), bn.v(), bd.v())
                &&& t.2.v() != 0
                &&& t.0.v() * (ad.v() * bd.v()) == t.2.v() * (an.v() * bd.v())
                &&& t.1.v() * (ad.v() * bd.v()) == t.2.v() * (ad.v() * bn.v())
            },
            None => !lcd_parts_ok::<T>(an.v(), ad.v(), bn.v(), bd.v()),
        },
{
    let (an1, ad1) = simplify_pair(an, ad);
    let (bn1, bd1) = simplify_pair(bn, bd);
    let g = match CheckGcd::gcd(&ad1, &bd1) {
        Some(g) => g,
        None => {
            return None;
        },
    };
    proof {
        lemma_gcd_int_divides(ad1.v(), bd1.v());
        lemma_divides_iff_mod(g.v(), ad1.v());
        lemma_divides_iff_mod(g.v(), bd1.v());
        lemma_exact_quotient_bounds(ad1.v(), g.v());
        lemma_exact_quotient_bounds(bd1.v(), g.v());
        T::bounds_properties();
        ad1.val_in_bounds();
        bd1.val_in_bounds();
    }
    let m1 = CheckIntegralDomain::div(&bd1, &g).unwrap();
    let m2 = CheckIntegralDomain::div(&ad1, &g).unwrap();
    let d = match CheckRing::mul(&ad1, &m1) {
        Some(d) => d,
        None => {
            return None;
        },
    };
    let p1 = match CheckRing::mul(&an1, &m1) {
        Some(x) => x,
        None => {
            return None;
        },
    };
    let p2 = match CheckRing::mul(&m2, &bn1) {
        Some(y) => y,
        None => {
            return None;
        },
    };
    proof {
        assert(d.v() != 0) by (nonlinear_arith)
            requires
                d.v() == ad1.v() * m1.v(),
                ad1.v() != 0,
                m1.v() != 0,
        ;
        lemma_lcd_terms(
            an.v(), ad.v(), bn.v(), bd.v(),
            an1.v(), ad1.v(), bn1.v(), bd1.v(),
            g.v(), m1.v(), m2.v(),
        );
    }
    Some((p1, p2, d))
}

/// The scaled numerator parts of the retry stand for the two direct
/// cross-products, each multiplied by the same denominators.
proof fn lemma_lcd_terms(
    an: int, ad: int, bn: int, bd: int,
    an1: int, ad1: int, bn1: int, bd1: int,
    g: int, m1: int, m2: int,
)
    requires
        pos_scaled(an1, ad1, an, ad),
        pos_scaled(bn1, bd1, bn, bd),
        bd1 == g * m1,
        ad1 == g * m2,
    ensures
        (an1 * m1) * (ad * bd) == (ad1 * m1) * (an * bd),
        (m2 * bn1) * (ad * bd) == (ad1 * m1) * (ad * bn),
{
    let ga = choose|h: int| h >= 1 && an == #[trigger] (h * an1) && ad == h * ad1;
    let gb = choose|h: int| h >= 1 && bn == #[trigger] (h * bn1) && bd == h * bd1;
    assert((an1 * m1) * (ad * bd) == (ad1 * m1) * (an * bd)) by (nonlinear_arith)
        requires
            an == ga * an1,
            ad == ga * ad1,
    ;
    assert((m2 * bn1) * (ad * bd) == (ad1 * m1) * (ad * bn)) by (nonlinear_arith)
        requires
            bd == gb * bd1,
            bd1 == g * m1,
            bn == gb * bn1,
            ad1 == g * m2,
    ;
}

/// Staged addition: the direct common-denominator formula first, then
/// the least-common-denominator retry on the self-simplified operands.
pub fn frac_add<T: CheckIntegralDomain + CheckGcd>(an: &T, ad: &T, bn: &T, bd: &T) -> (r: Option<
    (T, T),
>)
    requires
        ad.v() != 0,
        bd.v() != 0,
    ensures
        match r {
            Some(p) => {
                &&& p.1.v() != 0
                &&& frac_eq(p.0.v(), p.1.v(), an.v() * bd.v() + ad.v() * bn.v(), ad.v() * bd.v())
                &&& if direct_add_ok::<T>(an.v(), ad.v(), bn.v(), bd.v()) {
                    p.0.v() == an.v() * bd.v() + ad.v() * bn.v() && p.1.v() == ad.v() * bd.v()
                } else {
                    &&& lcd_add_ok::<T>(an.v(), ad.v(), bn.v(), bd.v())
                    &&& p.0.v() == lcd_part1::<T>(an.v(), ad.v(), bn.v(), bd.v()) + lcd_part2::<
                        T,
                    >(an.v(), ad.v(), bn.v(), bd.v())
                    &&& p.1.v() == lcd_den::<T>(an.v(), ad.v(), bn.v(), bd.v())
                }
            },
            None => {
                &&& !direct_add_ok::<T>(an.v(), ad.v(), bn.v(), bd.v())
                &&& !lcd_add_ok::<T>(an.v(), ad.v(), bn.v(), bd.v())
            },
        },
{
    if let Some(d) = CheckRing::mul(ad, bd) {
        if let Some(x) = CheckRing::mul(an, bd) {
            if let Some(y) = CheckRing::mul(ad, bn) {
                if let Some(n) = CheckAddGroup::add(&x, &y) {
                    proof {
                        assert(d.v() != 0) by (nonlinear_arith)
                            requires
                                d.v() == ad.v() * bd.v(),
                                ad.v() != 0,
                                bd.v() != 0,
                        ;
                    }
                    return Some((n, d));
                }
            }
        }
    }
    match lcd_parts(an, ad, bn, bd) {
        Some((p1, p2, d)) => {
            match CheckAddGroup::add(&p1, &p2) {
                Some(n) => {
                    proof {
                        assert(n.v() * (ad.v() * bd.v()) == d.v() * (an.v() * bd.v() + ad.v()
                            * bn.v())) by (nonlinear_arith)
                            requires
                                n.v() == p1.v() + p2.v(),
                                p1.v() * (ad.v() * bd.v()) == d.v() * (an.v() * bd.v()),
                                p2.v() * (ad.v() * bd.v()) == d.v() * (ad.v() * bn.v()),
                        ;
                    }
                    Some((n, d))
                },
                None => None,
            }
        },
        None => None,
    }
}

/// Staged subtraction: the direct common-denominator formula first, then
/// the least-common-denominator retry on the self-simplified operands.
pub fn frac_sub<T: CheckIntegralDomain + CheckGcd>(an: &T, ad: &T, bn: &T, bd: &T) -> (r: Option<
    (T, T),
>)
    requires
        ad.v() != 0,
        bd.v() != 0,
    ensures
        match r {
            Some(p) => {
                &&& p.1.v() != 0
                &&& frac_eq(p.0.v(), p.1.v(), an.v() * bd.v() - ad.v() * bn.v(), ad.v() * bd.v())
                &&& if direct_sub_ok::<T>(an.v(), ad.v(), bn.v(), bd.v()) {
                    p.0.v() == an.v() * bd.v() - ad.v() * bn.v() && p.1.v() == ad.v() * bd.v()
                } else {
                    &&& lcd_sub_ok::<T>(an.v(), ad.v(), bn.v(), bd.v())
                    &&& p.0.v() == lcd_part1::<T>(an.v(), ad.v(), bn.v(), bd.v()) - lcd_part2::<
                        T,
                    >(an.v(), ad.v(), bn.v(), bd.v())
                    &&& p.1.v() == lcd_den::<T>(an.v(), ad.v(), bn.v(), bd.v())
                }
            },
            None => {
                &&& !direct_sub_ok::<T>(an.v(), ad.v(), bn.v(), bd.v())
                &&& !lcd_sub_ok::<T>(an.v(), ad.v(), bn.v(), bd.v())
            },
        },
{
    if let Some(d) = CheckRing::mul(ad, bd) {
        if let Some(x) = CheckRing::mul(an, bd) {
            if let Some(y) = CheckRing::mul(ad, bn) {
                if let Some(n) = CheckAddGroup::sub(&x, &y) {
                    proof {
                        assert(d.v() != 0) by (nonlinear_arith)
                            requires
                                d.v() == ad.v() * bd.v(),
                                ad.v() != 0,
                                bd.v() != 0,
                        ;
                    }
                    return Some((n, d));
                }
            }
        }
    }
    match lcd_parts(an, ad, bn, bd) {
        Some((p1, p2, d)) => {
            match CheckAddGroup::sub(&p1, &p2) {
                Some(n) => {
                    proof {
                        assert(n.v() * (ad.v() * bd.v()) == d.v() * (an.v() * bd.v() - ad.v()
                            * bn.v())) by (nonlinear_arith)
                            requires
                                n.v() == p1.v() - p2.v(),
                                p1.v() * (ad.v() * bd.v()) == d.v() * (an.v() * bd.v()),
                                p2.v() * (ad.v() * bd.v()) == d.v() * (ad.v() * bn.v()),
                        ;
                    }
                    Some((n, d))
                },
                None => None,
            }
        },
        None => None,
    }
}

/// The reduced comparison retry compares the same integers as the direct
/// cross-multiplication, scaled by a positive factor.
proof fn lemma_cmp_equiv(
    an: int, ad: int, bn: int, bd: int,
    an1: int, ad1: int, bn1: int, bd1: int,
    g: int, m1: int, m2: int,
)
    requires
        pos_scaled(an1, ad1, an, ad),
        pos_scaled(bn1, bd1, bn, bd),
        bd1 == g * m1,
        ad1 == g * m2,
        g >= 1,
    ensures
        (an1 * m1 == bn1 * m2) <==> (an * bd == ad * bn),
        (an1 * m1 <= bn1 * m2) <==> (an * bd <= ad * bn),
{
    let ga = choose|h: int| h >= 1 && an == #[trigger] (h * an1) && ad == h * ad1;
    let gb = choose|h: int| h >= 1 && bn == #[trigger] (h * bn1) && bd == h * bd1;
    let k = ga * gb * g;
    assert(an * bd == k * (an1 * m1)) by (nonlinear_arith)
        requires
            an == ga * an1,
            bd == gb * bd1,
            bd1 == g * m1,
            k == ga * gb * g,
    ;
    assert(ad * bn == k * (bn1 * m2)) by (nonlinear_arith)
        requires
            ad == ga * ad1,
            ad1 == g * m2,
            bn == gb * bn1,
            k == ga * gb * g,
    ;
    assert(k >= 1) by (nonlinear_arith)
        requires
            ga >= 1,
            gb >= 1,
            g >= 1,
            k == ga * gb * g,
    ;
    assert((k * (an1 * m1) == k * (bn1 * m2)) <==> (an1 * m1 == bn1 * m2)) by (nonlinear_arith)
        requires
            k >= 1,
    ;
    assert((k * (an1 * m1) <= k * (bn1 * m2)) <==> (an1 * m1 <= bn1 * m2)) by (nonlinear_arith)
        requires
            k >= 1,
    ;
}

/// Staged equality: compare the direct cross-products; when one of them
/// overflows, self-simplify both operands and compare the numerators
/// scaled to the least common denominator.
pub fn frac_equal<T: CheckIntegralDomain + CheckGcd>(an: &T, ad: &T, bn: &T, bd: &T) -> (r: Option<
    bool,
>)
    requires
        ad.v() != 0,
        bd.v() != 0,
    ensures
        match r {
            Some(b) => {
                &&& direct_cross_ok::<T>(an.v(), ad.v(), bn.v(), bd.v()) || red_cmp_ok::<T>(
                    an.v(), ad.v(), bn.v(), bd.v(),
                )
                &&& b <==> an.v() * bd.v() == ad.v() * bn.v()
            },
            None => {
                &&& !direct_cross_ok::<T>(an.v(), ad.v(), bn.v(), bd.v())
                &&& !red_cmp_ok::<T>(an.v(), ad.v(), bn.v(), bd.v())
            },
        },
{
    let l0 = CheckRing::mul(an, bd);
    let r0 = CheckRing::mul(ad, bn);
    if let (Some(l), Some(rr)) = (l0, r0) {
        return Some(l.le(&rr) && rr.le(&l));
    }
    match red_cross(an, ad, bn, bd) {
        Some((l, rr)) => Some(l.le(&rr) && rr.le(&l)),
        None => None,
    }
}

/// Staged ordering: the same staging as equality, deciding less-equal.
pub fn frac_le<T: CheckIntegralDomain + CheckGcd>(an: &T, ad: &T, bn: &T, bd: &T) -> (r: Option<
    bool,
>)
    requires
        ad.v() != 0,
        bd.v() != 0,
    ensures
        match r {
            Some(b) => {
                &&& direct_cross_ok::<T>(an.v(), ad.v(), bn.v(), bd.v()) || red_cmp_ok::<T>(
                    an.v(), ad.v(), bn.v(), bd.v(),
                )
                &&& b <==> an.v() * bd.v() <= ad.v() * bn.v()
            },
            None => {
                &&& !direct_cross_ok::<T>(an.v(), ad.v(), bn.v(), bd.v())
                &&& !red_cmp_ok::<T>(an.v(), ad.v(), bn.v(), bd.v())
            },
        },
{
    let l0 = CheckRing::mul(an, bd);
    let r0 = CheckRing::mul(ad, bn);
    if let (Some(l), Some(rr)) = (l0, r0) {
        return Some(l.le(&rr));
    }
    match red_cross(an, ad, bn, bd) {
        Some((l, rr)) => Some(l.le(&rr)),
        None => None,
    }
}

/// Compute the two numerators scaled to the least common denominator of
/// the self-simplified operands; comparing them compares the fractions.
fn red_cross<T: CheckIntegralDomain + CheckGcd>(an: &T, ad: &T, bn: &T, bd: &T) -> (r: Option<
    (T, T),
>)
    requires
        ad.v() != 0,
        bd.v() != 0,
    ensures
        match r {
            Some(p) => {
                &&& red_cmp_ok::<T>(an.v(), ad.v(), bn.v(), bd.v())
                &&& (p.0.v() == p.1.v()) <==> (an.v() * bd.v() == ad.v() * bn.v())
                &&& (p.0.v() <= p.1.v()) <==> (an.v() * bd.v() <= ad.v() * bn.v())
            },
            None => !red_cmp_ok::<T>(an.v(), ad.v(), bn.v(), bd.v()),
        },
{
    let (an1, ad1) = simplify_pair(an, ad);
    let (bn1, bd1) = simplify_pair(bn, bd);
    let g = match CheckGcd::gcd(&ad1, &bd1) {
        Some(g) => g,
        None => {
            return None;
        },
    };
    proof {
        lemma_gcd_int_divides(ad1.v(), bd1.v());
        lemma_divides_iff_mod(g.v(), ad1.v());
        lemma_divides_iff_mod(g.v(), bd1.v());
        lemma_exact_quotient_bounds(ad1.v(), g.v());
        lemma_exact_quotient_bounds(bd1.v(), g.v());
        T::bounds_properties();
        ad1.val_in_bounds();
        bd1.val_in_bounds();
    }
    let m1 = CheckIntegralDomain::div(&bd1, &g).unwrap();
    let m2 = CheckIntegralDomain::div(&ad1, &g).unwrap();
    let l = match CheckRing::mul(&an1, &m1) {
        Some(x) => x,
        None => {
            return None;
        },
    };
    let rr = match CheckRing::mul(&bn1, &m2) {
        Some(y) => y,
        None => {
            return None;
        },
    };
    proof {
        lemma_cmp_equiv(
            an.v(), ad.v(), bn.v(), bd.v(),
            an1.v(), ad1.v(), bn1.v(), bd1.v(),
            g.v(), m1.v(), m2.v(),
        );
    }
    Some((l, rr))
}

} // verus!
