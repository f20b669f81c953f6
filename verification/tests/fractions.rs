use maths::fract::{Fraction, Reducible};
use maths::inf_grow::GrowFract;
use maths::reducible::{CheckRdc, ClassicRdc, Rdc};

#[test]
fn fraction_new_keeps_fields() {
    let f = Fraction::new(2i64, 3i64);
    assert_eq!(*f.num(), 2);
    assert_eq!(*f.denom(), 3);
}

#[test]
fn fraction_scaled_pairs_are_equal() {
    let f = Fraction::new(2i64, 3i64);
    let g = Fraction::new(10i64, 15i64);
    assert!(f.eq_frac(&g));
    let h = Fraction::new(-4i64, -6i64);
    assert!(f.eq_frac(&h));
    let different = Fraction::new(3i64, 2i64);
    assert!(!f.eq_frac(&different));
}

#[test]
fn fraction_add_is_direct() {
    let f = Fraction::new(1i64, 2i64);
    let g = Fraction::new(1i64, 3i64);
    let s = f.add(&g);
    assert_eq!(*s.num(), 5);
    assert_eq!(*s.denom(), 6);
}

#[test]
fn fraction_sub_mul_div_neg() {
    let f = Fraction::new(1i64, 2i64);
    let g = Fraction::new(1i64, 3i64);
    let d = f.sub(&g);
    assert_eq!(*d.num(), 1);
    assert_eq!(*d.denom(), 6);
    let p = f.mul(&g);
    assert_eq!(*p.num(), 1);
    assert_eq!(*p.denom(), 6);
    let q = f.div(&g);
    assert_eq!(*q.num(), 3);
    assert_eq!(*q.denom(), 2);
    let n = f.neg();
    assert_eq!(*n.num(), -1);
    assert_eq!(*n.denom(), 2);
}

#[test]
fn fraction_identities() {
    let z = Fraction::<i64>::zero();
    assert_eq!(*z.num(), 0);
    assert_eq!(*z.denom(), 1);
    let o = Fraction::<i64>::one();
    assert_eq!(*o.num(), 1);
    assert_eq!(*o.denom(), 1);
    assert_eq!(Fraction::<i64>::name(), "Fraction<i64>");
}

#[test]
fn grow_fract_never_reduces() {
    let f = GrowFract::new(2i64, 4i64);
    let g = GrowFract::new(1i64, 2i64);
    let p = f.mul(&g);
    assert_eq!(*p.num(), 2);
    assert_eq!(*p.denom(), 8);
    assert!(p.eq_frac(&GrowFract::new(1i64, 4i64)));
}

#[test]
fn grow_fract_add_and_ordering() {
    let f = GrowFract::new(1i64, 3i64);
    let g = GrowFract::new(1i64, 6i64);
    let s = f.add(&g);
    assert_eq!(*s.num(), 9);
    assert_eq!(*s.denom(), 18);
    assert!(s.eq_frac(&GrowFract::new(1i64, 2i64)));
    assert!(g.le_frac(&f));
    assert!(!f.le_frac(&g));
}

#[test]
fn grow_fract_div_and_neg() {
    let f = GrowFract::new(3i64, 4i64);
    let g = GrowFract::new(2i64, 5i64);
    let q = f.div(&g);
    assert_eq!(*q.num(), 15);
    assert_eq!(*q.denom(), 8);
    let n = f.neg();
    assert!(n.eq_frac(&GrowFract::new(-3i64, 4i64)));
    assert!(GrowFract::new(0i64, 7i64).is_zero());
    assert!(GrowFract::new(5i64, 5i64).is_one());
}

#[test]
fn classic_rdc_reduces_eagerly() {
    let f = ClassicRdc::new(6i64, 8i64);
    assert_eq!(*f.num(), 3);
    assert_eq!(*f.denom(), 4);
    let g = ClassicRdc::new(1i64, 6i64);
    let h = ClassicRdc::new(1i64, 3i64);
    let s = g.add(&h);
    assert_eq!(*s.num(), 1);
    assert_eq!(*s.denom(), 2);
}

#[test]
fn classic_rdc_mul_div_neg() {
    let f = ClassicRdc::new(2i64, 3i64);
    let g = ClassicRdc::new(3i64, 4i64);
    let p = f.mul(&g);
    assert_eq!(*p.num(), 1);
    assert_eq!(*p.denom(), 2);
    let q = f.div(&g);
    assert_eq!(*q.num(), 8);
    assert_eq!(*q.denom(), 9);
    let n = f.neg();
    assert_eq!(*n.num(), -2);
    assert_eq!(*n.denom(), 3);
    assert!(f.eq_frac(&ClassicRdc::new(4i64, 6i64)));
    assert!(f.le_frac(&g));
}

#[test]
fn reducible_waits_for_the_cadence() {
    let one = Reducible::new(1i64, 1i64);
    let mut x = Reducible::new(2i64, 4i64);
    let mut ops: usize = 0;
    while ops < 3 {
        x = x.mul(&one);
        ops += 1;
    }
    // three operations only advanced the counter
    assert_eq!(*x.num(), 2);
    assert_eq!(*x.denom(), 4);
    x = x.mul(&one);
    // the fourth reached the cadence and triggered the reduction
    assert_eq!(*x.num(), 1);
    assert_eq!(*x.denom(), 2);
}

#[test]
fn reducible_arithmetic_matches_fraction() {
    let f = Reducible::new(1i64, 2i64);
    let g = Reducible::new(1i64, 3i64);
    let s = f.add(&g);
    assert_eq!(*s.num(), 5);
    assert_eq!(*s.denom(), 6);
    let d = f.sub(&g);
    assert_eq!(*d.num(), 1);
    assert_eq!(*d.denom(), 6);
    let p = f.mul(&g);
    assert_eq!(*p.num(), 1);
    assert_eq!(*p.denom(), 6);
    let q = f.div(&g);
    assert_eq!(*q.num(), 3);
    assert_eq!(*q.denom(), 2);
    assert!(f.eq_frac(&Reducible::new(2i64, 4i64)));
}

#[test]
fn check_rdc_new_simplifies() {
    let f = CheckRdc::new(6i64, 8i64);
    assert_eq!(*f.num(), 3);
    assert_eq!(*f.denom(), 4);
}

#[test]
fn check_rdc_simplify_is_idempotent() {
    let mut f = CheckRdc::new(6i64, 8i64);
    assert_eq!(*f.num(), 3);
    assert_eq!(*f.denom(), 4);
    assert!(f.simplify().is_some());
    assert_eq!(*f.num(), 3);
    assert_eq!(*f.denom(), 4);
}

#[test]
fn check_rdc_simplify_reports_gcd_failure() {
    let mut f = CheckRdc::new(i64::MIN, 3i64);
    assert!(f.simplify().is_none());
    assert_eq!(*f.num(), i64::MIN);
    assert_eq!(*f.denom(), 3);
}

#[test]
fn check_rdc_small_sum_is_exact() {
    let third = CheckRdc::new(1i64, 3i64);
    let sixth = CheckRdc::new(1i64, 6i64);
    let half = CheckRdc::new(1i64, 2i64);
    let s = third.add(&sixth).unwrap();
    assert_eq!(s.eq_frac(&half), Some(true));
}

#[test]
fn check_rdc_add_is_commutative_on_samples() {
    let a = CheckRdc::new(3i64, 7i64);
    let b = CheckRdc::new(5i64, 11i64);
    let lhs = a.add(&b).unwrap();
    let rhs = b.add(&a).unwrap();
    assert_eq!(lhs.eq_frac(&rhs), Some(true));
    let pl = a.mul(&b).unwrap();
    let pr = b.mul(&a).unwrap();
    assert_eq!(pl.eq_frac(&pr), Some(true));
}

#[test]
fn check_rdc_add_is_associative_on_samples() {
    let a = CheckRdc::new(1i64, 2i64);
    let b = CheckRdc::new(1i64, 3i64);
    let c = CheckRdc::new(1i64, 7i64);
    let left = a.add(&b).unwrap().add(&c).unwrap();
    let right = a.add(&b.add(&c).unwrap()).unwrap();
    assert_eq!(left.eq_frac(&right), Some(true));
    let ml = a.mul(&b).unwrap().mul(&c).unwrap();
    let mr = a.mul(&b.mul(&c).unwrap()).unwrap();
    assert_eq!(ml.eq_frac(&mr), Some(true));
}

#[test]
fn check_rdc_staged_mul_recovers() {
    // the direct product overflows an 8-bit scalar, but cancelling the
    // cross gcds makes the result representable and exact
    let a = CheckRdc::new(100i8, 9i8);
    let b = CheckRdc::new(3i8, 50i8);
    let p = a.mul(&b).unwrap();
    assert_eq!(*p.num(), 2);
    assert_eq!(*p.denom(), 3);
}

#[test]
fn check_rdc_staged_add_recovers() {
    // the direct common denominator overflows an 8-bit scalar, but the
    // least-common-denominator retry represents the sum exactly
    let a = CheckRdc::new(1i8, 100i8);
    let b = CheckRdc::new(1i8, 100i8);
    let s = a.add(&b).unwrap();
    assert_eq!(*s.num(), 2);
    assert_eq!(*s.denom(), 100);
    assert_eq!(s.eq_frac(&CheckRdc::new(1i8, 50i8)), Some(true));
}

#[test]
fn check_rdc_terminal_overflow_is_absent() {
    // coprime denominators near the scalar maximum: even the fully
    // reduced least common denominator cannot be represented
    let a = CheckRdc::new(1i8, 127i8);
    let b = CheckRdc::new(1i8, 125i8);
    assert!(a.add(&b).is_none());
    // coprime numerators and denominators: cancellation removes nothing
    let c = CheckRdc::new(103i8, 127i8);
    let d = CheckRdc::new(101i8, 125i8);
    assert!(c.mul(&d).is_none());
}

#[test]
fn check_rdc_sub_div_neg() {
    let a = CheckRdc::new(1i64, 2i64);
    let b = CheckRdc::new(1i64, 3i64);
    let d = a.sub(&b).unwrap();
    assert_eq!(d.eq_frac(&CheckRdc::new(1i64, 6i64)), Some(true));
    let q = a.div(&b).unwrap();
    assert_eq!(q.eq_frac(&CheckRdc::new(3i64, 2i64)), Some(true));
    let n = a.neg().unwrap();
    assert_eq!(n.eq_frac(&CheckRdc::new(-1i64, 2i64)), Some(true));
}

#[test]
fn check_rdc_ordering_and_identities() {
    let a = CheckRdc::new(1i64, 3i64);
    let b = CheckRdc::new(1i64, 2i64);
    assert_eq!(a.le_frac(&b), Some(true));
    assert_eq!(b.le_frac(&a), Some(false));
    assert!(CheckRdc::<i64>::zero().is_zero());
    assert!(CheckRdc::<i64>::one().is_one());
    assert!(!CheckRdc::new(1i64, 2i64).is_one());
    assert_eq!(CheckRdc::<i64>::name(), "CheckRdc<i64>");
    let d = CheckRdc::<i64>::default();
    assert!(d.is_one());
}

#[test]
fn rdc_behaves_like_the_checked_variant_on_success() {
    let a = Rdc::new(1i64, 3i64);
    let b = Rdc::new(1i64, 6i64);
    let s = a.add(&b);
    assert_eq!(*s.num(), 9);
    assert_eq!(*s.denom(), 18);
    assert!(s.eq_frac(&Rdc::new(1i64, 2i64)));
    let p = a.mul(&b);
    assert_eq!(*p.num(), 1);
    assert_eq!(*p.denom(), 18);
    let q = a.div(&b);
    assert!(q.eq_frac(&Rdc::new(2i64, 1i64)));
    let n = a.neg();
    assert!(n.eq_frac(&Rdc::new(-1i64, 3i64)));
}

#[test]
fn rdc_staged_recovery_matches() {
    let a = Rdc::new(100i8, 9i8);
    let b = Rdc::new(3i8, 50i8);
    let p = a.mul(&b);
    assert_eq!(*p.num(), 2);
    assert_eq!(*p.denom(), 3);
}

#[test]
fn fraction_assign_operations() {
    let mut f = Fraction::new(1i64, 2i64);
    f.add_assign(&Fraction::new(1i64, 3i64));
    assert_eq!(*f.num(), 5);
    assert_eq!(*f.denom(), 6);
    f.sub_assign(&Fraction::new(1i64, 6i64));
    assert!(f.eq_frac(&Fraction::new(2i64, 3i64)));
    let mut g = Fraction::new(2i64, 3i64);
    g.mul_assign(&Fraction::new(3i64, 5i64));
    assert_eq!(*g.num(), 6);
    assert_eq!(*g.denom(), 15);
    g.div_assign(&Fraction::new(2i64, 5i64));
    assert!(g.eq_frac(&Fraction::new(1i64, 1i64)));
}

#[test]
fn default_values_stand_for_one() {
    let g: GrowFract<i64> = Default::default();
    assert_eq!(*g.num(), 1);
    assert_eq!(*g.denom(), 1);
    let c: ClassicRdc<i64> = Default::default();
    assert_eq!(*c.num(), 1);
    assert_eq!(*c.denom(), 1);
}

#[test]
fn type_names_follow_the_scalar() {
    assert_eq!(GrowFract::<i64>::name(), "GrowFract<i64>");
    assert_eq!(ClassicRdc::<i64>::name(), "ClassicRdc<i64>");
    assert_eq!(Reducible::<i64>::name(), "Reducible<i64>");
    assert_eq!(CheckRdc::<i8>::name(), "CheckRdc<i8>");
}

#[test]
fn rdc_simplify_and_identities() {
    let mut f = Rdc::new(10i64, 4i64);
    assert_eq!(*f.num(), 5);
    assert_eq!(*f.denom(), 2);
    f.simplify();
    assert_eq!(*f.num(), 5);
    assert_eq!(*f.denom(), 2);
    assert!(Rdc::<i64>::zero().is_zero());
    assert!(Rdc::<i64>::one().is_one());
    assert_eq!(Rdc::<i64>::name(), "Rdc<i64>");
}
