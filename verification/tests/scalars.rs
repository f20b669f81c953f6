use maths::primitives::IntoCheck;
use maths::tech::{AddGroup, CheckAddGroup, CheckGcd, CheckRing, Gcd, Meta, Ring};

#[test]
fn checked_gcd_divides_both_and_is_symmetric() {
    let g = <i64 as CheckGcd>::gcd(&12i64, &18i64).unwrap();
    assert_eq!(g, 6);
    assert_eq!(12 % g, 0);
    assert_eq!(18 % g, 0);
    assert_eq!(<i64 as CheckGcd>::gcd(&18i64, &12i64).unwrap(), 6);
    assert_eq!(<i64 as CheckGcd>::gcd(&-12i64, &18i64).unwrap(), 6);
    assert_eq!(<i64 as CheckGcd>::gcd(&12i64, &-18i64).unwrap(), 6);
    assert_eq!(<i64 as CheckGcd>::gcd(&0i64, &5i64).unwrap(), 5);
    assert_eq!(<i64 as CheckGcd>::gcd(&35i64, &64i64).unwrap(), 1);
}

#[test]
fn checked_gcd_reports_failure() {
    assert!(<i64 as CheckGcd>::gcd(&5i64, &0i64).is_none());
    assert!(<i64 as CheckGcd>::gcd(&i64::MIN, &3i64).is_none());
    assert!(<i64 as CheckGcd>::gcd(&3i64, &i64::MIN).is_none());
    assert!(<i8 as CheckGcd>::gcd(&i8::MIN, &3i8).is_none());
}

#[test]
fn unchecked_gcd_agrees() {
    assert_eq!(<i64 as Gcd>::gcd(&12i64, &18i64), 6);
    assert_eq!(<i64 as Gcd>::gcd(&-48i64, &-36i64), 12);
    assert_eq!(<i64 as Gcd>::gcd(&7i64, &13i64), 1);
}

#[test]
fn checked_scalar_operations() {
    assert_eq!(CheckAddGroup::add(&3i64, &4i64), Some(7));
    assert_eq!(CheckAddGroup::add(&i64::MAX, &1i64), None);
    assert_eq!(CheckAddGroup::sub(&3i64, &5i64), Some(-2));
    assert_eq!(CheckAddGroup::sub(&i64::MIN, &1i64), None);
    assert_eq!(CheckAddGroup::neg(&5i64), Some(-5));
    assert_eq!(CheckAddGroup::neg(&i64::MIN), None);
    assert_eq!(CheckRing::mul(&6i8, &7i8), Some(42));
    assert_eq!(CheckRing::mul(&64i8, &2i8), None);
    assert!(<i64 as CheckAddGroup>::is_zero(&0i64));
    assert!(!<i64 as CheckAddGroup>::is_zero(&3i64));
}

#[test]
fn checked_abs_and_rem() {
    assert_eq!(<i64 as CheckGcd>::abs(&-9i64), Some(9));
    assert_eq!(<i64 as CheckGcd>::abs(&9i64), Some(9));
    assert_eq!(<i64 as CheckGcd>::abs(&i64::MIN), None);
    assert_eq!(<i64 as CheckGcd>::rem(&17i64, &5i64), Some(2));
    assert_eq!(<i64 as CheckGcd>::rem(&17i64, &0i64), None);
}

#[test]
fn unchecked_scalar_operations() {
    assert_eq!(AddGroup::add(&3i64, &4i64), 7);
    assert_eq!(AddGroup::sub(&3i64, &4i64), -1);
    assert_eq!(AddGroup::neg(&3i64), -3);
    assert_eq!(Ring::mul(&3i64, &4i64), 12);
    assert_eq!(<i64 as AddGroup>::zero(), 0);
}

#[test]
fn meta_names_and_order() {
    assert_eq!(<i64 as Meta>::name(), "i64");
    assert_eq!(<i8 as Meta>::name(), "i8");
    assert_eq!(<i64 as Meta>::non_zero(), 1);
    assert!(Meta::le(&3i64, &4i64));
    assert!(!Meta::le(&4i64, &3i64));
}

#[test]
fn into_check_is_the_identity_on_primitives() {
    assert_eq!(5i64.safe(), 5i64);
    assert_eq!((-3i8).safe(), -3i8);
}
