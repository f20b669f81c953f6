//! Mathematical model of the greatest common divisor and exact division,
//! together with the lemmas the fraction engines rely on.

use vstd::prelude::*;

verus! {

use vstd::arithmetic::div_mod::{
    lemma_fundamental_div_mod, lemma_fundamental_div_mod_converse, lemma_mod_multiples_basic,
    lemma_small_mod,
};
use vstd::math::abs;

/// `d` divides `x` evenly.
pub open spec fn divides(d: int, x: int) -> bool {
    exists|k: int| x == #[trigger] (d * k)
}

/// Euclidean greatest common divisor of two natural numbers.
pub open spec fn gcd_nat(a: nat, b: nat) -> nat
    decreases b,
{
    if b == 0 {
        a
    } else {
        gcd_nat(b, a % b)
    }
}

/// Greatest common divisor of two integers, defined on absolute values.
pub open spec fn gcd_int(a: int, b: int) -> int {
    gcd_nat(abs(a) as nat, abs(b) as nat) as int
}

/// The gcd divides both of its arguments.
pub proof fn lemma_gcd_nat_divides(a: nat, b: nat)
    ensures
        divides(gcd_nat(a, b) as int, a as int),
        divides(gcd_nat(a, b) as int, b as int),
    decreases b,
{
    if b == 0 {
        assert(a as int == (gcd_nat(a, b) as int) * 1);
        assert(b as int == (gcd_nat(a, b) as int) * 0);
    } else {
        lemma_gcd_nat_divides(b, a % b);
        let g = gcd_nat(b, a % b) as int;
        let k1 = choose|k: int| b as int == #[trigger] (g * k);
        let k2 = choose|k: int| (a % b) as int == #[trigger] (g * k);
        lemma_fundamental_div_mod(a as int, b as int);
        let q = (a as int) / (b as int);
        assert(a as int == g * (k1 * q + k2)) by (nonlinear_arith)
            requires
                a as int == (b as int) * q + (a % b) as int,
                b as int == g * k1,
                (a % b) as int == g * k2,
        ;
    }
}

/// The gcd is zero only when both arguments are zero; it is positive
/// whenever the second argument is.
pub proof fn lemma_gcd_nat_pos(a: nat, b: nat)
    ensures
        gcd_nat(a, b) == 0 ==> a == 0 && b == 0,
        b > 0 ==> gcd_nat(a, b) >= 1,
    decreases b,
{
    if b != 0 {
        lemma_gcd_nat_pos(b, a % b);
    }
}

/// The gcd does not depend on the order of its arguments.
pub proof fn lemma_gcd_nat_sym(a: nat, b: nat)
    ensures
        gcd_nat(a, b) == gcd_nat(b, a),
{
    if a == b {
        if a == 0 {
        } else {
            assert(a % a == 0) by (nonlinear_arith)
                requires a > 0,
            ;
            assert(gcd_nat(a, a) == gcd_nat(a, 0));
        }
    } else if a < b {
        lemma_small_mod(a, b);
        assert(gcd_nat(a, b) == gcd_nat(b, a % b));
        assert(a % b == a);
    } else {
        if b == 0 {
            lemma_small_mod(0, a);
            assert(gcd_nat(b, a) == gcd_nat(a, 0nat % a));
        } else {
            lemma_small_mod(b, a);
            assert(gcd_nat(b, a) == gcd_nat(a, b % a));
        }
    }
}

/// Any common divisor of `a` and `b` divides their gcd.
pub proof fn lemma_common_divisor_divides_gcd(a: nat, b: nat, c: int)
    requires
        divides(c, a as int),
        divides(c, b as int),
    ensures
        divides(c, gcd_nat(a, b) as int),
    decreases b,
{
    if b == 0 {
    } else {
        let k1 = choose|k: int| a as int == #[trigger] (c * k);
        let k2 = choose|k: int| b as int == #[trigger] (c * k);
        lemma_fundamental_div_mod(a as int, b as int);
        let q = (a as int) / (b as int);
        assert((a % b) as int == c * (k1 - k2 * q)) by (nonlinear_arith)
            requires
                a as int == (b as int) * q + (a % b) as int,
                a as int == c * k1,
                b as int == c * k2,
        ;
        lemma_common_divisor_divides_gcd(b, a % b, c);
    }
}

/// A positive divisor of a positive number is no larger than it.
pub proof fn lemma_divides_le(d: int, x: int)
    requires
        divides(d, x),
        d > 0,
        x > 0,
    ensures
        d <= x,
{
    let k = choose|k: int| x == #[trigger] (d * k);
    assert(d <= x) by (nonlinear_arith)
        requires
            x == d * k,
            d > 0,
            x > 0,
    ;
}

/// For a positive divisor, divisibility coincides with a zero remainder,
/// and the quotient recovers the dividend exactly.
pub proof fn lemma_divides_iff_mod(d: int, x: int)
    requires
        d > 0,
    ensures
        divides(d, x) <==> x % d == 0,
        divides(d, x) ==> d * (x / d) == x,
{
    if divides(d, x) {
        let k = choose|k: int| x == #[trigger] (d * k);
        lemma_mod_multiples_basic(k, d);
        assert(d * k == k * d) by (nonlinear_arith);
        assert(x % d == 0);
        lemma_fundamental_div_mod(x, d);
    }
    if x % d == 0 {
        lemma_fundamental_div_mod(x, d);
        assert(x == d * (x / d));
    }
}

/// Dividing both arguments by their gcd leaves a coprime pair.
pub proof fn lemma_gcd_reduced(a: nat, b: nat)
    requires
        b > 0,
    ensures
        gcd_nat((a as int / gcd_nat(a, b) as int) as nat, (b as int / gcd_nat(a, b) as int) as nat) == 1,
{
    let g = gcd_nat(a, b) as int;
    lemma_gcd_nat_pos(a, b);
    lemma_gcd_nat_divides(a, b);
    lemma_divides_iff_mod(g, a as int);
    lemma_divides_iff_mod(g, b as int);
    let a1 = a as int / g;
    let b1 = b as int / g;
    assert(g * a1 == a as int);
    assert(g * b1 == b as int);
    assert(a1 >= 0 && b1 >= 1) by (nonlinear_arith)
        requires
            g * a1 == a as int,
            g * b1 == b as int,
            a as int >= 0,
            b as int >= 1,
            g >= 1,
    ;
    let h = gcd_nat(a1 as nat, b1 as nat) as int;
    lemma_gcd_nat_pos(a1 as nat, b1 as nat);
    lemma_gcd_nat_divides(a1 as nat, b1 as nat);
    let k1 = choose|k: int| a1 == #[trigger] (h * k);
    let k2 = choose|k: int| b1 == #[trigger] (h * k);
    assert(a as int == (h * g) * k1 && b as int == (h * g) * k2) by (nonlinear_arith)
        requires
            g * a1 == a as int,
            g * b1 == b as int,
            a1 == h * k1,
            b1 == h * k2,
    ;
    lemma_common_divisor_divides_gcd(a, b, h * g);
    assert(h * g > 0) by (nonlinear_arith)
        requires
            h >= 1,
            g >= 1,
    ;
    lemma_divides_le(h * g, g);
    assert(h == 1) by (nonlinear_arith)
        requires
            h * g <= g,
            h >= 1,
            g >= 1,
    ;
}

/// Integer form of the gcd facts: the gcd of two integers divides both,
/// is symmetric, and is positive when the second argument is nonzero.
pub proof fn lemma_gcd_int_divides(a: int, b: int)
    ensures
        divides(gcd_int(a, b), a),
        divides(gcd_int(a, b), b),
        gcd_int(a, b) >= 0,
        b != 0 ==> gcd_int(a, b) >= 1,
        gcd_int(a, b) == gcd_int(b, a),
{
    let an = abs(a) as nat;
    let bn = abs(b) as nat;
    lemma_gcd_nat_divides(an, bn);
    lemma_gcd_nat_pos(an, bn);
    lemma_gcd_nat_sym(an, bn);
    let g = gcd_nat(an, bn) as int;
    let k1 = choose|k: int| an as int == #[trigger] (g * k);
    let k2 = choose|k: int| bn as int == #[trigger] (g * k);
    if a < 0 {
        assert(a == g * (-k1)) by (nonlinear_arith)
            requires
                an as int == g * k1,
                an as int == -a,
        ;
    }
    if b < 0 {
        assert(b == g * (-k2)) by (nonlinear_arith)
            requires
                bn as int == g * k2,
                bn as int == -b,
        ;
    }
}

/// Dividing exactly by a positive divisor commutes with the absolute
/// value.
pub proof fn lemma_abs_exact_div(n: int, g: int)
    requires
        g >= 1,
        divides(g, n),
    ensures
        abs(n / g) as int == (abs(n) as int) / g,
        divides(g, abs(n) as int),
{
    lemma_divides_iff_mod(g, n);
    let q = n / g;
    assert(g * q == n);
    if n >= 0 {
        assert(q >= 0) by (nonlinear_arith)
            requires
                g * q == n,
                g >= 1,
                n >= 0,
        ;
        assert(abs(n) as int == g * q);
    } else {
        assert(q <= 0) by (nonlinear_arith)
            requires
                g * q == n,
                g >= 1,
                n < 0,
        ;
        assert(abs(n) as int == (-q) * g + 0) by (nonlinear_arith)
            requires
                g * q == n,
                abs(n) as int == -n,
        ;
        lemma_fundamental_div_mod_converse(abs(n) as int, g, -q, 0);
        assert((abs(n) as int) / g == -q);
        assert(abs(q) as int == -q);
        assert(abs(n) as int == g * (-q)) by (nonlinear_arith)
            requires
                g * q == n,
                abs(n) as int == -n,
        ;
    }
}

/// On exact divisions, division that truncates towards zero agrees with
/// Euclidean division, whatever the signs of the operands.
pub proof fn lemma_truncating_div_exact(x: int, d: int)
    requires
        d != 0,
        x % d == 0,
    ensures
        (if x == 0 {
            0int
        } else if x > 0 && d > 0 {
            x / d
        } else if x < 0 && d < 0 {
            (x * -1) / (d * -1)
        } else if x < 0 {
            ((x * -1) / d) * -1
        } else {
            (x / (d * -1)) * -1
        }) == x / d,
{
    lemma_fundamental_div_mod(x, d);
    let q = x / d;
    assert(x == d * q);
    if x == 0 {
        assert(q == 0) by (nonlinear_arith)
            requires
                0 == d * q,
                d != 0,
        ;
    } else if x > 0 && d > 0 {
    } else if x < 0 && d < 0 {
        assert(x * -1 == q * (d * -1) + 0) by (nonlinear_arith)
            requires
                x == d * q,
        ;
        lemma_fundamental_div_mod_converse(x * -1, d * -1, q, 0);
    } else if x < 0 {
        assert(x * -1 == (-q) * d + 0) by (nonlinear_arith)
            requires
                x == d * q,
        ;
        lemma_fundamental_div_mod_converse(x * -1, d, -q, 0);
    } else {
        assert(x == (-q) * (d * -1) + 0) by (nonlinear_arith)
            requires
                x == d * q,
        ;
        lemma_fundamental_div_mod_converse(x, d * -1, -q, 0);
    }
}

/// An exact quotient lies between zero and the dividend.
pub proof fn lemma_exact_quotient_bounds(n: int, g: int)
    requires
        g >= 1,
        divides(g, n),
    ensures
        n >= 0 ==> 0 <= n / g <= n,
        n < 0 ==> n <= n / g <= 0,
        g * (n / g) == n,
        n != 0 ==> n / g != 0,
{
    lemma_divides_iff_mod(g, n);
    let q = n / g;
    assert((n >= 0 ==> 0 <= q <= n) && (n < 0 ==> n <= q <= 0) && (n != 0 ==> q != 0))
        by (nonlinear_arith)
        requires
            g * q == n,
            g >= 1,
    ;
}

} // verus!
