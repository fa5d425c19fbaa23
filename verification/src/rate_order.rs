//! How the weights of frame rates relate to the fractions themselves.

use crate::framerate::{doublings, exponent, fastest, fastest_is_first_maximum, fps, lemma_constants, lemma_zero, nearest_even, rounded_quotient, significand, whole_fps, Rate};
use vstd::arithmetic::div_mod::lemma_fundamental_div_mod_converse;
use vstd::arithmetic::power2::{lemma2_to64, lemma_pow2_adds, lemma_pow2_pos, lemma_pow2_strictly_increases, lemma_pow2_unfold, pow2};
use vstd::prelude::*;

verus! {

/// `doublings` is the least number of doublings that reaches the bound.
proof fn lemma_doublings(x: nat, y: nat)
    requires
        x > 0,
    ensures
        x * pow2(doublings(x, y)) >= y,
        doublings(x, y) > 0 ==> x * pow2((doublings(x, y) - 1) as nat) < y,
    decreases
            (if x < y {
                y - x
            } else {
                0
            }),
{
    lemma2_to64();
    if x < y {
        lemma_doublings(2 * x, y);
        let e = doublings(2 * x, y);
        lemma_pow2_unfold(e + 1);
        assert(x * pow2(e + 1) == (2 * x) * pow2(e)) by (nonlinear_arith)
            requires
                pow2(e + 1) == 2 * pow2(e),
        ;
        if e > 0 {
            lemma_pow2_unfold(e);
            let p = pow2((e - 1) as nat);
            assert(x * pow2(e) == (2 * x) * p) by (nonlinear_arith)
                requires
                    pow2(e) == 2 * p,
            ;
        }
    } else {
        assert(x * pow2(0) == x);
    }
}

/// A rounded quotient lies within one half of the exact one.
pub(crate) proof fn lemma_nearest_even(x: nat, y: nat)
    requires
        y > 0,
    ensures
        2 * (nearest_even(x, y) * y) <= 2 * x + y,
        2 * (nearest_even(x, y) * y) >= 2 * x - y,
{
    let q = x / y;
    let r = x % y;
    assert(x == q * y + r && r < y) by (nonlinear_arith)
        requires
            y > 0,
            q == x / y,
            r == x % y,
    ;
    assert((q + 1) * y == q * y + y) by (nonlinear_arith);
}

/// Rounding keeps the order of two quotients.
proof fn lemma_nearest_even_monotone(x1: nat, y1: nat, x2: nat, y2: nat)
    requires
        y1 > 0,
        y2 > 0,
        x1 * y2 <= x2 * y1,
    ensures
        nearest_even(x1, y1) <= nearest_even(x2, y2),
{
    let q1 = x1 / y1;
    let r1 = x1 % y1;
    let q2 = x2 / y2;
    let r2 = x2 % y2;
    assert(x1 == q1 * y1 + r1 && r1 < y1) by (nonlinear_arith)
        requires
            y1 > 0,
            q1 == x1 / y1,
            r1 == x1 % y1,
    ;
    assert(x2 == q2 * y2 + r2 && r2 < y2) by (nonlinear_arith)
        requires
            y2 > 0,
            q2 == x2 / y2,
            r2 == x2 % y2,
    ;
    assert(q1 * (y1 * y2) + r1 * y2 == x1 * y2) by (nonlinear_arith)
        requires
            x1 == q1 * y1 + r1,
    ;
    assert(q2 * (y1 * y2) + r2 * y1 == x2 * y1) by (nonlinear_arith)
        requires
            x2 == q2 * y2 + r2,
    ;
    assert(r2 * y1 < y1 * y2) by (nonlinear_arith)
        requires
            r2 < y2,
            y1 > 0,
    ;
    assert(r1 * y2 >= 0) by (nonlinear_arith)
        requires
            r1 >= 0,
            y2 >= 0,
    ;
    let p = y1 * y2;
    if q1 > q2 {
        assert(q1 * p >= q2 * p + p) by (nonlinear_arith)
            requires
                q1 >= q2 + 1,
                p >= 0,
        ;
        assert(false);
    }
    if q1 == q2 && nearest_even(x1, y1) == q1 + 1 {
        assert(r1 * y2 <= r2 * y1);
        assert(2 * (r1 * y2) >= p) by (nonlinear_arith)
            requires
                2 * r1 >= y1,
                p == y1 * y2,
                y2 > 0,
        ;
        assert(2 * r2 >= y2) by (nonlinear_arith)
            requires
                2 * (r2 * y1) >= p,
                p == y1 * y2,
                y1 > 0,
        ;
        if 2 * r2 == y2 {
            assert(2 * (r2 * y1) == p) by (nonlinear_arith)
                requires
                    2 * r2 == y2,
                    p == y1 * y2,
            ;
            assert(2 * r1 <= y1) by (nonlinear_arith)
                requires
                    2 * (r1 * y2) <= p,
                    p == y1 * y2,
                    y2 > 0,
            ;
        }
    }
}

/// Two quotients more than one apart round to different whole numbers.
proof fn lemma_nearest_even_apart(x1: nat, y1: nat, x2: nat, y2: nat)
    requires
        y1 > 0,
        y2 > 0,
        x1 * y2 > x2 * y1 + y1 * y2,
    ensures
        nearest_even(x1, y1) > nearest_even(x2, y2),
{
    lemma_nearest_even(x1, y1);
    lemma_nearest_even(x2, y2);
    let m1 = nearest_even(x1, y1);
    let m2 = nearest_even(x2, y2);
    if m1 <= m2 {
        assert(2 * (m2 * y2) * y1 <= (2 * x2 + y2) * y1) by (nonlinear_arith)
            requires
                2 * (m2 * y2) <= 2 * x2 + y2,
                y1 > 0,
        ;
        assert(2 * (m1 * y1) * y2 >= (2 * x1 - y1) * y2) by (nonlinear_arith)
            requires
                2 * (m1 * y1) >= 2 * x1 - y1,
                y2 > 0,
        ;
        assert(m1 * (y1 * y2) <= m2 * (y1 * y2)) by (nonlinear_arith)
            requires
                m1 <= m2,
                y1 > 0,
                y2 > 0,
        ;
        assert(2 * (m1 * y1) * y2 == 2 * (m1 * (y1 * y2))) by (nonlinear_arith);
        assert(2 * (m2 * y2) * y1 == 2 * (m2 * (y1 * y2))) by (nonlinear_arith);
        assert((2 * x1 - y1) * y2 == 2 * (x1 * y2) - y1 * y2) by (nonlinear_arith);
        assert((2 * x2 + y2) * y1 == 2 * (x2 * y1) + y1 * y2) by (nonlinear_arith);
        assert(false);
    }
}

/// The shape of a rounded quotient of two numbers below `2^31`: a significand of 53 bits and an
/// exponent of at most 83.
pub(crate) proof fn lemma_shape(a: nat, b: nat)
    requires
        0 < a <= 0x8000_0000,
        0 < b <= 0x8000_0000,
    ensures
        0 < exponent(a, b) <= 83,
        pow2(52) <= significand(a, b) <= pow2(53),
        b * pow2(52) <= a * pow2(exponent(a, b)) < b * pow2(53),
{
    lemma_constants();
    let y = b * pow2(52);
    let e = exponent(a, b);
    lemma_doublings(a, y);
    assert(y >= pow2(52)) by (nonlinear_arith)
        requires
            y == b * pow2(52),
            b >= 1,
    ;
    assert(e > 0);
    lemma_pow2_unfold(e);
    let p = pow2((e - 1) as nat);
    let x = a * pow2(e);
    assert(x == 2 * (a * p)) by (nonlinear_arith)
        requires
            x == a * pow2(e),
            pow2(e) == 2 * p,
    ;
    assert(b * pow2(53) == 2 * y) by (nonlinear_arith)
        requires
            y == b * pow2(52),
            pow2(53) == 2 * pow2(52),
    ;
    lemma_pow2_pos((e - 1) as nat);
    assert(p <= a * p) by (nonlinear_arith)
        requires
            a >= 1,
            p > 0,
    ;
    assert(y <= pow2(83)) by (nonlinear_arith)
        requires
            y == b * pow2(52),
            b <= pow2(31),
            pow2(31) == 0x8000_0000,
            pow2(52) == 4_503_599_627_370_496,
            pow2(83) == 9_671_406_556_917_033_397_649_408,
    ;
    if e > 83 {
        if e - 1 > 83 {
            lemma_pow2_strictly_increases(83, (e - 1) as nat);
        }
        assert(false);
    }
    let q = x / b;
    assert(q >= pow2(52)) by (nonlinear_arith)
        requires
            q == x / b,
            x >= b * pow2(52),
            b > 0,
    ;
    assert(q < pow2(53)) by (nonlinear_arith)
        requires
            q == x / b,
            x < b * pow2(53),
            b > 0,
    ;
}

/// Of two positive fractions the larger one is scaled up no further.
proof fn lemma_exponent_antitone(a1: nat, b1: nat, a2: nat, b2: nat)
    requires
        0 < a1 <= 0x8000_0000,
        0 < b1 <= 0x8000_0000,
        0 < a2 <= 0x8000_0000,
        0 < b2 <= 0x8000_0000,
        a1 * b2 <= a2 * b1,
    ensures
        exponent(a2, b2) <= exponent(a1, b1),
{
    lemma_shape(a1, b1);
    lemma_shape(a2, b2);
    let e1 = exponent(a1, b1);
    let e2 = exponent(a2, b2);
    if e1 < e2 {
        lemma_doublings(a2, b2 * pow2(52));
        let p1 = pow2(e1);
        let p = pow2((e2 - 1) as nat);
        if e1 < e2 - 1 {
            lemma_pow2_strictly_increases(e1, (e2 - 1) as nat);
        }
        let c = pow2(52);
        assert(a2 * p < b2 * c);
        assert(a2 * p1 < b2 * c) by (nonlinear_arith)
            requires
                a2 * p < b2 * c,
                p1 <= p,
                a2 > 0,
        ;
        assert((a2 * p1) * b1 < (b2 * c) * b1) by (nonlinear_arith)
            requires
                a2 * p1 < b2 * c,
                b1 > 0,
        ;
        assert((b1 * c) * b2 <= (a1 * p1) * b2) by (nonlinear_arith)
            requires
                b1 * c <= a1 * p1,
                b2 > 0,
        ;
        assert((a1 * p1) * b2 == (a1 * b2) * p1) by (nonlinear_arith);
        assert((a2 * p1) * b1 == (a2 * b1) * p1) by (nonlinear_arith);
        lemma_pow2_pos(e1);
        assert((a1 * b2) * p1 <= (a2 * b1) * p1) by (nonlinear_arith)
            requires
                a1 * b2 <= a2 * b1,
                p1 > 0,
        ;
        assert((b2 * c) * b1 == (b1 * c) * b2) by (nonlinear_arith);
        assert(false);
    }
}

proof fn lemma_quotient_monotone(a1: nat, b1: nat, a2: nat, b2: nat)
    requires
        a1 <= 0x8000_0000,
        0 < b1 <= 0x8000_0000,
        a2 <= 0x8000_0000,
        0 < b2 <= 0x8000_0000,
        a1 * b2 <= a2 * b1,
    ensures
        rounded_quotient(a1, b1) <= rounded_quotient(a2, b2),
{
    if a1 == 0 {
        lemma_zero(b1);
    } else {
        if a2 == 0 {
            assert(a1 * b2 > 0) by (nonlinear_arith)
                requires
                    a1 > 0,
                    b2 > 0,
            ;
        }
        lemma_positive_quotient_monotone(a1, b1, a2, b2);
    }
}

proof fn lemma_positive_quotient_monotone(a1: nat, b1: nat, a2: nat, b2: nat)
    requires
        0 < a1 <= 0x8000_0000,
        0 < b1 <= 0x8000_0000,
        0 < a2 <= 0x8000_0000,
        0 < b2 <= 0x8000_0000,
        a1 * b2 <= a2 * b1,
    ensures
        rounded_quotient(a1, b1) <= rounded_quotient(a2, b2),
{
    reveal(rounded_quotient);
    lemma_shape(a1, b1);
    lemma_shape(a2, b2);
    lemma_exponent_antitone(a1, b1, a2, b2);
    let e1 = exponent(a1, b1);
    let e2 = exponent(a2, b2);
    let m1 = significand(a1, b1);
    let m2 = significand(a2, b2);
    let w1 = pow2((83 - e1) as nat);
    let w2 = pow2((83 - e2) as nat);
    if e1 == e2 {
        let p = pow2(e1);
        assert((a1 * p) * b2 == (a1 * b2) * p) by (nonlinear_arith);
        assert((a2 * p) * b1 == (a2 * b1) * p) by (nonlinear_arith);
        lemma_pow2_pos(e1);
        assert((a1 * b2) * p <= (a2 * b1) * p) by (nonlinear_arith)
            requires
                a1 * b2 <= a2 * b1,
                p > 0,
        ;
        lemma_nearest_even_monotone(a1 * p, b1, a2 * p, b2);
        assert(m1 * w1 <= m2 * w1) by (nonlinear_arith)
            requires
                m1 <= m2,
                w1 >= 0,
        ;
    } else {
        lemma_weights(e1, e2);
        lemma_constants();
        assert(m1 * w1 <= m2 * w2) by (nonlinear_arith)
            requires
                m1 <= pow2(53),
                m2 >= pow2(52),
                pow2(53) == 2 * pow2(52),
                2 * w1 <= w2,
                w1 > 0,
        ;
    }
}

/// Each step of the exponent halves the unit of the significand.
proof fn lemma_weights(e1: nat, e2: nat)
    requires
        e2 < e1 <= 83,
    ensures
        0 < 2 * pow2((83 - e1) as nat) <= pow2((83 - e2) as nat),
        e2 + 1 == e1 ==> 2 * pow2((83 - e1) as nat) == pow2((83 - e2) as nat),
        e2 + 1 < e1 ==> 4 * pow2((83 - e1) as nat) <= pow2((83 - e2) as nat),
{
    lemma_pow2_pos((83 - e1) as nat);
    lemma_pow2_unfold((84 - e1) as nat);
    if e2 + 1 < e1 {
        lemma_pow2_unfold((85 - e1) as nat);
        if e2 + 2 < e1 {
            lemma_pow2_strictly_increases((85 - e1) as nat, (83 - e2) as nat);
        }
    }
}

proof fn lemma_quotient_strict(a1: nat, b1: nat, a2: nat, b2: nat)
    requires
        a1 <= 0x8000_0000,
        0 < b1 <= 0x8000_0000,
        a2 <= 0x8000_0000,
        0 < b2 <= 0x8000_0000,
        a1 * b2 > a2 * b1,
        a2 * b1 < pow2(52),
    ensures
        rounded_quotient(a1, b1) > rounded_quotient(a2, b2),
{
    reveal(rounded_quotient);
    if a1 == 0 {
        assert(0 * b2 == 0);
        assert(a2 * b1 >= 0) by (nonlinear_arith)
            requires
                a2 >= 0,
                b1 >= 0,
        ;
    }
    if a2 == 0 {
        lemma_constants();
        lemma_shape(a1, b1);
        lemma_zero(b2);
        let m1 = significand(a1, b1);
        let w1 = pow2((83 - exponent(a1, b1)) as nat);
        lemma_pow2_pos((83 - exponent(a1, b1)) as nat);
        assert(m1 * w1 > 0) by (nonlinear_arith)
            requires
                m1 > 0,
                w1 > 0,
        ;
    } else {
        lemma_positive_quotient_strict(a1, b1, a2, b2);
    }
}

proof fn lemma_positive_quotient_strict(a1: nat, b1: nat, a2: nat, b2: nat)
    requires
        0 < a1 <= 0x8000_0000,
        0 < b1 <= 0x8000_0000,
        0 < a2 <= 0x8000_0000,
        0 < b2 <= 0x8000_0000,
        a1 * b2 > a2 * b1,
        a2 * b1 < pow2(52),
    ensures
        rounded_quotient(a1, b1) > rounded_quotient(a2, b2),
{
    reveal(rounded_quotient);
    lemma_constants();
    lemma_shape(a1, b1);
    let e1 = exponent(a1, b1);
    let m1 = significand(a1, b1);
    let w1 = pow2((83 - e1) as nat);
    lemma_pow2_pos((83 - e1) as nat);
    lemma_shape(a2, b2);
    lemma_exponent_antitone(a2, b2, a1, b1);
    let e2 = exponent(a2, b2);
    let m2 = significand(a2, b2);
    let w2 = pow2((83 - e2) as nat);
    let p2 = pow2(e2);
    let c = pow2(52);
    lemma_pow2_pos(e2);
    // One unit in the last place is less than what sets the two fractions apart.
    assert(p2 > b1 * b2) by (nonlinear_arith)
        requires
            b2 * c <= a2 * p2,
            a2 * b1 < c,
            a2 > 0,
            b1 > 0,
            b2 > 0,
            p2 > 0,
    {
        assert((a2 * b1) * b2 < c * b2);
        assert(a2 * (b1 * b2) < a2 * p2);
    }
    assert((a1 * b2) * p2 >= (a2 * b1) * p2 + p2) by (nonlinear_arith)
        requires
            a1 * b2 >= a2 * b1 + 1,
            p2 > 0,
    ;
    if e1 == e2 {
        assert((a1 * p2) * b2 == (a1 * b2) * p2) by (nonlinear_arith);
        assert((a2 * p2) * b1 == (a2 * b1) * p2) by (nonlinear_arith);
        lemma_nearest_even_apart(a1 * p2, b1, a2 * p2, b2);
        assert(m1 * w1 > m2 * w1) by (nonlinear_arith)
            requires
                m1 > m2,
                w1 > 0,
        ;
    } else {
        lemma_weights(e2, e1);
        if e1 + 1 < e2 {
            assert(m1 * w1 > m2 * w2) by (nonlinear_arith)
                requires
                    m1 >= c,
                    m2 <= 2 * c,
                    c > 0,
                    4 * w2 <= w1,
                    w2 > 0,
            ;
        } else {
            if m1 == c && m2 == 2 * c {
                lemma_boundary(a1, b1, a2, b2);
            }
            assert(2 * m1 > m2);
            assert(m1 * w1 > m2 * w2) by (nonlinear_arith)
                requires
                    2 * m1 > m2,
                    w1 == 2 * w2,
                    w2 > 0,
            ;
        }
    }
}

/// Two fractions on either side of a power of two do not both round to it.
proof fn lemma_boundary(a1: nat, b1: nat, a2: nat, b2: nat)
    requires
        0 < a1 <= 0x8000_0000,
        0 < b1 <= 0x8000_0000,
        0 < a2 <= 0x8000_0000,
        0 < b2 <= 0x8000_0000,
        a1 * b2 > a2 * b1,
        a2 * b1 < pow2(52),
        exponent(a1, b1) + 1 == exponent(a2, b2),
        significand(a1, b1) == pow2(52),
    ensures
        significand(a2, b2) != pow2(53),
{
    if significand(a2, b2) == pow2(53) {
        lemma_boundary_gap(a1, b1, a2, b2);
    }
}

/// How far apart two fractions would be if both rounded to the power of two between them.
proof fn lemma_boundary_gap(a1: nat, b1: nat, a2: nat, b2: nat)
    requires
        0 < a1 <= 0x8000_0000,
        0 < b1 <= 0x8000_0000,
        0 < a2 <= 0x8000_0000,
        0 < b2 <= 0x8000_0000,
        a1 * b2 > a2 * b1,
        exponent(a1, b1) + 1 == exponent(a2, b2),
        significand(a1, b1) == pow2(52),
        significand(a2, b2) == pow2(53),
    ensures
        a2 * b1 > pow2(52),
{
    lemma_constants();
    let e1 = exponent(a1, b1);
    let e2 = exponent(a2, b2);
    let c = pow2(52);
    let p1 = pow2(e1);
    let p2 = pow2(e2);
    lemma_pow2_unfold(e2);
    lemma_pow2_pos(e2);
    lemma_nearest_even(a1 * p1, b1);
    lemma_nearest_even(a2 * p2, b2);
    // a1 * p2 <= (2c + 1) * b1 and 2 * a2 * p2 >= (4c - 1) * b2
    assert(a1 * p2 == 2 * (a1 * p1)) by (nonlinear_arith)
        requires
            p2 == 2 * p1,
    ;
    let u1 = a1 * p2;
    let u2 = a2 * p2;
    assert(u1 <= 2 * (c * b1) + b1);
    assert(pow2(53) * b2 == 2 * (c * b2)) by (nonlinear_arith)
        requires
            pow2(53) == 2 * c,
    ;
    assert(2 * u2 >= 4 * (c * b2) - b2);
    let bb = b1 * b2;
    assert(2 * (u1 * b2) <= 4 * (c * bb) + 2 * bb) by (nonlinear_arith)
        requires
            u1 <= 2 * (c * b1) + b1,
            b2 > 0,
            bb == b1 * b2,
    ;
    assert(2 * (u2 * b1) >= 4 * (c * bb) - bb) by (nonlinear_arith)
        requires
            2 * u2 >= 4 * (c * b2) - b2,
            b1 > 0,
            bb == b1 * b2,
    ;
    assert(u1 * b2 >= u2 * b1 + p2) by (nonlinear_arith)
        requires
            u1 == a1 * p2,
            u2 == a2 * p2,
            a1 * b2 >= a2 * b1 + 1,
            p2 > 0,
    ;
    assert(2 * p2 <= 3 * bb);
    assert(c * b2 > b2) by (nonlinear_arith)
        requires
            c > 1,
            b2 > 0,
    ;
    if a2 * b1 <= c {
        assert(2 * u2 <= 3 * (c * b2)) by (nonlinear_arith)
            requires
                2 * p2 <= 3 * bb,
                u2 == a2 * p2,
                bb == b1 * b2,
                a2 * b1 <= c,
                a2 > 0,
                b2 > 0,
        {
            assert(2 * (a2 * p2) <= 3 * (a2 * bb));
            assert(a2 * bb == (a2 * b1) * b2);
            assert((a2 * b1) * b2 <= c * b2);
        }
    }
}

/// A fraction that is no larger weighs no more: weights never reverse the order of two rates.
pub proof fn weights_follow_fractions(r1: Rate, r2: Rate)
    requires
        r1.1 > 0,
        r2.1 > 0,
        r1.0 * r2.1 <= r2.0 * r1.1,
    ensures
        fps(Some(r1)) <= fps(Some(r2)),
{
    let (n1, d1) = (r1.0 as int, r1.1 as int);
    let (n2, d2) = (r2.0 as int, r2.1 as int);
    if n1 >= 0 {
        assert(n2 >= 0) by (nonlinear_arith)
            requires
                n1 >= 0,
                d1 > 0,
                d2 > 0,
                n1 * d2 <= n2 * d1,
        ;
        lemma_quotient_monotone(n1 as nat, d1 as nat, n2 as nat, d2 as nat);
    } else if n2 < 0 {
        assert((-n2) * d1 <= (-n1) * d2) by (nonlinear_arith)
            requires
                n1 * d2 <= n2 * d1,
        ;
        lemma_quotient_monotone((-n2) as nat, d2 as nat, (-n1) as nat, d1 as nat);
    }
}

/// Rates written with numbers below `2^26` in magnitude compare exactly as the fractions do.
pub proof fn small_rates_compare_exactly(r1: Rate, r2: Rate)
    requires
        is_small(r1),
        is_small(r2),
    ensures
        fps(Some(r1)) > fps(Some(r2)) <==> r1.0 * r2.1 > r2.0 * r1.1,
{
    let (n1, d1) = (r1.0 as int, r1.1 as int);
    let (n2, d2) = (r2.0 as int, r2.1 as int);
    lemma_constants();
    if n1 * d2 <= n2 * d1 {
        weights_follow_fractions(r1, r2);
    } else if n2 >= 0 {
        assert(n1 > 0) by (nonlinear_arith)
            requires
                n2 >= 0,
                d1 > 0,
                d2 > 0,
                n1 * d2 > n2 * d1,
        ;
        assert(n2 * d1 < 4_503_599_627_370_496) by (nonlinear_arith)
            requires
                0 <= n2 < 0x400_0000,
                0 < d1 < 0x400_0000,
        ;
        lemma_quotient_strict(n1 as nat, d1 as nat, n2 as nat, d2 as nat);
    } else if n1 < 0 {
        assert((-n2) * d1 > (-n1) * d2) by (nonlinear_arith)
            requires
                n1 * d2 > n2 * d1,
        ;
        assert((-n1) * d2 < 4_503_599_627_370_496) by (nonlinear_arith)
            requires
                0 <= -n1 < 0x400_0000,
                0 < d2 < 0x400_0000,
        ;
        lemma_quotient_strict((-n2) as nat, d2 as nat, (-n1) as nat, d1 as nat);
    } else {
        assert((-n2) * 1 > 0 * d2);
        lemma_zero(d2 as nat);
        assert(0 * d2 == 0);
        assert((-n2) * d1 > 0) by (nonlinear_arith)
            requires
                n2 < 0,
                d1 > 0,
        ;
        lemma_quotient_strict((-n2) as nat, d2 as nat, 0, d1 as nat);
    }
}

/// Whether a rate is a fraction of numbers below `2^26` in magnitude.
pub open spec fn is_small(r: Rate) -> bool {
    -0x400_0000 < r.0 < 0x400_0000 && 0 < r.1 < 0x400_0000
}

/// The rate that is picked from a list of small rates is the highest fraction in it.
pub proof fn fastest_is_the_highest_fraction(rates: Seq<Option<Rate>>, best: Rate, i: int, r: Rate)
    requires
        forall|j: int|
            0 <= j < rates.len() ==> ((#[trigger] rates[j]) matches Some(s) ==> is_small(s)),
        fastest(rates) == Some(best),
        0 <= i < rates.len(),
        rates[i] == Some(r),
    ensures
        r.0 * best.1 <= best.0 * r.1,
{
    fastest_is_first_maximum(rates);
    let k = choose|k: int| 0 <= k < rates.len() && #[trigger] rates[k] == fastest(rates);
    assert(is_small(best));
    assert(fps(rates[i]) <= fps(fastest(rates)));
    small_rates_compare_exactly(r, best);
}

/// Rounding a rounded quotient to a whole number gives what rounding the exact one gives.
pub(crate) proof fn lemma_whole(a: nat, b: nat)
    requires
        a <= 0x8000_0000,
        0 < b <= 0x8000_0000,
    ensures
        (rounded_quotient(a, b) + pow2(82)) / pow2(83) == (2 * a + b) / (2 * b),
{
    reveal(rounded_quotient);
    lemma_constants();
    lemma_pow2_unfold(83);
    let u = pow2(83);
    if a == 0 {
        lemma_zero(b);
        assert((0 + b) / (2 * b) == 0) by (nonlinear_arith)
            requires
                b > 0,
        ;
    } else {
        lemma_shape(a, b);
        let e = exponent(a, b);
        let p = pow2(e);
        let w = pow2((83 - e) as nat);
        let x = a * p;
        let m = significand(a, b);
        let v = m * w;
        let c = pow2(52);
        lemma_pow2_pos(e);
        lemma_pow2_pos((83 - e) as nat);
        lemma_pow2_adds(e, (83 - e) as nat);
        lemma_nearest_even(x, b);
        assert(x * w == a * u) by (nonlinear_arith)
            requires
                x == a * p,
                u == p * w,
        ;
        assert(2 * (v * b) <= 2 * (a * u) + b * w) by (nonlinear_arith)
            requires
                2 * (m * b) <= 2 * x + b,
                v == m * w,
                x * w == a * u,
                w > 0,
        ;
        assert(2 * (v * b) >= 2 * (a * u) - b * w) by (nonlinear_arith)
            requires
                2 * (m * b) >= 2 * x - b,
                v == m * w,
                x * w == a * u,
                w > 0,
        ;
        assert(b < p) by (nonlinear_arith)
            requires
                b * c <= a * p,
                a < c,
                b > 0,
                p > 0,
        ;
        assert(b * w < u) by (nonlinear_arith)
            requires
                b < p,
                u == p * w,
                w > 0,
        ;
        let k = ((2 * a + b) / (2 * b)) as int;
        assert(2 * b * k <= 2 * a + b < 2 * b * k + 2 * b) by (nonlinear_arith)
            requires
                b > 0,
                k == (2 * a + b) / (2 * b),
        ;
        // The rounded quotient stays below k + 1/2.
        assert(2 * v < (2 * k + 1) * u) by (nonlinear_arith)
            requires
                2 * (v * b) <= 2 * (a * u) + b * w,
                b * w < u,
                2 * a + 1 <= 2 * b * k + b,
                b > 0,
                u > 0,
        {
            assert((2 * a + 1) * u <= (2 * b * k + b) * u);
            assert(2 * (v * b) < ((2 * k + 1) * u) * b);
        }
        // It reaches k - 1/2.
        if 2 * a + b == 2 * b * k {
            lemma_pow2_unfold(e);
            let h = pow2((e - 1) as nat);
            let q = (2 * k - 1) * h;
            assert((2 * k - 1) * b == 2 * b * k - b) by (nonlinear_arith);
            assert(x == q * b) by (nonlinear_arith)
                requires
                    x == a * p,
                    p == 2 * h,
                    2 * a == (2 * k - 1) * b,
                    q == (2 * k - 1) * h,
            ;
            assert(q >= 0) by (nonlinear_arith)
                requires
                    x == q * b,
                    x >= 0,
                    b > 0,
            ;
            assert(x as int / b as int == q && x as int % b as int == 0) by {
                lemma_fundamental_div_mod_converse(
                    x as int,
                    b as int,
                    q,
                    0,
                );
            }
            assert(m == q);
            assert(2 * v == (2 * k - 1) * u) by (nonlinear_arith)
                requires
                    v == m * w,
                    m == (2 * k - 1) * h,
                    u == p * w,
                    p == 2 * h,
            ;
        } else {
            assert(2 * v >= (2 * k - 1) * u) by (nonlinear_arith)
                requires
                    2 * (v * b) >= 2 * (a * u) - b * w,
                    b * w < u,
                    2 * a >= 2 * b * k - b + 1,
                    b > 0,
                    u > 0,
            {
                assert((2 * a) * u >= (2 * b * k - b + 1) * u);
                assert(2 * (v * b) >= ((2 * k - 1) * u) * b);
            }
        }
        assert((v + pow2(82)) / u == k) by {
            let r = v + pow2(82) - k * u;
            assert((2 * k + 1) * u == 2 * (k * u) + u) by (nonlinear_arith);
            assert((2 * k - 1) * u == 2 * (k * u) - u) by (nonlinear_arith);
            assert(0 <= r < u);
            lemma_fundamental_div_mod_converse(
                (v + pow2(82)) as int,
                u as int,
                k,
                r,
            );
        }
    }
}

/// The whole frames per second of a rate are those of the fraction itself, rounded with halves
/// away from zero: weighing a rate loses nothing that its label would show.
pub proof fn label_rates_are_exact(r: Rate)
    requires
        r.1 > 0,
    ensures
        r.0 >= 0 ==> whole_fps(fps(Some(r))) == (2 * r.0 + r.1) / (2 * r.1),
        r.0 < 0 ==> whole_fps(fps(Some(r))) == -((-2 * r.0 + r.1) / (2 * r.1)),
{
    let (n, d) = (r.0 as int, r.1 as int);
    if n >= 0 {
        lemma_whole(n as nat, d as nat);
    } else {
        lemma_whole((-n) as nat, d as nat);
        lemma_constants();
        lemma_pow2_unfold(83);
        if rounded_quotient((-n) as nat, d as nat) == 0 {
            assert(pow2(82) as int / pow2(83) as int == 0);
        }
    }
}

} // verus!
