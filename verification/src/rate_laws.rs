//! What weighing and choosing frame rates gives, stated over the fractions themselves.

use crate::framerate::{advertised, best_framerate, exponent, fastest_is_first_maximum, fps, fps_val, lemma_constants, lemma_zero, magnitude, rounded_fps, rounded_quotient, significand, whole_fps, FramerateField, Rate};
use crate::rate_order::{fastest_is_the_highest_fraction, is_small, lemma_nearest_even, lemma_shape, lemma_whole};
use vstd::arithmetic::power2::{lemma_pow2_adds, lemma_pow2_pos, lemma_pow2_unfold, pow2};
use vstd::prelude::*;

verus! {

/// The distance of two numbers.
pub open spec fn distance(x: int, y: int) -> int {
    if x < y {
        y - x
    } else {
        x - y
    }
}

proof fn lemma_error(a: nat, b: nat)
    requires
        a <= 0x8000_0000,
        0 < b <= 0x8000_0000,
    ensures
        distance((rounded_quotient(a, b) * b) as int, (a * pow2(83)) as int) * pow2(53) <= a * pow2(
            83,
        ),
{
    lemma_constants();
    let u = pow2(83);
    if a == 0 {
        lemma_zero(b);
        assert(0 * b == 0);
        assert(0 * u == 0);
        assert(0 * pow2(53) == 0);
    } else {
        reveal(rounded_quotient);
        lemma_shape(a, b);
        let e = exponent(a, b);
        let p = pow2(e);
        let w = pow2((83 - e) as nat);
        let x = a * p;
        let m = significand(a, b);
        let v = m * w;
        let c = pow2(52);
        let d = distance((v * b) as int, (a * u) as int);
        lemma_pow2_pos((83 - e) as nat);
        lemma_pow2_adds(e, (83 - e) as nat);
        lemma_nearest_even(x, b);
        assert(x * w == a * u) by (nonlinear_arith)
            requires
                x == a * p,
                u == p * w,
        ;
        assert(2 * (v * b) <= 2 * (a * u) + b * w) by (nonlinear_arith)
            requires
                2 * (m * b) <= 2 * x + b,
                v == m * w,
                x * w == a * u,
                w > 0,
        ;
        assert(2 * (v * b) >= 2 * (a * u) - b * w) by (nonlinear_arith)
            requires
                2 * (m * b) >= 2 * x - b,
                v == m * w,
                x * w == a * u,
                w > 0,
        ;
        assert(2 * d <= b * w);
        assert(b * c * w <= a * u) by (nonlinear_arith)
            requires
                b * c <= x,
                x * w == a * u,
                w > 0,
        ;
        assert(d * (2 * c) <= a * u) by (nonlinear_arith)
            requires
                2 * d <= b * w,
                b * c * w <= a * u,
                c > 0,
        ;
    }
}

/// A rate weighs what its fraction comes to, within the precision of a double: the weight, which
/// counts units of `2^-83`, is off by at most one part in `2^53`.
pub proof fn weights_are_fractions_in_double_precision(n: i32, d: i32, weight: i128)
    requires
        call_ensures(fps_val, (Some((n, d)),), weight),
        d != 0,
    ensures
        distance(weight * d, n * pow2(83)) * pow2(53) <= distance(n as int, 0) * pow2(83),
{
    let a = magnitude(n as int);
    let b = magnitude(d as int);
    lemma_error(a, b);
    let q = rounded_quotient(a, b);
    let u = pow2(83);
    assert(distance(weight * d, n * u) == distance((q * b) as int, (a * u) as int)) by {
        if n < 0 {
            assert(n * u == -(a * u)) by (nonlinear_arith)
                requires
                    n == -a,
            ;
            if d < 0 {
                assert(weight * d == -(q * b)) by (nonlinear_arith)
                    requires
                        d == -b,
                        weight == q,
                ;
            } else {
                assert(weight * d == -(q * b)) by (nonlinear_arith)
                    requires
                        d == b,
                        weight == -q,
                ;
            }
        } else {
            if d < 0 {
                assert(weight * d == q * b) by (nonlinear_arith)
                    requires
                        d == -b,
                        weight == -q,
                ;
            }
        }
    }
}

/// Where there is no rate, or one over zero, nothing is weighed.
pub proof fn missing_rates_weigh_nothing(rate: Option<Rate>, weight: i128)
    requires
        call_ensures(fps_val, (rate,), weight),
        rate matches Some((n, d)) ==> d == 0,
    ensures
        weight == 0,
{
}

/// Weighing gives the very weight by which rates are ranked.
pub proof fn rates_are_ranked_by_weight(rate: Option<Rate>, weight: i128)
    requires
        call_ensures(fps_val, (rate,), weight),
    ensures
        weight == fps(rate),
{
}

/// Whether a whole number is nearest to a fraction, the one farther from zero of two.
pub open spec fn is_nearest_whole(k: int, n: int, d: int) -> bool {
    &&& 2 * distance(k * d, n) <= distance(d, 0)
    &&& 2 * distance(k * d, n) == distance(d, 0) ==> distance(k * d, 0) > distance(n, 0)
}

/// The quotient that rounds half up is the nearest whole number.
proof fn lemma_nearest_whole(a: int, b: int, k: int)
    requires
        a >= 0,
        b > 0,
        k == (2 * a + b) / (2 * b),
    ensures
        is_nearest_whole(k, a, b),
        k >= 0,
{
    assert(2 * b * k <= 2 * a + b < 2 * b * k + 2 * b) by (nonlinear_arith)
        requires
            b > 0,
            k == (2 * a + b) / (2 * b),
    ;
    assert(2 * b * k == 2 * (k * b)) by (nonlinear_arith);
    assert(k >= 0) by (nonlinear_arith)
        requires
            a >= 0,
            b > 0,
            k == (2 * a + b) / (2 * b),
    ;
    assert(k * b >= 0) by (nonlinear_arith)
        requires
            k >= 0,
            b > 0,
    ;
}

pub(crate) proof fn lemma_whole_rate(n: i32, d: i32)
    requires
        d != 0,
    ensures
        is_nearest_whole(whole_fps(fps(Some((n, d)))), n as int, d as int),
{
    let k = whole_fps(fps(Some((n, d))));
    let a = magnitude(n as int);
    let b = magnitude(d as int);
    let whole = ((2 * a + b) / (2 * b)) as int;
    lemma_whole(a, b);
    lemma_constants();
    lemma_pow2_unfold(83);
    lemma_nearest_whole(a as int, b as int, whole);
    let q = rounded_quotient(a, b);
    if q == 0 {
        assert(pow2(82) as int / pow2(83) as int == 0);
    }
    if (n < 0) == (d < 0) {
        assert(k == whole);
        if d < 0 {
            assert(k * d == -(whole * b)) by (nonlinear_arith)
                requires
                    k == whole,
                    d == -b,
            ;
        }
    } else {
        assert(k == -whole);
        if d < 0 {
            assert(k * d == whole * b) by (nonlinear_arith)
                requires
                    k == -whole,
                    d == -b,
            ;
        } else {
            assert(k * d == -(whole * b)) by (nonlinear_arith)
                requires
                    k == -whole,
                    d == b,
            ;
        }
    }
}

/// A rate in whole frames per second is the whole number nearest to its fraction, halves away from
/// zero, and zero where there is no fraction.
pub proof fn whole_rates_are_nearest(rate: Option<Rate>, k: i64)
    requires
        call_ensures(rounded_fps, (rate,), k),
    ensures
        rate matches Some((n, d)) ==> if d == 0 {
            k == 0
        } else {
            is_nearest_whole(k as int, n as int, d as int)
        },
        rate is None ==> k == 0,
{
    lemma_constants();
    lemma_pow2_unfold(83);
    if let Some((n, d)) = rate {
        if d != 0 {
            lemma_whole_rate(n, d);
        }
    }
}

/// What is advertised by a list is not exceeded by any of its rates, and nothing is advertised
/// only where none of them is above zero.
pub proof fn lists_advertise_their_fastest_rate(rates: Vec<Option<Rate>>)
    ensures
        forall|i: int|
            0 <= i < rates@.len() ==> fps(#[trigger] rates@[i]) <= fps(
                advertised(FramerateField::List(rates)),
            ),
        advertised(FramerateField::List(rates)) is None <==> forall|i: int|
            0 <= i < rates@.len() ==> fps(#[trigger] rates@[i]) <= 0,
        advertised(FramerateField::List(rates)) is Some ==> exists|i: int|
            0 <= i < rates@.len() && #[trigger] rates@[i] == advertised(FramerateField::List(rates))
                && forall|j: int| 0 <= j < i ==> fps(#[trigger] rates@[j]) < fps(rates@[i]),
{
    fastest_is_first_maximum(rates@);
}

/// A single fraction is advertised as it is, a range by its upper end, and what cannot be read not
/// at all.
pub proof fn single_rates_are_advertised(rate: Rate)
    ensures
        advertised(FramerateField::Fraction(rate)) == Some(rate),
        advertised(FramerateField::Range { max: rate }) == Some(rate),
        advertised(FramerateField::Unreadable) is None,
{
}

/// The rate that is picked from a list weighs at least as much as every element, from the first to
/// the last. It is an element of the list, the first of those that weigh as much, and none is
/// picked only where no element weighs more than zero.
pub proof fn the_best_of_a_list_is_the_fastest(rates: Vec<Option<Rate>>, best: Option<Rate>)
    requires
        call_ensures(best_framerate, (&FramerateField::List(rates),), best),
    ensures
        forall|i: int| 0 <= i < rates@.len() ==> fps(#[trigger] rates@[i]) <= fps(best),
        best is None <==> forall|i: int| 0 <= i < rates@.len() ==> fps(#[trigger] rates@[i]) <= 0,
        best is Some ==> exists|i: int|
            0 <= i < rates@.len() && #[trigger] rates@[i] == best && forall|j: int|
                0 <= j < i ==> fps(#[trigger] rates@[j]) < fps(best),
{
    lists_advertise_their_fastest_rate(rates);
}

/// Of rates that are written in small numbers, the one that is picked is the highest fraction of
/// the list.
pub proof fn the_best_of_a_list_is_the_highest_fraction(
    rates: Vec<Option<Rate>>,
    best: Rate,
    i: int,
    rate: Rate,
)
    requires
        call_ensures(best_framerate, (&FramerateField::List(rates),), Some(best)),
        forall|j: int|
            0 <= j < rates@.len() ==> ((#[trigger] rates@[j]) matches Some(s) ==> is_small(s)),
        0 <= i < rates@.len(),
        rates@[i] == Some(rate),
    ensures
        rate.0 * best.1 <= best.0 * rate.1,
{
    fastest_is_the_highest_fraction(rates@, best, i, rate);
}

/// A single fraction is picked as it is, a range by its upper end, and nothing where nothing can
/// be read.
pub proof fn the_best_of_one_is_that_one(
    rate: Rate,
    single: Option<Rate>,
    range: Option<Rate>,
    unread: Option<Rate>,
)
    requires
        call_ensures(best_framerate, (&FramerateField::Fraction(rate),), single),
        call_ensures(best_framerate, (&FramerateField::Range { max: rate },), range),
        call_ensures(best_framerate, (&FramerateField::Unreadable,), unread),
    ensures
        single == Some(rate),
        range == Some(rate),
        unread is None,
{
}

} // verus!
