//! Frame rates: how two advertised rates compare, and which of several is the fastest.
//!
//! A rate `n/d` is weighed as the nearest double-precision number, ties to even. Such a number
//! has 53 significant bits, so it is a whole number of units of `2^-83` frames per second, and
//! everything here is integer arithmetic in that unit.

use vstd::arithmetic::power2::{lemma2_to64, lemma2_to64_rest, lemma_pow2_adds, lemma_pow2_pos, lemma_pow2_strictly_increases, lemma_pow2_unfold, pow2};
use vstd::prelude::*;

verus! {

/// A frame rate as numerator and denominator.
pub type Rate = (i32, i32);

/// The number of doublings that bring `x` to at least `y`.
pub open spec fn doublings(x: nat, y: nat) -> nat
    decreases
            (if x < y {
                y - x
            } else {
                0
            }),
{
    if 0 < x < y {
        1 + doublings(2 * x, y)
    } else {
        0
    }
}

/// The whole number nearest to `x / y`, the even one of two that are equally near.
pub open spec fn nearest_even(x: nat, y: nat) -> nat {
    let q = x / y;
    let r = x % y;
    if 2 * r < y || (2 * r == y && q % 2 == 0) {
        q
    } else {
        q + 1
    }
}

/// How far `a / b` is scaled up, in powers of two, so that its whole part has 53 bits.
pub open spec fn exponent(a: nat, b: nat) -> nat {
    doublings(a, b * pow2(52))
}

/// The 53-bit significand of `a / b`, scaled up by `exponent`.
pub open spec fn significand(a: nat, b: nat) -> nat {
    nearest_even(a * pow2(exponent(a, b)), b)
}

/// `a / b` rounded to double precision, in units of `2^-83`.
#[verifier::opaque]
pub open spec fn rounded_quotient(a: nat, b: nat) -> nat {
    significand(a, b) * pow2((83 - exponent(a, b)) as nat)
}

/// The absolute value of a number.
pub open spec fn magnitude(n: int) -> nat {
    if n < 0 {
        (-n) as nat
    } else {
        n as nat
    }
}

/// What a rate weighs: its double-precision value in units of `2^-83` frames per second, and
/// zero where there is no rate or its denominator is zero.
pub open spec fn fps(fr: Option<Rate>) -> int {
    match fr {
        Some((n, d)) => if d == 0 {
            0
        } else if (n < 0) == (d < 0) {
            rounded_quotient(magnitude(n as int), magnitude(d as int)) as int
        } else {
            -rounded_quotient(magnitude(n as int), magnitude(d as int))
        },
        None => 0,
    }
}

/// The powers of two that bound rates, significands and weights.
pub(crate) proof fn lemma_constants()
    ensures
        pow2(26) == 0x400_0000,
        pow2(31) == 0x8000_0000,
        pow2(52) == 4_503_599_627_370_496,
        pow2(53) == 9_007_199_254_740_992,
        pow2(83) == 9_671_406_556_917_033_397_649_408,
{
    lemma2_to64();
    lemma2_to64_rest();
    lemma_pow2_adds(52, 31);
}

/// Nothing weighs nothing.
pub(crate) proof fn lemma_zero(b: nat)
    requires
        b > 0,
    ensures
        rounded_quotient(0, b) == 0,
{
    reveal(rounded_quotient);
    assert(0 * pow2(0) == 0);
    assert(nearest_even(0, b) == 0) by (nonlinear_arith)
        requires
            b > 0,
    ;
    assert(0 * pow2(83) == 0);
}

fn quotient(a: u64, b: u64) -> (res: i128)
    requires
        a <= 0x8000_0000,
        0 < b <= 0x8000_0000,
    ensures
        res == rounded_quotient(a as nat, b as nat),
        0 <= res <= 0x8000_0001 * pow2(83),
{
    proof {
        reveal(rounded_quotient);
        lemma_constants();
        lemma2_to64();
    }
    if a == 0 {
        proof {
            lemma_zero(b as nat);
        }
        return 0;
    }
    let y: u128 = (b as u128) * 4_503_599_627_370_496;
    let mut x: u128 = a as u128;
    let mut w: u128 = 9_671_406_556_917_033_397_649_408;
    let ghost mut e: nat = 0;
    while x < y
        invariant
            0 < a <= 0x8000_0000,
            0 < b <= 0x8000_0000,
            y == b * pow2(52),
            pow2(52) == 4_503_599_627_370_496,
            pow2(83) == 9_671_406_556_917_033_397_649_408,
            e <= 83,
            x == a * pow2(e),
            w == pow2((83 - e) as nat),
            x < 2 * y || e == 0,
            exponent(a as nat, b as nat) == e + doublings(x as nat, y as nat),
        decreases 83 - e,
    {
        proof {
            lemma_pow2_pos(e);
            assert(pow2(e) <= x) by (nonlinear_arith)
                requires
                    x == a * pow2(e),
                    a > 0,
                    pow2(e) > 0,
            ;
            if e >= 83 {
                if e > 83 {
                    lemma_pow2_strictly_increases(83, e);
                }
            }
            assert(e < 83);
            lemma_pow2_unfold(e + 1);
            lemma_pow2_unfold((83 - e) as nat);
            assert(a * pow2(e + 1) == 2 * (a * pow2(e))) by (nonlinear_arith)
                requires
                    pow2(e + 1) == 2 * pow2(e),
            ;
            assert(x > 0);
        }
        x = x * 2;
        w = w / 2;
        proof {
            e = e + 1;
        }
    }
    proof {
        lemma_pow2_adds(e, (83 - e) as nat);
        lemma_pow2_pos((83 - e) as nat);
        assert(x * w == a * pow2(83)) by (nonlinear_arith)
            requires
                x == a * pow2(e),
                w == pow2((83 - e) as nat),
                pow2(83) == pow2(e) * pow2((83 - e) as nat),
        ;
    }
    let q: u128 = x / (b as u128);
    let r: u128 = x % (b as u128);
    assert(q * b <= x) by (nonlinear_arith)
        requires
            q == x / (b as u128),
            b > 0,
    ;
    assert(q * w <= a * pow2(83)) by (nonlinear_arith)
        requires
            q * b <= x,
            b >= 1,
            x * w == a * pow2(83),
            q >= 0,
            w >= 0,
    ;
    assert(r < b) by (nonlinear_arith)
        requires
            r == x % (b as u128),
            b > 0,
    ;
    assert(w <= pow2(83)) by {
        if e > 0 {
            lemma_pow2_strictly_increases((83 - e) as nat, 83);
        }
    }
    assert(q <= x) by (nonlinear_arith)
        requires
            q * b <= x,
            b >= 1,
            q >= 0,
    ;
    let m: u128 = if 2 * r < b as u128 || (2 * r == b as u128 && q % 2 == 0) {
        q
    } else {
        q + 1
    };
    assert(m * w <= q * w + w) by (nonlinear_arith)
        requires
            m <= q + 1,
            w >= 0,
    ;
    assert(a * pow2(83) + pow2(83) <= 0x8000_0001 * pow2(83)) by (nonlinear_arith)
        requires
            a <= 0x8000_0000,
            pow2(83) >= 0,
    ;
    (m * w) as i128
}

/// What a rate weighs when rates are compared.
pub fn fps_val(fr: Option<Rate>) -> (res: i128)
    ensures
        res == fps(fr),
        -0x8000_0001 * pow2(83) <= res <= 0x8000_0001 * pow2(83),
{
    proof {
        lemma_pow2_pos(83);
    }
    match fr {
        Some((n, d)) => {
            if d == 0 {
                return 0;
            }
            let a: u64 = if n < 0 {
                (-(n as i64)) as u64
            } else {
                n as u64
            };
            let b: u64 = if d < 0 {
                (-(d as i64)) as u64
            } else {
                d as u64
            };
            let v: i128 = quotient(a, b);
            if (n < 0) == (d < 0) {
                v
            } else {
                -v
            }
        },
        None => 0,
    }
}

/// A weight rounded to whole frames per second, halves away from zero.
pub open spec fn whole_fps(weight: int) -> int {
    if weight < 0 {
        -((-weight + pow2(82)) / pow2(83) as int)
    } else {
        (weight + pow2(82)) / pow2(83) as int
    }
}

/// A rate in whole frames per second, halves away from zero.
pub fn rounded_fps(fr: Option<Rate>) -> (res: i64)
    ensures
        res == whole_fps(fps(fr)),
{
    proof {
        lemma_constants();
        lemma_pow2_unfold(83);
    }
    let v: i128 = fps_val(fr);
    let half: i128 = 4_835_703_278_458_516_698_824_704;
    let one: i128 = 9_671_406_556_917_033_397_649_408;
    if v < 0 {
        -(((-v + half) / one) as i64)
    } else {
        ((v + half) / one) as i64
    }
}

/// What a device says of its frame rate in one capability structure.
pub enum FramerateField {
    /// A single fraction.
    Fraction(Rate),
    /// A list; `None` stands for an element that is not a fraction.
    List(Vec<Option<Rate>>),
    /// A range of fractions, of which only the upper end matters.
    Range {
        max: Rate,
    },
    /// No frame rate, or one of a type that cannot be read.
    Unreadable,
}

/// The first of the fastest rates of a list, or none if no rate is above zero.
pub open spec fn fastest(rates: Seq<Option<Rate>>) -> Option<Rate>
    decreases rates.len(),
{
    if rates.len() == 0 {
        None
    } else {
        let best = fastest(rates.drop_last());
        if fps(rates.last()) > fps(best) {
            rates.last()
        } else {
            best
        }
    }
}

/// The highest frame rate that a capability structure advertises.
pub open spec fn advertised(field: FramerateField) -> Option<Rate> {
    match field {
        FramerateField::Fraction(rate) => Some(rate),
        FramerateField::List(rates) => fastest(rates@),
        FramerateField::Range { max } => Some(max),
        FramerateField::Unreadable => None,
    }
}

/// The highest frame rate that a capability structure advertises: the fraction itself, the first
/// of the fastest in a list, or the upper end of a range.
pub fn best_framerate(field: &FramerateField) -> (res: Option<Rate>)
    ensures
        res == advertised(*field),
{
    match field {
        FramerateField::Fraction(rate) => Some(*rate),
        FramerateField::List(rates) => {
            let mut best: Option<Rate> = None;
            let mut i: usize = 0;
            while i < rates.len()
                invariant
                    i <= rates.len(),
                    best == fastest(rates@.take(i as int)),
                decreases rates.len() - i,
            {
                proof {
                    assert(rates@.take(i + 1).drop_last() =~= rates@.take(i as int));
                }
                let cand: Option<Rate> = rates[i];
                if fps_val(cand) > fps_val(best) {
                    best = cand;
                }
                i = i + 1;
            }
            assert(rates@.take(rates.len() as int) =~= rates@);
            best
        },
        FramerateField::Range { max } => Some(*max),
        FramerateField::Unreadable => None,
    }
}

/// What `fastest` picks: nothing where no rate of the list is above zero; else a rate of the
/// list, above zero, that no other exceeds and that every earlier one falls short of.
pub proof fn fastest_is_first_maximum(rates: Seq<Option<Rate>>)
    ensures
        fastest(rates) is None <==> forall|i: int|
            0 <= i < rates.len() ==> fps(#[trigger] rates[i]) <= 0,
        fastest(rates) is Some ==> {
            &&& fps(fastest(rates)) > 0
            &&& exists|i: int|
                0 <= i < rates.len() && #[trigger] rates[i] == fastest(rates) && forall|j: int|
                    0 <= j < i ==> fps(#[trigger] rates[j]) < fps(fastest(rates))
        },
        forall|i: int|
            0 <= i < rates.len() ==> fps(#[trigger] rates[i]) <= fps(fastest(rates)),
    decreases rates.len(),
{
    if rates.len() > 0 {
        let init = rates.drop_last();
        fastest_is_first_maximum(init);
        let n = rates.len() - 1;
        assert(forall|i: int| 0 <= i < n ==> init[i] == rates[i]);
        if fps(rates.last()) > fps(fastest(init)) {
            assert(rates[n] == fastest(rates));
            assert(fps(fastest(init)) >= 0);
            assert forall|j: int| 0 <= j < n implies fps(#[trigger] rates[j]) < fps(
                fastest(rates),
            ) by {
                assert(fps(init[j]) <= fps(fastest(init)));
            }
        } else {
            if fastest(init) is Some {
                let k = choose|i: int|
                    0 <= i < init.len() && #[trigger] init[i] == fastest(init) && forall|j: int|
                        0 <= j < i ==> fps(#[trigger] init[j]) < fps(fastest(init));
                assert(rates[k] == fastest(rates));
                assert forall|j: int| 0 <= j < k implies fps(#[trigger] rates[j]) < fps(
                    fastest(rates),
                ) by {
                    assert(init[j] == rates[j]);
                }
            } else {
                assert forall|i: int| 0 <= i < rates.len() implies fps(#[trigger] rates[i])
                    <= 0 by {
                    if i < n {
                        assert(init[i] == rates[i]);
                    }
                }
            }
        }
    }
}

} // verus!
