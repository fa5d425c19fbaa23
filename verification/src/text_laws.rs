//! What the text building blocks give, whatever they are given.

use crate::text::{append_decimal, append_signed_decimal, char_vec, decimal, lex_less, signed_decimal, starts_with, str_eq, str_less};
use vstd::prelude::*;

verus! {

/// The number that a row of digits stands for.
pub open spec fn numeral_value(s: Seq<char>) -> int
    decreases s.len(),
{
    if s.len() == 0 {
        0
    } else {
        10 * numeral_value(s.drop_last()) + (s.last() as int - '0' as int)
    }
}

/// Whether a text is how a number is written: digits only, no zero in front of other digits.
pub open spec fn is_numeral(s: Seq<char>, n: int) -> bool {
    &&& s.len() > 0
    &&& forall|i: int| 0 <= i < s.len() ==> '0' <= #[trigger] s[i] <= '9'
    &&& s.len() > 1 ==> s[0] != '0'
    &&& numeral_value(s) == n
}

/// Whether a text is how a number is written, with a minus sign exactly below zero.
pub open spec fn is_signed_numeral(s: Seq<char>, n: int) -> bool {
    if n < 0 {
        s.len() > 0 && s[0] == '-' && is_numeral(s.skip(1), -n)
    } else {
        is_numeral(s, n)
    }
}

proof fn lemma_decimal(n: nat)
    ensures
        is_numeral(decimal(n), n as int),
        n > 0 ==> decimal(n)[0] != '0',
    decreases n,
{
    let s = decimal(n);
    if n < 10 {
        assert(s.drop_last().len() == 0);
        assert(numeral_value(s.drop_last()) == 0);
        assert(s.last() as int == 48 + n);
    } else {
        lemma_decimal(n / 10);
        assert(s.drop_last() =~= decimal(n / 10));
        assert(s.last() as int == 48 + n % 10);
        assert(s[0] == decimal(n / 10)[0]);
    }
}

/// A number is written in digits, without a zero in front, and the digits stand for that number.
pub proof fn numerals_stand_for_their_number(n: nat)
    ensures
        is_numeral(decimal(n), n as int),
{
    lemma_decimal(n);
}

/// A signed number is written with a minus sign exactly below zero.
pub proof fn signed_numerals_stand_for_their_number(n: int)
    ensures
        is_signed_numeral(signed_decimal(n), n),
{
    reveal_strlit("-");
    if n < 0 {
        lemma_decimal((-n) as nat);
        assert(signed_decimal(n).skip(1) =~= decimal((-n) as nat));
    } else {
        lemma_decimal(n as nat);
    }
}

/// Appending a number keeps what is there and adds the numeral of the number.
pub proof fn numerals_are_appended(out: &mut String, n: u64)
    requires
        call_ensures(append_decimal, (out, n), ()),
    ensures
        old(out)@.is_prefix_of(final(out)@),
        is_numeral(final(out)@.skip(old(out)@.len() as int), n as int),
{
    lemma_decimal(n as nat);
    let before = old(out)@;
    let after = final(out)@;
    assert(before =~= after.subrange(0, before.len() as int));
    assert(after.skip(before.len() as int) =~= decimal(n as nat));
}

/// Appending a signed number keeps what is there and adds the signed numeral of the number.
pub proof fn signed_numerals_are_appended(out: &mut String, n: i64)
    requires
        call_ensures(append_signed_decimal, (out, n), ()),
    ensures
        old(out)@.is_prefix_of(final(out)@),
        is_signed_numeral(final(out)@.skip(old(out)@.len() as int), n as int),
{
    signed_numerals_stand_for_their_number(n as int);
    let before = old(out)@;
    let after = final(out)@;
    assert(before =~= after.subrange(0, before.len() as int));
    assert(after.skip(before.len() as int) =~= signed_decimal(n as int));
}

/// Whether two texts agree up to a place at which the first one ends or has the lower character.
pub open spec fn parts_lower(a: Seq<char>, b: Seq<char>, k: int) -> bool {
    &&& 0 <= k <= a.len()
    &&& k < b.len()
    &&& forall|i: int| 0 <= i < k ==> #[trigger] a[i] == b[i]
    &&& k == a.len() || a[k] < b[k]
}

/// A text comes before another exactly if they agree up to a place at which it ends or has the
/// lower character.
pub proof fn order_is_lexicographic(a: Seq<char>, b: Seq<char>)
    ensures
        lex_less(a, b) <==> exists|k: int| parts_lower(a, b, k),
    decreases b.len(),
{
    if b.len() > 0 {
        if a.len() == 0 || a[0] < b[0] {
            assert(parts_lower(a, b, 0));
        } else if a[0] == b[0] {
            let x = a.drop_first();
            let y = b.drop_first();
            order_is_lexicographic(x, y);
            if lex_less(x, y) {
                let k = choose|k: int| parts_lower(x, y, k);
                assert forall|i: int| 0 <= i < k + 1 implies #[trigger] a[i] == b[i] by {
                    if i > 0 {
                        assert(x[i - 1] == y[i - 1]);
                    }
                }
                assert(parts_lower(a, b, k + 1));
            }
            if exists|k: int| parts_lower(a, b, k) {
                let k = choose|k: int| parts_lower(a, b, k);
                assert forall|i: int| 0 <= i < k - 1 implies #[trigger] x[i] == y[i] by {
                    assert(a[i + 1] == b[i + 1]);
                }
                assert(parts_lower(x, y, k - 1));
            }
        } else {
            if exists|k: int| parts_lower(a, b, k) {
                let k = choose|k: int| parts_lower(a, b, k);
                if k > 0 {
                    assert(a[0] == b[0]);
                }
            }
        }
    }
}

/// Comparing two texts follows the lexicographic order.
pub proof fn comparison_is_lexicographic(a: &str, b: &str, res: bool)
    requires
        call_ensures(str_less, (a, b), res),
    ensures
        res <==> exists|k: int| parts_lower(a@, b@, k),
{
    order_is_lexicographic(a@, b@);
}

/// Two texts are equal exactly if they have the same length and the same character at each place.
pub proof fn equality_is_by_character(a: &str, b: &str, res: bool)
    requires
        call_ensures(str_eq, (a, b), res),
    ensures
        res <==> a@.len() == b@.len() && forall|i: int| 0 <= i < a@.len() ==> a@[i] == b@[i],
{
    if a@.len() == b@.len() && forall|i: int| 0 <= i < a@.len() ==> a@[i] == b@[i] {
        assert(a@ =~= b@);
    }
}

/// A text begins with another exactly if it has the characters of the other at its first places.
pub proof fn prefixes_are_by_character(s: &str, prefix: &str, res: bool)
    requires
        call_ensures(starts_with, (s, prefix), res),
    ensures
        res <==> prefix@.len() <= s@.len() && forall|i: int|
            0 <= i < prefix@.len() ==> prefix@[i] == s@[i],
{
    if res {
        assert forall|i: int| 0 <= i < prefix@.len() implies prefix@[i] == s@[i] by {
            assert(prefix@[i] == s@.subrange(0, prefix@.len() as int)[i]);
        }
    } else if prefix@.len() <= s@.len() && forall|i: int|
        0 <= i < prefix@.len() ==> prefix@[i] == s@[i] {
        assert(prefix@ =~= s@.subrange(0, prefix@.len() as int));
    }
}

/// The characters of a text come out one for one.
pub proof fn characters_come_out_in_order(s: &str, res: Vec<char>, i: int)
    requires
        call_ensures(char_vec, (s,), res),
        0 <= i < s@.len(),
    ensures
        res@.len() == s@.len(),
        res@[i] == s@[i],
{
}

} // verus!
