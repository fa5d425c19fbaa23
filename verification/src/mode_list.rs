//! From the capabilities of a device to the list of modes it offers.

use crate::framerate::{advertised, best_framerate, fastest, fastest_is_first_maximum, fps, fps_val, FramerateField, Rate};
use crate::mode::Mode;
use crate::text::{lex_less, lex_less_asymmetric, lex_less_transitive, str_eq, str_less};
use vstd::prelude::*;

verus! {

/// One capability structure of a device: a media type with what could be read of its size and
/// frame rate.
pub struct CapsStructure {
    pub name: String,
    pub width: Option<i32>,
    pub height: Option<i32>,
    pub framerate: FramerateField,
}

/// What tells two modes apart: width, height and media type.
pub type ModeKey = (int, int, Seq<char>);

/// Whether a structure describes a mode: raw or JPEG video of a definite, positive size.
pub open spec fn offers(c: CapsStructure) -> bool {
    &&& c.name@ == "video/x-raw"@ || c.name@ == "image/jpeg"@
    &&& c.width matches Some(w) && w > 0
    &&& c.height matches Some(h) && h > 0
}

/// The mode that a structure describes.
pub open spec fn caps_key(c: CapsStructure) -> ModeKey {
    (c.width->0 as int, c.height->0 as int, c.name@)
}

/// What tells a mode apart from others.
pub open spec fn mode_key(m: Mode) -> ModeKey {
    (m.width as int, m.height as int, m.media_type@)
}

/// The rates that the structures advertise for a mode, one place for each structure.
pub open spec fn rates_at(caps: Seq<CapsStructure>, key: ModeKey) -> Seq<Option<Rate>> {
    Seq::new(
        caps.len(),
        |i: int|
            if offers(caps[i]) && caps_key(caps[i]) == key {
                advertised(caps[i].framerate)
            } else {
                None
            },
    )
}

/// How many pixels a picture in a mode has.
pub open spec fn area(m: Mode) -> int {
    m.width * m.height
}

/// Whether a mode comes before another: larger pictures first, then the later media type.
pub open spec fn outranks(a: Mode, b: Mode) -> bool {
    area(a) > area(b) || (area(a) == area(b) && lex_less(b.media_type@, a.media_type@))
}

/// Whether some structure offers the mode of this key.
pub open spec fn offered(caps: Seq<CapsStructure>, key: ModeKey) -> bool {
    exists|j: int| 0 <= j < caps.len() && offers(#[trigger] caps[j]) && caps_key(caps[j]) == key
}

/// Whether the list holds a mode of this key.
pub open spec fn listed(modes: Seq<Mode>, key: ModeKey) -> bool {
    exists|i: int| 0 <= i < modes.len() && mode_key(#[trigger] modes[i]) == key
}

/// The modes that a device's capabilities amount to: each offered size and media type once, with
/// its fastest rate, the largest first.
pub open spec fn is_mode_list(caps: Seq<CapsStructure>, modes: Seq<Mode>) -> bool {
    &&& forall|key: ModeKey| #[trigger] listed(modes, key) <==> offered(caps, key)
    &&& forall|i: int, j: int|
        0 <= i < j < modes.len() ==> mode_key(#[trigger] modes[i]) != mode_key(#[trigger] modes[j])
    &&& forall|i: int|
        0 <= i < modes.len() ==> (#[trigger] modes[i]).framerate == fastest(
            rates_at(caps, mode_key(modes[i])),
        )
    &&& forall|i: int, j: int|
        0 <= i < j < modes.len() ==> !outranks(#[trigger] modes[j], #[trigger] modes[i])
}

/// The structures of a device, none where it has no capabilities.
pub open spec fn caps_of(caps: Option<Vec<CapsStructure>>) -> Seq<CapsStructure> {
    match caps {
        Some(list) => list@,
        None => Seq::empty(),
    }
}

proof fn lemma_outranks_asymmetric(a: Mode, b: Mode)
    requires
        outranks(a, b),
    ensures
        !outranks(b, a),
{
    if area(a) == area(b) {
        lex_less_asymmetric(b.media_type@, a.media_type@);
    }
}

proof fn lemma_outranks_transitive(a: Mode, b: Mode, c: Mode)
    requires
        outranks(a, b),
        outranks(b, c),
    ensures
        outranks(a, c),
{
    if area(a) == area(b) && area(b) == area(c) {
        lex_less_transitive(c.media_type@, b.media_type@, a.media_type@);
    }
}

/// One more structure adds one more rate at the end.
proof fn lemma_rates_step(caps: Seq<CapsStructure>, n: int, key: ModeKey)
    requires
        0 <= n < caps.len(),
    ensures
        rates_at(caps.take(n + 1), key).drop_last() == rates_at(caps.take(n), key),
        rates_at(caps.take(n + 1), key).last() == if offers(caps[n]) && caps_key(caps[n]) == key {
            advertised(caps[n].framerate)
        } else {
            None
        },
        offered(caps.take(n + 1), key) <==> offered(caps.take(n), key) || (offers(caps[n])
            && caps_key(caps[n]) == key),
{
    let more = caps.take(n + 1);
    let less = caps.take(n);
    assert(rates_at(more, key).drop_last() =~= rates_at(less, key));
    assert(more[n] == caps[n]);
    if offered(less, key) {
        let j = choose|j: int|
            0 <= j < less.len() && offers(#[trigger] less[j]) && caps_key(less[j]) == key;
        assert(more[j] == less[j]);
    }
    if offered(more, key) {
        let j = choose|j: int|
            0 <= j < more.len() && offers(#[trigger] more[j]) && caps_key(more[j]) == key;
        if j < n {
            assert(less[j] == more[j]);
        }
    }
}

/// A structure that says nothing of a mode leaves its fastest rate as it was.
proof fn lemma_fastest_unchanged(caps: Seq<CapsStructure>, n: int, key: ModeKey)
    requires
        0 <= n < caps.len(),
        !(offers(caps[n]) && caps_key(caps[n]) == key),
    ensures
        fastest(rates_at(caps.take(n + 1), key)) == fastest(rates_at(caps.take(n), key)),
{
    lemma_rates_step(caps, n, key);
    fastest_is_first_maximum(rates_at(caps.take(n), key));
}

/// A mode that nothing offers has no rate.
proof fn lemma_fastest_absent(caps: Seq<CapsStructure>, key: ModeKey)
    requires
        !offered(caps, key),
    ensures
        fastest(rates_at(caps, key)) is None,
{
    let rates = rates_at(caps, key);
    fastest_is_first_maximum(rates);
    assert forall|i: int| 0 <= i < rates.len() implies fps(#[trigger] rates[i]) <= 0 by {
        if offers(caps[i]) && caps_key(caps[i]) == key {
            assert(offered(caps, key));
        }
    }
}

/// A structure that offers nothing leaves the list as it is.
proof fn lemma_skip(caps: Seq<CapsStructure>, n: int, modes: Seq<Mode>)
    requires
        0 <= n < caps.len(),
        is_mode_list(caps.take(n), modes),
        !offers(caps[n]),
    ensures
        is_mode_list(caps.take(n + 1), modes),
{
    assert forall|key: ModeKey| #[trigger] listed(modes, key) <==> offered(
        caps.take(n + 1),
        key,
    ) by {
        lemma_rates_step(caps, n, key);
    }
    assert forall|i: int| 0 <= i < modes.len() implies (#[trigger] modes[i]).framerate == fastest(
        rates_at(caps.take(n + 1), mode_key(modes[i])),
    ) by {
        lemma_fastest_unchanged(caps, n, mode_key(modes[i]));
    }
}

/// A structure for a listed mode keeps the faster of the two rates.
proof fn lemma_update(caps: Seq<CapsStructure>, n: int, modes: Seq<Mode>, k: int, better: Mode)
    requires
        0 <= n < caps.len(),
        is_mode_list(caps.take(n), modes),
        offers(caps[n]),
        0 <= k < modes.len(),
        mode_key(modes[k]) == caps_key(caps[n]),
        mode_key(better) == mode_key(modes[k]),
        better.framerate == if fps(advertised(caps[n].framerate)) > fps(modes[k].framerate) {
            advertised(caps[n].framerate)
        } else {
            modes[k].framerate
        },
    ensures
        is_mode_list(caps.take(n + 1), modes.update(k, better)),
{
    let after = modes.update(k, better);
    assert(forall|i: int|
        0 <= i < modes.len() ==> mode_key(#[trigger] after[i]) == mode_key(modes[i]));
    assert forall|key: ModeKey| #[trigger] listed(after, key) <==> offered(
        caps.take(n + 1),
        key,
    ) by {
        lemma_rates_step(caps, n, key);
        if listed(modes, key) {
            let i = choose|i: int| 0 <= i < modes.len() && mode_key(#[trigger] modes[i]) == key;
            assert(mode_key(after[i]) == key);
        }
        if listed(after, key) {
            let i = choose|i: int| 0 <= i < after.len() && mode_key(#[trigger] after[i]) == key;
            assert(mode_key(modes[i]) == key);
            assert(listed(modes, key));
        }
        if key == caps_key(caps[n]) {
            assert(mode_key(after[k]) == key);
        }
    }
    assert forall|i: int| 0 <= i < after.len() implies (#[trigger] after[i]).framerate == fastest(
        rates_at(caps.take(n + 1), mode_key(after[i])),
    ) by {
        if i == k {
            lemma_rates_step(caps, n, mode_key(modes[k]));
        } else {
            if i < k {
                assert(mode_key(modes[i]) != mode_key(modes[k]));
            } else {
                assert(mode_key(modes[k]) != mode_key(modes[i]));
            }
            lemma_fastest_unchanged(caps, n, mode_key(modes[i]));
        }
    }
    assert forall|i: int, j: int| 0 <= i < j < after.len() implies mode_key(#[trigger] after[i])
        != mode_key(#[trigger] after[j]) by {
        assert(mode_key(modes[i]) != mode_key(modes[j]));
    }
    assert forall|i: int, j: int| 0 <= i < j < after.len() implies !outranks(
        #[trigger] after[j],
        #[trigger] after[i],
    ) by {
        assert(!outranks(modes[j], modes[i]));
    }
}

/// A structure for a new mode puts it before the first mode that it outranks.
proof fn lemma_insert(caps: Seq<CapsStructure>, n: int, modes: Seq<Mode>, p: int, fresh: Mode)
    requires
        0 <= n < caps.len(),
        is_mode_list(caps.take(n), modes),
        offers(caps[n]),
        !listed(modes, caps_key(caps[n])),
        mode_key(fresh) == caps_key(caps[n]),
        fresh.framerate == if fps(advertised(caps[n].framerate)) > 0 {
            advertised(caps[n].framerate)
        } else {
            None
        },
        0 <= p <= modes.len(),
        forall|i: int| 0 <= i < p ==> !outranks(fresh, #[trigger] modes[i]),
        p < modes.len() ==> outranks(fresh, modes[p]),
    ensures
        is_mode_list(caps.take(n + 1), modes.insert(p, fresh)),
{
    let after = modes.insert(p, fresh);
    let new_key = caps_key(caps[n]);
    assert(forall|i: int| 0 <= i < p ==> #[trigger] after[i] == modes[i]);
    assert(after[p] == fresh);
    assert(forall|i: int| p < i < after.len() ==> #[trigger] after[i] == modes[i - 1]);
    assert forall|key: ModeKey| #[trigger] listed(after, key) <==> offered(
        caps.take(n + 1),
        key,
    ) by {
        lemma_rates_step(caps, n, key);
        if listed(modes, key) {
            let i = choose|i: int| 0 <= i < modes.len() && mode_key(#[trigger] modes[i]) == key;
            if i < p {
                assert(after[i] == modes[i]);
            } else {
                assert(after[i + 1] == modes[i]);
            }
        }
        if listed(after, key) && key != new_key {
            let i = choose|i: int| 0 <= i < after.len() && mode_key(#[trigger] after[i]) == key;
            if i < p {
                assert(mode_key(modes[i]) == key);
            } else {
                assert(mode_key(modes[i - 1]) == key);
            }
            assert(listed(modes, key));
        }
        if key == new_key {
            assert(mode_key(after[p]) == key);
        }
    }
    assert(forall|i: int| 0 <= i < modes.len() ==> mode_key(#[trigger] modes[i]) != new_key);
    assert forall|i: int| 0 <= i < after.len() implies (#[trigger] after[i]).framerate == fastest(
        rates_at(caps.take(n + 1), mode_key(after[i])),
    ) by {
        if i == p {
            lemma_rates_step(caps, n, new_key);
            lemma_fastest_absent(caps.take(n), new_key);
        } else {
            let m = if i < p {
                modes[i]
            } else {
                modes[i - 1]
            };
            lemma_fastest_unchanged(caps, n, mode_key(m));
        }
    }
    assert forall|i: int, j: int| 0 <= i < j < after.len() implies mode_key(#[trigger] after[i])
        != mode_key(#[trigger] after[j]) by {
        if i != p && j != p {
            let i0 = if i < p {
                i
            } else {
                i - 1
            };
            let j0 = if j < p {
                j
            } else {
                j - 1
            };
            assert(mode_key(modes[i0]) != mode_key(modes[j0]));
        }
    }
    assert forall|i: int, j: int| 0 <= i < j < after.len() implies !outranks(
        #[trigger] after[j],
        #[trigger] after[i],
    ) by {
        if i == p {
            let m = modes[j - 1];
            if outranks(m, fresh) {
                if j - 1 == p {
                    lemma_outranks_asymmetric(fresh, m);
                } else {
                    lemma_outranks_transitive(m, fresh, modes[p]);
                }
            }
        } else if j == p {
            assert(!outranks(fresh, modes[i]));
        } else {
            let i0 = if i < p {
                i
            } else {
                i - 1
            };
            let j0 = if j < p {
                j
            } else {
                j - 1
            };
            assert(!outranks(modes[j0], modes[i0]));
        }
    }
}

fn mode_area(m: &Mode) -> (res: u64)
    ensures
        res == area(*m),
{
    assert(m.width * m.height <= 0xffff_ffff * 0xffff_ffff) by (nonlinear_arith)
        requires
            m.width <= 0xffff_ffff,
            m.height <= 0xffff_ffff,
    ;
    (m.width as u64) * (m.height as u64)
}

fn mode_outranks(a: &Mode, b: &Mode) -> (res: bool)
    ensures
        res == outranks(*a, *b),
{
    let left: u64 = mode_area(a);
    let right: u64 = mode_area(b);
    left > right || (left == right && str_less(b.media_type.as_str(), a.media_type.as_str()))
}

/// The place of a mode in the list.
fn find_mode(modes: &Vec<Mode>, width: u32, height: u32, media_type: &str) -> (res: Option<usize>)
    ensures
        match res {
            Some(k) => k < modes.len() && mode_key(modes@[k as int]) == (
                width as int,
                height as int,
                media_type@,
            ),
            None => !listed(modes@, (width as int, height as int, media_type@)),
        },
{
    let mut k: usize = 0;
    while k < modes.len()
        invariant
            k <= modes.len(),
            forall|i: int|
                0 <= i < k ==> mode_key(#[trigger] modes@[i]) != (
                    width as int,
                    height as int,
                    media_type@,
                ),
        decreases modes.len() - k,
    {
        if modes[k].width == width && modes[k].height == height && str_eq(
            modes[k].media_type.as_str(),
            media_type,
        ) {
            return Some(k);
        }
        k = k + 1;
    }
    None
}

/// The place where a new mode belongs: before the first mode that it outranks.
fn rank_of(modes: &Vec<Mode>, fresh: &Mode) -> (p: usize)
    ensures
        p <= modes.len(),
        forall|i: int| 0 <= i < p ==> !outranks(*fresh, #[trigger] modes@[i]),
        p < modes.len() ==> outranks(*fresh, modes@[p as int]),
{
    let mut p: usize = 0;
    while p < modes.len() && !mode_outranks(fresh, &modes[p])
        invariant
            p <= modes.len(),
            forall|i: int| 0 <= i < p ==> !outranks(*fresh, #[trigger] modes@[i]),
        decreases modes.len() - p,
    {
        p = p + 1;
    }
    p
}

/// Collapses a device's capabilities into a largest-first list of modes without duplicates: one
/// mode for each size and media type, with the highest frame rate. The order among modes of equal
/// area and media type is not fixed.
pub fn extract_modes(caps: &Option<Vec<CapsStructure>>) -> (modes: Vec<Mode>)
    ensures
        is_mode_list(caps_of(*caps), modes@),
{
    let mut modes: Vec<Mode> = Vec::new();
    match caps {
        None => {
            assert forall|key: ModeKey| #[trigger] listed(modes@, key) <==> offered(
                caps_of(*caps),
                key,
            ) by {}
            modes
        },
        Some(list) => {
            let mut n: usize = 0;
            assert forall|key: ModeKey| #[trigger] listed(modes@, key) <==> offered(
                list@.take(0),
                key,
            ) by {}
            while n < list.len()
                invariant
                    n <= list.len(),
                    is_mode_list(list@.take(n as int), modes@),
                decreases list.len() - n,
            {
                let c: &CapsStructure = &list[n];
                let known: bool = str_eq(c.name.as_str(), "video/x-raw") || str_eq(
                    c.name.as_str(),
                    "image/jpeg",
                );
                match (c.width, c.height) {
                    (Some(w), Some(h)) if known && w > 0 && h > 0 => {
                        let rate: Option<Rate> = best_framerate(&c.framerate);
                        match find_mode(&modes, w as u32, h as u32, c.name.as_str()) {
                            Some(k) => {
                                let held: Option<Rate> = modes[k].framerate;
                                let better: Mode = Mode {
                                    media_type: c.name.clone(),
                                    width: w as u32,
                                    height: h as u32,
                                    framerate: if fps_val(rate) > fps_val(held) {
                                        rate
                                    } else {
                                        held
                                    },
                                };
                                proof {
                                    lemma_update(list@, n as int, modes@, k as int, better);
                                }
                                modes.set(k, better);
                            },
                            None => {
                                let fresh: Mode = Mode {
                                    media_type: c.name.clone(),
                                    width: w as u32,
                                    height: h as u32,
                                    framerate: if fps_val(rate) > 0 {
                                        rate
                                    } else {
                                        None
                                    },
                                };
                                let p: usize = rank_of(&modes, &fresh);
                                proof {
                                    lemma_insert(list@, n as int, modes@, p as int, fresh);
                                }
                                modes.insert(p, fresh);
                            },
                        }
                    },
                    _ => {
                        proof {
                            lemma_skip(list@, n as int, modes@);
                        }
                    },
                }
                n = n + 1;
            }
            assert(list@.take(list.len() as int) =~= list@);
            modes
        },
    }
}

/// A mode list shows larger pictures before smaller ones.
pub proof fn larger_modes_come_first(caps: Seq<CapsStructure>, modes: Seq<Mode>, i: int, j: int)
    requires
        is_mode_list(caps, modes),
        0 <= i < j < modes.len(),
    ensures
        area(modes[i]) >= area(modes[j]),
{
    assert(!outranks(modes[j], modes[i]));
}

/// Whether two lists of structures hold the same structures, in whatever order.
pub open spec fn same_structures(one: Seq<CapsStructure>, other: Seq<CapsStructure>) -> bool {
    forall|c: CapsStructure| #[trigger] one.contains(c) <==> other.contains(c)
}

/// What one list of structures advertises for a mode, another list of the same structures
/// advertises at least as fast.
proof fn lemma_same_speed(one: Seq<CapsStructure>, other: Seq<CapsStructure>, key: ModeKey)
    requires
        same_structures(one, other),
    ensures
        offered(one, key) ==> offered(other, key),
        fps(fastest(rates_at(one, key))) <= fps(fastest(rates_at(other, key))),
{
    let a = rates_at(one, key);
    let b = rates_at(other, key);
    fastest_is_first_maximum(a);
    fastest_is_first_maximum(b);
    if fastest(a) is Some {
        let i = choose|i: int| 0 <= i < a.len() && #[trigger] a[i] == fastest(a);
        let c = one[i];
        assert(one.contains(c));
        assert(other.contains(c));
        let j = choose|j: int| 0 <= j < other.len() && other[j] == c;
        assert(fps(b[j]) <= fps(fastest(b)));
    }
    if offered(one, key) {
        let i = choose|i: int|
            0 <= i < one.len() && offers(#[trigger] one[i]) && caps_key(one[i]) == key;
        let c = one[i];
        assert(one.contains(c));
        assert(other.contains(c));
        let j = choose|j: int| 0 <= j < other.len() && other[j] == c;
        assert(offers(other[j]));
    }
}

/// The order in which a device lists its capabilities does not matter: the same modes are offered,
/// equally fast.
pub proof fn capability_order_does_not_matter(
    one: Seq<CapsStructure>,
    other: Seq<CapsStructure>,
    modes: Seq<Mode>,
    others: Seq<Mode>,
    i: int,
)
    requires
        same_structures(one, other),
        is_mode_list(one, modes),
        is_mode_list(other, others),
        0 <= i < modes.len(),
    ensures
        exists|j: int|
            0 <= j < others.len() && mode_key(#[trigger] others[j]) == mode_key(modes[i]) && fps(
                others[j].framerate,
            ) == fps(modes[i].framerate),
{
    let key = mode_key(modes[i]);
    assert(listed(modes, key));
    lemma_same_speed(one, other, key);
    lemma_same_speed(other, one, key);
    assert(listed(others, key));
    let j = choose|j: int| 0 <= j < others.len() && mode_key(#[trigger] others[j]) == key;
    assert(fps(others[j].framerate) == fps(modes[i].framerate));
}

/// The capabilities decide which modes a list holds and at which rates: two lists for the same
/// capabilities differ at most in the order of equally ranked modes.
pub proof fn mode_lists_agree(caps: Seq<CapsStructure>, one: Seq<Mode>, other: Seq<Mode>, i: int)
    requires
        is_mode_list(caps, one),
        is_mode_list(caps, other),
        0 <= i < one.len(),
    ensures
        exists|j: int|
            0 <= j < other.len() && mode_key(#[trigger] other[j]) == mode_key(one[i])
                && other[j].framerate == one[i].framerate,
{
    let key = mode_key(one[i]);
    assert(listed(one, key));
    assert(listed(other, key));
    let j = choose|j: int| 0 <= j < other.len() && mode_key(#[trigger] other[j]) == key;
    assert(other[j].framerate == one[i].framerate);
}

} // verus!
