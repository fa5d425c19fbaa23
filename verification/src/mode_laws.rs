//! What modes are called, how they are pinned, and which of them a device offers.

use crate::framerate::{advertised, fastest, fastest_is_first_maximum, fps, whole_fps};
use crate::mode::Mode;
use crate::mode_list::{caps_key, extract_modes, listed, mode_key, offered, offers, outranks, rates_at, CapsStructure};
use crate::rate_laws::{is_nearest_whole, lemma_whole_rate};
use crate::text::{decimal, lex_less, lex_less_total, signed_decimal};
use vstd::prelude::*;

verus! {

/// Whether two modes are alike but for their frame rate.
pub open spec fn same_but_rate(one: Mode, other: Mode) -> bool {
    &&& one.media_type@ == other.media_type@
    &&& one.width == other.width
    &&& one.height == other.height
}

/// JPEG and raw video have short names; any other media type is named by itself.
pub proof fn formats_are_named(m: Mode, name: &str)
    requires
        call_ensures(Mode::fmt_label, (&m,), name),
    ensures
        m.media_type@ == "image/jpeg"@ ==> name@ == "MJPEG"@,
        m.media_type@ == "video/x-raw"@ ==> name@ == "Raw"@,
        m.media_type@ != "image/jpeg"@ && m.media_type@ != "video/x-raw"@ ==> name@
            == m.media_type@,
{
    reveal_strlit("image/jpeg");
    reveal_strlit("video/x-raw");
    assert("image/jpeg"@.len() != "video/x-raw"@.len());
}

/// A mode without a rate, or with one over zero, is offered by its width, its height and the name
/// of its format.
pub proof fn labels_show_size_and_format(m: Mode, name: &str, label: String)
    requires
        call_ensures(Mode::fmt_label, (&m,), name),
        call_ensures(Mode::label, (&m,), label),
        m.framerate matches Some((n, d)) ==> d == 0,
    ensures
        label@ == decimal(m.width as nat) + "×"@ + decimal(m.height as nat) + " · "@ + name@,
{
}

/// A rate adds to the label of a mode the whole number of frames per second that is nearest to it,
/// and nothing else.
pub proof fn labels_add_the_nearest_whole_rate(
    m: Mode,
    n: i32,
    d: i32,
    bare: Mode,
    label: String,
    bare_label: String,
) -> (k: int)
    requires
        same_but_rate(m, bare),
        m.framerate == Some((n, d)),
        d != 0,
        bare.framerate is None,
        call_ensures(Mode::label, (&m,), label),
        call_ensures(Mode::label, (&bare,), bare_label),
    ensures
        is_nearest_whole(k, n as int, d as int),
        label@ == bare_label@ + " · "@ + signed_decimal(k) + "fps"@,
{
    lemma_whole_rate(n, d);
    whole_fps(fps(m.framerate))
}

/// The capabilities of a mode name its media type, its width and its height, and nothing more
/// where it has no rate, or one over zero.
pub proof fn capabilities_name_type_and_size(m: Mode, caps: String)
    requires
        call_ensures(Mode::caps_str, (&m,), caps),
        m.framerate matches Some((n, d)) ==> d == 0,
    ensures
        caps@ == m.media_type@ + ",width="@ + decimal(m.width as nat) + ",height="@ + decimal(
            m.height as nat,
        ),
{
}

/// A rate is added to the capabilities of a mode as the fraction that it is.
pub proof fn capabilities_add_the_rate_as_it_is(
    m: Mode,
    n: i32,
    d: i32,
    bare: Mode,
    caps: String,
    bare_caps: String,
)
    requires
        same_but_rate(m, bare),
        m.framerate == Some((n, d)),
        d != 0,
        bare.framerate is None,
        call_ensures(Mode::caps_str, (&m,), caps),
        call_ensures(Mode::caps_str, (&bare,), bare_caps),
    ensures
        caps@ == bare_caps@ + ",framerate="@ + signed_decimal(n as int) + "/"@ + signed_decimal(
            d as int,
        ),
{
}

/// Whether a structure describes raw or JPEG video of this size and media type.
pub open spec fn describes_video(c: CapsStructure, width: int, height: int, kind: Seq<char>) -> bool {
    &&& kind == "video/x-raw"@ || kind == "image/jpeg"@
    &&& width > 0
    &&& height > 0
    &&& c.name@ == kind
    &&& c.width matches Some(w) && w == width
    &&& c.height matches Some(h) && h == height
}

/// Whether a structure describes a mode.
pub open spec fn describes_mode(c: CapsStructure, m: Mode) -> bool {
    describes_video(c, m.width as int, m.height as int, m.media_type@)
}

proof fn lemma_describes(c: CapsStructure, m: Mode)
    ensures
        describes_mode(c, m) <==> offers(c) && caps_key(c) == mode_key(m),
{
}

/// Every mode of a device is described by one of its structures: raw or JPEG video of a positive
/// size.
pub proof fn modes_come_from_capabilities(caps: Vec<CapsStructure>, modes: Vec<Mode>, i: int) -> (j:
    int)
    requires
        call_ensures(extract_modes, (&Some(caps),), modes),
        0 <= i < modes@.len(),
    ensures
        0 <= j < caps@.len(),
        describes_mode(caps@[j], modes@[i]),
{
    let key = mode_key(modes@[i]);
    assert(listed(modes@, key));
    assert(offered(caps@, key));
    let j = choose|j: int|
        0 <= j < caps@.len() && offers(#[trigger] caps@[j]) && caps_key(caps@[j]) == key;
    lemma_describes(caps@[j], modes@[i]);
    j
}

/// Every structure that describes raw or JPEG video of a positive size has its mode.
pub proof fn capabilities_have_their_modes(
    caps: Vec<CapsStructure>,
    modes: Vec<Mode>,
    j: int,
    width: int,
    height: int,
    kind: Seq<char>,
) -> (i: int)
    requires
        call_ensures(extract_modes, (&Some(caps),), modes),
        0 <= j < caps@.len(),
        describes_video(caps@[j], width, height, kind),
    ensures
        0 <= i < modes@.len(),
        modes@[i].width == width,
        modes@[i].height == height,
        modes@[i].media_type@ == kind,
{
    let key = (width, height, kind);
    assert(offers(caps@[j]));
    assert(offered(caps@, key));
    assert(listed(modes@, key));
    choose|i: int| 0 <= i < modes@.len() && mode_key(#[trigger] modes@[i]) == key
}

/// No two modes of a device have the same size and media type.
pub proof fn modes_are_listed_once(
    caps: Option<Vec<CapsStructure>>,
    modes: Vec<Mode>,
    i: int,
    j: int,
)
    requires
        call_ensures(extract_modes, (&caps,), modes),
        0 <= i < j < modes@.len(),
    ensures
        !same_but_rate(modes@[i], modes@[j]),
{
    assert(mode_key(modes@[i]) != mode_key(modes@[j]));
}

/// A mode is as fast as any structure that describes it, and where it has a rate at all, that rate
/// is above zero and is the one of the first structure that is as fast.
pub proof fn modes_have_their_fastest_rate(caps: Vec<CapsStructure>, modes: Vec<Mode>, i: int)
    requires
        call_ensures(extract_modes, (&Some(caps),), modes),
        0 <= i < modes@.len(),
    ensures
        forall|j: int|
            0 <= j < caps@.len() && describes_mode(#[trigger] caps@[j], modes@[i]) ==> fps(
                advertised(caps@[j].framerate),
            ) <= fps(modes@[i].framerate),
        fps(modes@[i].framerate) >= 0,
        modes@[i].framerate is Some ==> fps(modes@[i].framerate) > 0 && exists|j: int|
            0 <= j < caps@.len() && describes_mode(#[trigger] caps@[j], modes@[i]) && advertised(
                caps@[j].framerate,
            ) == modes@[i].framerate && forall|k: int|
                0 <= k < j && describes_mode(#[trigger] caps@[k], modes@[i]) ==> fps(
                    advertised(caps@[k].framerate),
                ) < fps(modes@[i].framerate),
{
    let m = modes@[i];
    let rates = rates_at(caps@, mode_key(m));
    assert(m.framerate == fastest(rates));
    fastest_is_first_maximum(rates);
    assert forall|j: int| 0 <= j < caps@.len() && describes_mode(#[trigger] caps@[j], m) implies fps(
        advertised(caps@[j].framerate),
    ) <= fps(m.framerate) by {
        lemma_describes(caps@[j], m);
        assert(rates[j] == advertised(caps@[j].framerate));
    }
    if m.framerate is Some {
        let j = choose|j: int|
            0 <= j < rates.len() && #[trigger] rates[j] == fastest(rates) && forall|k: int|
                0 <= k < j ==> fps(#[trigger] rates[k]) < fps(fastest(rates));
        lemma_describes(caps@[j], m);
        assert forall|k: int| 0 <= k < j && describes_mode(#[trigger] caps@[k], m) implies fps(
            advertised(caps@[k].framerate),
        ) < fps(m.framerate) by {
            lemma_describes(caps@[k], m);
            assert(rates[k] == advertised(caps@[k].framerate));
        }
        assert(describes_mode(caps@[j], m));
    }
}

/// Larger pictures come before smaller ones, and of equally large ones the media type that is
/// later in the order of texts comes first.
pub proof fn modes_are_ranked_by_area_and_type(
    caps: Option<Vec<CapsStructure>>,
    modes: Vec<Mode>,
    i: int,
    j: int,
)
    requires
        call_ensures(extract_modes, (&caps,), modes),
        0 <= i < j < modes@.len(),
    ensures
        modes@[i].width * modes@[i].height >= modes@[j].width * modes@[j].height,
        modes@[i].width * modes@[i].height == modes@[j].width * modes@[j].height ==> lex_less(
            modes@[j].media_type@,
            modes@[i].media_type@,
        ) || modes@[j].media_type@ == modes@[i].media_type@,
{
    assert(!outranks(modes@[j], modes@[i]));
    lex_less_total(modes@[j].media_type@, modes@[i].media_type@);
}

/// A device without capabilities offers no modes.
pub proof fn no_capabilities_no_modes(modes: Vec<Mode>)
    requires
        call_ensures(extract_modes, (&None::<Vec<CapsStructure>>,), modes),
    ensures
        modes@.len() == 0,
{
    if modes@.len() > 0 {
        let key = mode_key(modes@[0]);
        assert(listed(modes@, key));
        assert(offered(Seq::<CapsStructure>::empty(), key));
    }
}

} // verus!
