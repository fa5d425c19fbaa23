//! What the pipelines read from, what stands in them and where they write to.

use crate::camera::{CameraId, Setup};
use crate::mode::Mode;
use crate::mode_laws::same_but_rate;
use crate::paths::recording_path;
use crate::pipeline::{build_preview_pipeline, build_selected, device_source, portal_source, preview_text, start_recording, stop_recording, Finalized, RecordingPlan, Selection, StoppedRecording, FINALIZE_TIMEOUT_SECS, PHOTO_SINK, PREVIEW_MAX_WIDTH, PREVIEW_SINK};
use crate::text::{decimal, signed_decimal};
use vstd::prelude::*;

verus! {

proof fn lemma_tail(head: Seq<char>, tail: Seq<char>)
    ensures
        (head + tail).skip(head.len() as int) == tail,
        head.is_prefix_of(head + tail),
{
    assert((head + tail).skip(head.len() as int) =~= tail);
    assert(head =~= (head + tail).subrange(0, head.len() as int));
}

/// The elements that follow the source in every preview: the conversion to RGBA, then one branch
/// scaled down for the preview sink and one at full size for the photo sink.
pub open spec fn preview_elements() -> Seq<char> {
    " ! videoconvert ! video/x-raw,format=RGBA ! tee name=t t. ! queue max-size-buffers=4 leaky=downstream ! videoscale ! video/x-raw,width="@
        + decimal(PREVIEW_MAX_WIDTH as nat)
        + ",pixel-aspect-ratio=1/1 ! appsink name="@ + PREVIEW_SINK@
        + " sync=false max-buffers=1 drop=true t. ! queue max-size-buffers=2 leaky=downstream ! appsink name="@
        + PHOTO_SINK@ + " sync=false max-buffers=1 drop=true"@
}

/// A preview is its source followed by the same elements whatever the source is.
pub proof fn previews_differ_only_in_their_source(a: &str, b: &str, p: String, q: String)
    requires
        call_ensures(build_preview_pipeline, (a,), p),
        call_ensures(build_preview_pipeline, (b,), q),
    ensures
        a@.is_prefix_of(p@),
        b@.is_prefix_of(q@),
        p@.skip(a@.len() as int) == q@.skip(b@.len() as int),
        p@.skip(a@.len() as int).len() > 0,
        p@ == q@ ==> a@ == b@,
{
    lemma_preview(a, p);
    lemma_preview(b, q);
    let tail = preview_elements();
    lemma_tail(a@, tail);
    lemma_tail(b@, tail);
    reveal_strlit(" sync=false max-buffers=1 drop=true");
    assert(tail.len() > 0);
    if p@ == q@ {
        assert(a@.len() == b@.len());
        assert(a@ =~= p@.take(a@.len() as int));
        assert(b@ =~= q@.take(b@.len() as int));
    }
}

proof fn lemma_preview(source: &str, p: String)
    requires
        call_ensures(build_preview_pipeline, (source,), p),
    ensures
        p@ == source@ + preview_elements(),
{
    lemma_preview_text(source@);
}

pub(crate) proof fn lemma_preview_text(source: Seq<char>)
    ensures
        preview_text(source) == source + preview_elements(),
{
    reveal_strlit(" ! videoconvert ! video/x-raw,format=RGBA ! tee name=t ");
    reveal_strlit("t. ! queue max-size-buffers=4 leaky=downstream ! videoscale ! ");
    reveal_strlit("video/x-raw,width=");
    reveal_strlit(",pixel-aspect-ratio=1/1 ! ");
    reveal_strlit("appsink name=");
    reveal_strlit(" sync=false max-buffers=1 drop=true ");
    reveal_strlit("t. ! queue max-size-buffers=2 leaky=downstream ! ");
    reveal_strlit(
        " ! videoconvert ! video/x-raw,format=RGBA ! tee name=t t. ! queue max-size-buffers=4 leaky=downstream ! videoscale ! video/x-raw,width=",
    );
    reveal_strlit(",pixel-aspect-ratio=1/1 ! appsink name=");
    reveal_strlit(
        " sync=false max-buffers=1 drop=true t. ! queue max-size-buffers=2 leaky=downstream ! appsink name=",
    );
    let one = " ! videoconvert ! video/x-raw,format=RGBA ! tee name=t "@
        + "t. ! queue max-size-buffers=4 leaky=downstream ! videoscale ! "@ + "video/x-raw,width="@;
    assert(one
        =~= " ! videoconvert ! video/x-raw,format=RGBA ! tee name=t t. ! queue max-size-buffers=4 leaky=downstream ! videoscale ! video/x-raw,width="@);
    let two = ",pixel-aspect-ratio=1/1 ! "@ + "appsink name="@;
    assert(two =~= ",pixel-aspect-ratio=1/1 ! appsink name="@);
    let three = " sync=false max-buffers=1 drop=true "@
        + "t. ! queue max-size-buffers=2 leaky=downstream ! "@ + "appsink name="@;
    assert(three
        =~= " sync=false max-buffers=1 drop=true t. ! queue max-size-buffers=2 leaky=downstream ! appsink name="@);
    assert(preview_text(source) =~= source + (one + decimal(PREVIEW_MAX_WIDTH as nat) + two + PREVIEW_SINK@ + three
        + PHOTO_SINK@ + " sync=false max-buffers=1 drop=true"@));
}

/// A preview is its source, converted to RGBA and split into a branch scaled to 800 columns for
/// the preview sink and one at full size for the photo sink.
pub proof fn previews_split_into_two_sinks(source: &str, p: String)
    requires
        call_ensures(build_preview_pipeline, (source,), p),
    ensures
        p@ == source@ + preview_elements(),
        PREVIEW_MAX_WIDTH == 800,
        PREVIEW_SINK@ == "preview_sink"@,
        PHOTO_SINK@ == "photo_sink"@,
{
    lemma_preview(source, p);
}

/// A source on a device names its node, a source behind the portal its connection.
pub proof fn sources_name_what_they_read(device: &str, fd: i32, direct: String, portal: String)
    requires
        call_ensures(device_source, (device,), direct),
        call_ensures(portal_source, (fd,), portal),
    ensures
        direct@ == "v4l2src device="@ + device@,
        portal@ == "pipewiresrc fd="@ + signed_decimal(fd as int),
{
}

/// The source of a device in a mode: the node and, behind a separator each, the capabilities of the
/// mode and, where one is called for, a JPEG decoder.
pub open spec fn pinned_source(node: Seq<char>, caps: Option<Seq<char>>, decoded: bool) -> Seq<char> {
    let source = "v4l2src device="@ + node;
    let pinned = match caps {
        Some(text) => source + " ! "@ + text,
        None => source,
    };
    if decoded {
        pinned + " ! jpegdec"@
    } else {
        pinned
    }
}

/// The preview of a selected device in a mode is that of its node, pinned to the capabilities of
/// the mode. A JPEG decoder stands behind them if and only if the media type is `image/jpeg`,
/// whatever the size and the frame rate.
pub proof fn only_jpeg_modes_are_decoded(
    path: String,
    mode: Mode,
    caps: String,
    selection: Selection,
)
    requires
        call_ensures(build_selected, (&CameraId::V4l2(path), &Some(mode)), selection),
        call_ensures(Mode::caps_str, (&mode,), caps),
    ensures
        selection matches Selection::Device { setup, pipeline } && (setup matches Setup::V4l2 {
            device,
        } && device@ == path@) && pipeline@ == pinned_source(
            path@,
            Some(caps@),
            mode.media_type@ == "image/jpeg"@,
        ) + preview_elements(),
{
    lemma_preview_text(pinned_source(path@, Some(caps@), mode.media_type@ == "image/jpeg"@));
}

/// The preview of a raw mode is the device source, the separator, the capabilities and then the
/// elements of every preview, with nothing between.
pub proof fn raw_modes_are_not_decoded(
    path: String,
    mode: Mode,
    caps: String,
    setup: Setup,
    pipeline: String,
)
    requires
        call_ensures(
            build_selected,
            (&CameraId::V4l2(path), &Some(mode)),
            Selection::Device { setup, pipeline },
        ),
        call_ensures(Mode::caps_str, (&mode,), caps),
        mode.media_type@ == "video/x-raw"@,
    ensures
        pipeline@ == "v4l2src device="@ + path@ + " ! "@ + caps@ + preview_elements(),
{
    reveal_strlit("image/jpeg");
    reveal_strlit("video/x-raw");
    assert("image/jpeg"@.len() != "video/x-raw"@.len());
    only_jpeg_modes_are_decoded(path, mode, caps, Selection::Device { setup, pipeline });
}

/// Two modes that differ only in their frame rate get the same elements: once the capabilities are
/// passed, the pipelines go on alike.
pub proof fn rates_do_not_change_the_elements(
    path: String,
    one: Mode,
    other: Mode,
    caps: String,
    other_caps: String,
    setup: Setup,
    pipeline: String,
    other_setup: Setup,
    other_pipeline: String,
)
    requires
        same_but_rate(one, other),
        call_ensures(
            build_selected,
            (&CameraId::V4l2(path), &Some(one)),
            Selection::Device { setup, pipeline },
        ),
        call_ensures(
            build_selected,
            (&CameraId::V4l2(path), &Some(other)),
            Selection::Device { setup: other_setup, pipeline: other_pipeline },
        ),
        call_ensures(Mode::caps_str, (&one,), caps),
        call_ensures(Mode::caps_str, (&other,), other_caps),
    ensures
        ({
            let head = "v4l2src device="@ + path@ + " ! "@;
            &&& (head + caps@).is_prefix_of(pipeline@)
            &&& (head + other_caps@).is_prefix_of(other_pipeline@)
            &&& pipeline@.skip((head + caps@).len() as int) == other_pipeline@.skip(
                (head + other_caps@).len() as int,
            )
        }),
{
    only_jpeg_modes_are_decoded(path, one, caps, Selection::Device { setup, pipeline });
    only_jpeg_modes_are_decoded(
        path,
        other,
        other_caps,
        Selection::Device { setup: other_setup, pipeline: other_pipeline },
    );
    let head = "v4l2src device="@ + path@ + " ! "@;
    let tail = if one.media_type@ == "image/jpeg"@ {
        " ! jpegdec"@ + preview_elements()
    } else {
        preview_elements()
    };
    assert(pipeline@ =~= (head + caps@) + tail);
    assert(other_pipeline@ =~= (head + other_caps@) + tail);
    lemma_tail(head + caps@, tail);
    lemma_tail(head + other_caps@, tail);
}

/// The preview of a selected device without a mode is that of its node alone.
pub proof fn devices_without_a_mode_are_not_pinned(path: String, selection: Selection)
    requires
        call_ensures(build_selected, (&CameraId::V4l2(path), &None::<Mode>), selection),
    ensures
        selection matches Selection::Device { setup, pipeline } && (setup matches Setup::V4l2 {
            device,
        } && device@ == path@) && pipeline@ == "v4l2src device="@ + path@ + preview_elements(),
{
    lemma_preview_text("v4l2src device="@ + path@);
}

/// The portal is asked for exactly where it was selected, whatever the mode.
pub proof fn the_portal_takes_no_mode(mode: Option<Mode>, selection: Selection)
    requires
        call_ensures(build_selected, (&CameraId::Portal, &mode), selection),
    ensures
        selection is Portal,
{
}

/// The elements that follow the source in every recording, with the file that is written.
pub open spec fn recording_elements(path: Seq<char>) -> Seq<char> {
    " ! videoconvert ! vp8enc ! webmmux ! filesink location=\""@ + path + "\""@
}

/// A recording goes to the file that its directory and time call for, encoded as VP8 in WebM. On a
/// direct setup it reads from the node of that very setup, which is the source of a preview of the
/// device without a mode; behind the portal it reads from the connection that was opened for it.
pub proof fn recordings_read_from_the_setup_in_use(
    setup: Setup,
    remote_fd: Option<i32>,
    dir: &str,
    secs: u64,
    plan: RecordingPlan,
    path: String,
)
    requires
        call_ensures(start_recording, (&setup, remote_fd, dir, secs), plan),
        call_ensures(recording_path, (dir, secs), path),
    ensures
        plan.path@ == path@,
        setup matches Setup::V4l2 { device } ==> plan.pipeline@ == "v4l2src device="@ + device@
            + recording_elements(path@),
        setup is Portal && remote_fd is Some ==> plan.pipeline@ == "pipewiresrc fd="@
            + signed_decimal(remote_fd->0 as int) + recording_elements(path@),
{
    if let Setup::V4l2 { device } = setup {
        assert(plan.pipeline@ =~= "v4l2src device="@ + device@ + recording_elements(path@));
    } else if remote_fd is Some {
        assert(plan.pipeline@ =~= "pipewiresrc fd="@ + signed_decimal(remote_fd->0 as int)
            + recording_elements(path@));
    }
}

/// Recordings of different devices have different pipelines, and a device is recorded from the
/// source from which it is previewed.
pub proof fn recordings_of_different_devices_differ(
    one: String,
    other: String,
    dir: &str,
    secs: u64,
    plan: RecordingPlan,
    other_plan: RecordingPlan,
    setup: Setup,
    preview: String,
) -> (source: Seq<char>)
    requires
        call_ensures(start_recording, (&Setup::V4l2 { device: one }, None::<i32>, dir, secs), plan),
        call_ensures(
            start_recording,
            (&Setup::V4l2 { device: other }, None::<i32>, dir, secs),
            other_plan,
        ),
        call_ensures(
            build_selected,
            (&CameraId::V4l2(one), &None::<Mode>),
            Selection::Device { setup, pipeline: preview },
        ),
    ensures
        plan.pipeline@ == other_plan.pipeline@ <==> one@ == other@,
        plan.pipeline@ == source + recording_elements(plan.path@),
        preview@ == source + preview_elements(),
{
    let source = "v4l2src device="@ + one@;
    let second = "v4l2src device="@ + other@;
    let tail = recording_elements(plan.path@);
    assert(plan.pipeline@ =~= source + tail);
    assert(other_plan.pipeline@ =~= second + tail);
    if plan.pipeline@ == other_plan.pipeline@ {
        assert(source.len() == second.len());
        assert(one@ =~= plan.pipeline@.subrange("v4l2src device="@.len() as int, source.len() as int));
        assert(other@ =~= other_plan.pipeline@.subrange(
            "v4l2src device="@.len() as int,
            second.len() as int,
        ));
    }
    devices_without_a_mode_are_not_pinned(one, Selection::Device { setup, pipeline: preview });
    source
}

/// A recording can be started on any direct setup, and behind the portal once its connection is
/// open.
pub proof fn open_setups_can_be_recorded(setup: Setup, remote_fd: Option<i32>, dir: &str, secs: u64)
    requires
        setup is V4l2 || remote_fd is Some,
    ensures
        call_requires(start_recording, (&setup, remote_fd, dir, secs)),
{
}

/// However a recording ends, its file is handed out. Only an end that is not complete is logged,
/// with the error and its details where there are any.
pub proof fn stopped_recordings_hand_out_their_file(
    path: String,
    end: Finalized,
    res: StoppedRecording,
)
    requires
        call_ensures(stop_recording, (path, &end), res),
    ensures
        res.path@ == path@,
        res.note is None <==> end is Complete,
        end matches Finalized::Failed { error, debug } ==> res.note->0@
            == "Error while finalizing recording: "@ + error@ + " ("@ + debug@ + ")"@,
        end is TimedOut ==> res.note->0@
            == "Timed out waiting for recording to finalize; file may be truncated."@,
        FINALIZE_TIMEOUT_SECS == 5,
{
}

} // verus!
