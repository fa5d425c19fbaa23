//! How a capture path is brought up, stated over what each step is told and answers.

use crate::camera::Setup;
use crate::errors::{CaptureError, PLAYING_TIMEOUT_SECS, PORTAL_TIMEOUT_SECS};
use crate::pipeline_laws::{lemma_preview_text, preview_elements};
use crate::preview::{confirm_playing, preview_result, preview_step, PreviewAction, PreviewEvent, StateChange};
use crate::startup::{bootstrap, is_portal_run, is_portal_step, order_is_unique, portal_setup_step, texts, video_devices, video_names, BootAction, BootEvent, DeviceProbe, PortalAction, PortalEvent, ProbeAnswer, ProbeStep};
use crate::text::{decimal, lex_less, lex_less_total, signed_decimal};
use vstd::prelude::*;

verus! {

/// Errors are reported in fixed words; where an element is at fault, its name comes first.
pub proof fn errors_are_reported_in_words(error: CaptureError, res: String)
    requires
        call_ensures(CaptureError::message, (&error,), res),
    ensures
        match error {
            CaptureError::FrameSizeMismatch => res@
                == "frame size doesn't match RGBA buffer length"@,
            CaptureError::NoCameraPresent => res@ == "portal reports no camera present"@,
            CaptureError::PortalTimedOut => res@ == "portal negotiation timed out after "@
                + decimal(5) + "s"@,
            CaptureError::DevicesNotListed => res@ == "failed to list /dev for video devices"@,
            CaptureError::NoVideoDevices => res@ == "no /dev/video* devices found"@,
            CaptureError::NotPlaying => res@ == "pipeline did not reach Playing within "@ + decimal(
                3,
            ) + "s"@,
            CaptureError::NotAPipeline => res@
                == "expected gst::parse::launch to return a Pipeline"@,
            CaptureError::ElementNotFound(name) => res@ == name@ + " element not found in pipeline"@,
            CaptureError::NotASink(name) => res@ == name@ + " is not an AppSink"@,
            CaptureError::NotRecording => res@ == "not currently recording"@,
        },
        PORTAL_TIMEOUT_SECS == 5,
        PLAYING_TIMEOUT_SECS == 3,
{
}

/// A pipeline plays exactly if its change of state is finished. One that refuses keeps its own
/// error; one that fails later or is late is said to be late.
pub proof fn only_finished_changes_count_as_playing(
    change: StateChange,
    event: PreviewEvent,
    late: String,
)
    requires
        call_ensures(confirm_playing, (change,), event),
        call_ensures(CaptureError::message, (&CaptureError::NotPlaying,), late),
    ensures
        event is Playing <==> change is Finished,
        event is NotPlaying <==> change !is Finished,
        change matches StateChange::Refused { error } ==> event == (PreviewEvent::NotPlaying {
            error,
        }),
        event matches PreviewEvent::NotPlaying { error } ==> change is Refused || error@ == late@,
{
}

/// A preview that is built is confirmed, one that plays is used, one that does not play is stopped,
/// and one that could not be built is given up; an error is handed on as it came.
pub proof fn previews_are_answered(event: PreviewEvent, action: PreviewAction)
    requires
        call_ensures(preview_step, (event,), action),
    ensures
        event is Launched <==> action is ConfirmPlaying,
        event is Playing <==> action is Use,
        event matches PreviewEvent::NotPlaying { error } ==> action == (PreviewAction::TearDown {
            error,
        }),
        event matches PreviewEvent::Failed { error } ==> action == (PreviewAction::GiveUp { error }),
{
}

/// A preview that is used gives its setup, one that is not gives its error, and nothing is given
/// while that is open.
pub proof fn previews_give_their_setup_or_error(
    setup: Setup,
    action: PreviewAction,
    res: Option<Result<Setup, String>>,
)
    requires
        call_ensures(preview_result, (setup, action), res),
    ensures
        action is ConfirmPlaying <==> res is None,
        action is Use <==> res matches Some(Ok(_)),
        res matches Some(Ok(used)) ==> used == setup,
        action matches PreviewAction::TearDown { error } ==> res == Some(Err::<Setup, String>(error)),
        action matches PreviewAction::GiveUp { error } ==> res == Some(Err::<Setup, String>(error)),
{
}

/// Each success of the negotiation leads to its next step: the presence of a camera is checked,
/// access asked for, the connection opened, the preview launched on that very connection and
/// confirmed, and then the portal is used.
pub proof fn the_portal_goes_on_after_each_success(event: PortalEvent, action: PortalAction)
    requires
        call_ensures(portal_setup_step, (event,), action),
    ensures
        event is Connected ==> action is CheckPresence,
        event == PortalEvent::Presence(true) ==> action is RequestAccess,
        event is AccessGranted ==> action is OpenRemote,
        event matches PortalEvent::RemoteOpened { fd } ==> (action matches PortalAction::Launch {
            pipeline,
        } && pipeline@ == "pipewiresrc fd="@ + signed_decimal(fd as int) + preview_elements()),
        event == PortalEvent::Preview(PreviewEvent::Launched) ==> action is ConfirmPlaying,
        event == PortalEvent::Preview(PreviewEvent::Playing) ==> (action
            matches PortalAction::Finish { setup } && setup is Portal),
{
    if let PortalEvent::RemoteOpened { fd } = event {
        lemma_preview_text("pipewiresrc fd="@ + signed_decimal(fd as int));
    }
}

/// Each setback ends the negotiation, with its own error where it has one; a preview that was built
/// is stopped.
pub proof fn the_portal_ends_at_each_setback(
    event: PortalEvent,
    action: PortalAction,
    absent: String,
    late: String,
)
    requires
        call_ensures(portal_setup_step, (event,), action),
        call_ensures(CaptureError::message, (&CaptureError::NoCameraPresent,), absent),
        call_ensures(CaptureError::message, (&CaptureError::PortalTimedOut,), late),
    ensures
        event == PortalEvent::Presence(false) ==> (action matches PortalAction::GiveUp { error }
            && error@ == absent@),
        event is TimedOut ==> (action matches PortalAction::GiveUp { error } && error@ == late@),
        event matches PortalEvent::Failed { error } ==> action == (PortalAction::GiveUp { error }),
        event matches PortalEvent::Preview(PreviewEvent::Failed { error }) ==> action == (
        PortalAction::GiveUp { error }),
        event matches PortalEvent::Preview(PreviewEvent::NotPlaying { error }) ==> action == (
        PortalAction::TearDown { error }),
{
}

/// A negotiation in which every step succeeds ends with the portal in use.
pub proof fn the_portal_is_used_if_every_step_succeeds(
    events: Seq<PortalEvent>,
    actions: Seq<PortalAction>,
    fd: i32,
)
    requires
        is_portal_run(events, actions),
        events == seq![
            PortalEvent::Connected,
            PortalEvent::Presence(true),
            PortalEvent::AccessGranted,
            PortalEvent::RemoteOpened { fd },
            PortalEvent::Preview(PreviewEvent::Launched),
            PortalEvent::Preview(PreviewEvent::Playing),
        ],
    ensures
        actions.last() == (PortalAction::Finish { setup: Setup::Portal }),
{
    assert(is_portal_step(events[5], actions[5]));
}

/// How often a text occurs among names.
pub open spec fn occurrences(names: Seq<String>, text: Seq<char>) -> nat
    decreases names.len(),
{
    if names.len() == 0 {
        0
    } else if names.last()@ == text {
        occurrences(names.drop_last(), text) + 1
    } else {
        occurrences(names.drop_last(), text)
    }
}

proof fn lemma_occurrences(names: Seq<String>, text: Seq<char>)
    ensures
        texts(names).to_multiset().count(text) == occurrences(names, text),
        video_names(texts(names)).count(text) == if "video"@.is_prefix_of(text) {
            occurrences(names, text)
        } else {
            0
        },
    decreases names.len(),
{
    let all = texts(names);
    all.to_multiset_ensures();
    if names.len() > 0 {
        lemma_occurrences(names.drop_last(), text);
        assert(texts(names.drop_last()) =~= all.drop_last());
        assert(all =~= all.drop_last().push(all.last()));
        all.drop_last().to_multiset_ensures();
        assert(all.to_multiset() =~= all.drop_last().to_multiset().insert(all.last()));
    }
}

/// The video devices are the names that begin with `video`, each as often as it occurs, and no
/// others.
pub proof fn video_devices_are_those_named_so(entries: Vec<String>, devices: Vec<String>, text: Seq<char>)
    requires
        call_ensures(video_devices, (&entries,), devices),
    ensures
        occurrences(devices@, text) == if "video"@.is_prefix_of(text) {
            occurrences(entries@, text)
        } else {
            0
        },
{
    lemma_occurrences(entries@, text);
    lemma_occurrences(devices@, text);
}

/// The video devices stand in the order of texts.
pub proof fn video_devices_are_sorted(entries: Vec<String>, devices: Vec<String>, i: int, j: int)
    requires
        call_ensures(video_devices, (&entries,), devices),
        0 <= i < j < devices@.len(),
    ensures
        lex_less(devices@[i]@, devices@[j]@) || devices@[i]@ == devices@[j]@,
{
    let all = texts(devices@);
    assert(!lex_less(all[j], all[i]));
    lex_less_total(devices@[i]@, devices@[j]@);
}

/// A search begins exactly if some name begins with `video`. It has all such names before it, in
/// their order, and none has failed.
pub proof fn searches_begin_with_every_video_device(
    entries: Vec<String>,
    devices: Vec<String>,
    res: Result<DeviceProbe, CaptureError>,
)
    requires
        call_ensures(DeviceProbe::start, (&entries,), res),
        call_ensures(video_devices, (&entries,), devices),
    ensures
        match res {
            Ok(probe) => {
                &&& devices@.len() > 0
                &&& probe.wf()
                &&& probe@.failed == 0
                &&& probe@.last_error is None
                &&& probe@.names == devices@.map_values(|s: String| s@)
            },
            Err(e) => e is NoVideoDevices && devices@.len() == 0,
        },
{
    texts(devices@).to_multiset_ensures();
    if let Ok(probe) = res {
        order_is_unique(probe@.names, texts(devices@));
    }
}

/// A search tries the device after those that have failed, with the plain preview of its node, and
/// gives up with the latest error once all have failed.
pub proof fn searches_try_the_next_device(probe: DeviceProbe, step: ProbeStep)
    requires
        probe.wf(),
        call_ensures(DeviceProbe::step, (&probe,), step),
    ensures
        step is Try <==> probe@.failed < probe@.names.len(),
        step matches ProbeStep::Try { setup, pipeline } ==> {
            let node = "/dev/"@ + probe@.names[probe@.failed];
            &&& setup matches Setup::V4l2 { device } && device@ == node
            &&& pipeline@ == "v4l2src device="@ + node + preview_elements()
        },
        step matches ProbeStep::GiveUp { error } ==> probe@.last_error == Some(error@),
{
    if probe@.failed < probe@.names.len() {
        lemma_preview_text("v4l2src device="@ + ("/dev/"@ + probe@.names[probe@.failed]));
    }
}

/// An error of the preview at hand fails one device and is logged with its node; the preview is
/// stopped where it was built. While there is no error the search stays where it is. The devices to
/// try do not change.
pub proof fn searches_count_each_error_once(
    probe: &mut DeviceProbe,
    event: PreviewEvent,
    answer: ProbeAnswer,
    action: PreviewAction,
)
    requires
        call_ensures(DeviceProbe::tell, (probe, event), answer),
        call_ensures(preview_step, (event,), action),
    ensures
        answer.action == action,
        final(probe)@.names == old(probe)@.names,
        event is Launched || event is Playing ==> answer.note is None && final(probe)@ == old(
            probe,
        )@,
        (event matches PreviewEvent::NotPlaying { error } ==> (final(probe)@.failed == old(
            probe,
        )@.failed + 1 && final(probe)@.last_error == Some(error@) && answer.note is Some
            && answer.note->0@ == "  /dev/"@ + old(probe)@.names[old(probe)@.failed]
            + " not usable for capture: "@ + error@)),
        (event matches PreviewEvent::Failed { error } ==> (final(probe)@.failed == old(
            probe,
        )@.failed + 1 && final(probe)@.last_error == Some(error@) && answer.note is Some
            && answer.note->0@ == "  /dev/"@ + old(probe)@.names[old(probe)@.failed]
            + " not usable for capture: "@ + error@)),
{
    reveal_strlit("  ");
    reveal_strlit("/dev/");
    reveal_strlit("  /dev/");
    assert("  "@ + "/dev/"@ =~= "  /dev/"@);
    let name = old(probe)@.names[old(probe)@.failed];
    assert("  "@ + ("/dev/"@ + name) =~= "  /dev/"@ + name);
}

/// A search can be told of its preview as long as a device is left.
pub proof fn searches_can_be_told_while_a_device_is_left(probe: &mut DeviceProbe, event: PreviewEvent)
    requires
        probe.wf(),
        probe@.failed < probe@.names.len(),
    ensures
        call_requires(DeviceProbe::tell, (probe, event)),
{
}

/// Starting asks the portal first. What comes up first is used, and said by its description; where
/// the portal fails, its error is logged and the devices are searched, and where they fail too, so
/// does the start, with their error.
pub proof fn starting_goes_from_portal_to_devices(
    event: BootEvent,
    action: BootAction,
    setup: Setup,
    description: String,
)
    requires
        call_ensures(bootstrap, (event,), action),
        call_ensures(Setup::describe, (&setup,), description),
    ensures
        event is Begin ==> (action matches BootAction::TryPortal { note } && note@
            == "Trying portal capture path (org.freedesktop.portal.Camera)..."@),
        event == BootEvent::Portal(Ok::<Setup, String>(setup)) || event == BootEvent::Devices(
            Ok::<Setup, String>(setup),
        ) ==> (action matches BootAction::Ready { setup: used, note } && used == setup && note@
            == "Capture path in use: "@ + description@),
        event matches BootEvent::Portal(Err(error)) ==> (action matches BootAction::TryDevices {
            note,
        } && note@ == "Portal path failed: "@ + error@
            + "\nFalling back to direct V4L2 access:"@),
        event matches BootEvent::Devices(Err(error)) ==> (action matches BootAction::Fail {
            context,
            cause,
        } && cause == error && context@ == "both the portal and V4L2 capture paths failed"@),
{
}

} // verus!
