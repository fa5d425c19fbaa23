//! What holds of the application whatever it is told.

use crate::frame::Frame;
use crate::errors::{error_text, CaptureError};
use crate::model::{Effect, Message, Model};
use crate::photo::{holds_samples, is_photo_of, is_photo_plan, PhotoPlan};
use vstd::prelude::*;

verus! {

/// Whether the preview pipeline runs after effects.
pub open spec fn preview_runs(before: bool, effects: Seq<Effect>) -> bool
    decreases effects.len(),
{
    if effects.len() == 0 {
        before
    } else {
        match effects.last() {
            Effect::PlayPreview => true,
            Effect::StopPreview => false,
            Effect::AdoptPipeline => true,
            _ => preview_runs(before, effects.drop_last()),
        }
    }
}

/// Whether a sample of the former camera can still be saved after effects.
pub open spec fn sample_kept(before: bool, effects: Seq<Effect>) -> bool
    decreases effects.len(),
{
    if effects.len() == 0 {
        before
    } else {
        match effects.last() {
            Effect::DropSample => false,
            _ => sample_kept(before, effects.drop_last()),
        }
    }
}

/// A message leaves the application sound: it still knows whether it holds a device and offers
/// every camera under its label. No message changes the cameras to choose from.
pub proof fn messages_keep_the_model_sound(m: Model, message: Message)
    requires
        m.wf(),
    ensures
        m.next(message).wf(),
        m.next(message).cameras == m.cameras,
        m.next(message).camera_labels == m.camera_labels,
{
}

/// While a recording is being started or stopped, the record button does nothing.
pub proof fn toggling_while_busy_does_nothing(m: Model)
    requires
        m.busy,
    ensures
        m.next(Message::ToggleRecording) == m,
        m.effects(Message::ToggleRecording) == Seq::<Effect>::empty(),
{
}

/// While a recording runs, cameras are not switched: only the status line changes.
pub proof fn recording_refuses_a_switch(m: Model)
    requires
        m.is_recording,
    ensures
        m.effects(Message::ApplySettings) == Seq::<Effect>::empty(),
        m.next(Message::ApplySettings) == m.with_status(
            "Stop the recording before switching cameras."@,
        ),
{
}

/// A selection that stands for no camera is not applied.
pub proof fn nothing_selected_is_not_applied(m: Model)
    requires
        m.camera() is None,
        !m.is_recording,
    ensures
        m.effects(Message::ApplySettings) == Seq::<Effect>::empty(),
        m.next(Message::ApplySettings) == m,
{
}

/// Another camera starts without a mode, whatever was selected before.
pub proof fn selecting_a_camera_forgets_the_mode(m: Model, i: usize)
    ensures
        m.next(Message::SelectCamera(i)).mode() is None,
        m.next(Message::SelectCamera(i)).selected_camera == Some(i),
{
}

/// Opening and closing the settings, or the reverse, changes nothing.
pub proof fn toggling_settings_twice_changes_nothing(m: Model)
    ensures
        m.next(Message::ToggleSettings).next(Message::ToggleSettings) == m,
{
}

/// A frame without an area is never shown, and leaves what is shown alone.
pub proof fn empty_frames_are_not_shown(m: Model, frame: Frame)
    requires
        frame.width == 0 || frame.height == 0,
    ensures
        m.next(Message::Frame(frame)) == m,
        m.effects(Message::Frame(frame)) == Seq::<Effect>::empty(),
{
}

/// A request for a photo writes a photo of the latest frame, or says why it does not: without a
/// frame nothing is written, nor of a frame that lacks samples. Nothing but the status line
/// changes.
pub proof fn photos_show_the_latest_frame(m: Model, latest: Option<Frame>, plan: PhotoPlan)
    requires
        is_photo_plan(latest, plan),
    ensures
        m.next(Message::TakePhoto) == m,
        m.effects(Message::TakePhoto) == seq![Effect::TakePhoto],
        ({
            let told = Message::PhotoPlanned(plan);
            match latest {
                None => {
                    &&& m.effects(told) == Seq::<Effect>::empty()
                    &&& m.next(told) == m.with_status("No frame captured yet"@)
                },
                Some(frame) => if holds_samples(
                    frame.width,
                    frame.height,
                    frame.rgba@.len() as int,
                ) {
                    &&& m.next(told) == m
                    &&& m.effects(told).len() == 1
                    &&& m.effects(told)[0] matches Effect::WritePhoto(photo)
                    &&& is_photo_of(photo, frame)
                } else {
                    &&& m.effects(told) == Seq::<Effect>::empty()
                    &&& m.next(told) == m.with_status(
                        "Photo failed: "@ + error_text(CaptureError::FrameSizeMismatch),
                    )
                },
            }
        }),
{
}

/// A photo is written only where a plan for it came, and it is the photo of that plan.
pub proof fn only_planned_photos_are_written(m: Model, message: Message, i: int)
    requires
        0 <= i < m.effects(message).len(),
        m.effects(message)[i] is WritePhoto,
    ensures
        message matches Message::PhotoPlanned(PhotoPlan::Write(photo)) && m.effects(message)[i]
            == Effect::WritePhoto(photo),
{
}

/// A camera is brought up only after the former one is halted and its pictures are dropped, so no
/// photo can show the former camera.
pub proof fn switching_drops_stale_pictures(m: Model, message: Message, i: int, before: bool)
    requires
        0 <= i < m.effects(message).len(),
        m.effects(message)[i] is BuildSelected,
    ensures
        !preview_runs(before, m.effects(message).take(i)),
        !sample_kept(before, m.effects(message).take(i)),
        m.effects(message).take(i).contains(Effect::DropPreview),
        !m.next(message).has_preview,
{
    let effects = m.effects(message);
    assert(message is ApplySettings);
    assert(i == 3);
    let done = effects.take(3);
    assert(done[1] == Effect::DropPreview);
    assert(done.last() == Effect::DropSample);
    assert(done.drop_last().last() == Effect::DropPreview);
    assert(done.drop_last().drop_last().last() == Effect::StopPreview);
    reveal_with_fuel(preview_runs, 4);
    reveal_with_fuel(sample_kept, 2);
}

/// A recording from a video device starts only after the preview has let go of it. Behind the
/// portal the preview is left alone.
pub proof fn device_is_free_before_recording(m: Model, message: Message, i: int, before: bool)
    requires
        m.wf(),
        0 <= i < m.effects(message).len(),
        m.effects(message)[i] is StartRecording,
    ensures
        m.effects(message)[i] == Effect::StartRecording(m.setup),
        preview_runs(before, m.effects(message).take(i)) == (before && m.setup is Portal),
{
    assert(message is ToggleRecording);
    let effects = m.effects(message);
    if m.is_v4l2 {
        assert(i == 1);
        assert(effects.take(1).last() == Effect::StopPreview);
        reveal_with_fuel(preview_runs, 2);
    } else {
        assert(i == 0);
        assert(effects.take(0).len() == 0);
    }
}

/// A recording that cannot be started leaves the preview running and everything but the status
/// line as it was.
pub proof fn failed_start_restores_the_preview(m: Model, error: String)
    requires
        m.wf(),
        !m.busy,
        !m.is_recording,
    ensures
        ({
            let asked = m.next(Message::ToggleRecording);
            let told = Message::RecordingStarted(Err(error));
            let effects = m.effects(Message::ToggleRecording) + asked.effects(told);
            &&& preview_runs(true, effects)
            &&& asked.next(told) == m.with_status("Recording failed: "@ + error@)
        }),
{
    let asked = m.next(Message::ToggleRecording);
    let told = Message::RecordingStarted(Err(error));
    let effects = m.effects(Message::ToggleRecording) + asked.effects(told);
    reveal_with_fuel(preview_runs, 3);
    if m.is_v4l2 {
        assert(effects.last() == Effect::PlayPreview);
    } else {
        assert(effects.last() == Effect::StartRecording(m.setup));
        assert(effects.drop_last().len() == 0);
    }
}

/// A recording that is started and stopped again ends with the preview running, and with nothing
/// but the status line changed.
pub proof fn recording_round_trip(m: Model, started: String, stopped: Result<String, String>)
    requires
        m.wf(),
        !m.busy,
        !m.is_recording,
    ensures
        ({
            let m1 = m.next(Message::ToggleRecording);
            let m2 = m1.next(Message::RecordingStarted(Ok(started)));
            let m3 = m2.next(Message::ToggleRecording);
            let m4 = m3.next(Message::RecordingStopped(stopped));
            let effects = m.effects(Message::ToggleRecording) + m1.effects(
                Message::RecordingStarted(Ok(started)),
            ) + m2.effects(Message::ToggleRecording) + m3.effects(
                Message::RecordingStopped(stopped),
            );
            &&& m2.is_recording && !m2.busy
            &&& m4 == m.with_status(m4.status)
            &&& preview_runs(true, effects)
            &&& effects.contains(Effect::StartRecording(m.setup))
            &&& effects.contains(Effect::StopRecording)
        }),
{
    let m1 = m.next(Message::ToggleRecording);
    let m2 = m1.next(Message::RecordingStarted(Ok(started)));
    let m3 = m2.next(Message::ToggleRecording);
    let m4 = m3.next(Message::RecordingStopped(stopped));
    let effects = m.effects(Message::ToggleRecording) + m1.effects(
        Message::RecordingStarted(Ok(started)),
    ) + m2.effects(Message::ToggleRecording) + m3.effects(Message::RecordingStopped(stopped));
    reveal_with_fuel(preview_runs, 4);
    if m.is_v4l2 {
        assert(effects =~= seq![
            Effect::StopPreview,
            Effect::StartRecording(m.setup),
            Effect::StopRecording,
            Effect::PlayPreview,
        ]);
        assert(effects[1] == Effect::StartRecording(m.setup));
        assert(effects[2] == Effect::StopRecording);
    } else {
        assert(effects =~= seq![Effect::StartRecording(m.setup), Effect::StopRecording]);
        assert(effects[0] == Effect::StartRecording(m.setup));
        assert(effects[1] == Effect::StopRecording);
        assert(effects.drop_last().last() == Effect::StartRecording(m.setup));
        assert(effects.drop_last().drop_last().len() == 0);
    }
}

/// A switch that fails brings the former preview back and changes nothing but the status line and
/// the picture on the screen.
pub proof fn failed_switch_restores_the_preview(m: Model, error: String)
    requires
        m.wf(),
        !m.is_recording,
        m.camera() is Some,
    ensures
        ({
            let asked = m.next(Message::ApplySettings);
            let told = Message::CameraSwitched(Err(error));
            let effects = m.effects(Message::ApplySettings) + asked.effects(told);
            &&& preview_runs(true, effects)
            &&& asked.next(told) == (Model {
                has_preview: false,
                status: "Couldn't switch camera: "@ + error@,
                ..m
            })
        }),
{
    let asked = m.next(Message::ApplySettings);
    let told = Message::CameraSwitched(Err(error));
    let effects = m.effects(Message::ApplySettings) + asked.effects(told);
    assert(effects.last() == Effect::PlayPreview);
}

/// A recording operation that is under way.
pub ghost enum Pending {
    Nothing,
    Starting,
    Stopping,
}

/// Whether the application knows what is under way.
pub open spec fn aware(m: Model, pending: Pending) -> bool {
    &&& m.busy == (pending !is Nothing)
    &&& pending is Starting ==> !m.is_recording
    &&& pending is Stopping ==> m.is_recording
}

/// Whether a message can come: an outcome is told only of what is under way.
pub open spec fn can_come(pending: Pending, message: Message) -> bool {
    &&& message is RecordingStarted ==> pending is Starting
    &&& message is RecordingStopped ==> pending is Stopping
}

/// What is under way after a message and its effects.
pub open spec fn pending_after(pending: Pending, message: Message, effects: Seq<Effect>) -> Pending {
    if exists|i: int| 0 <= i < effects.len() && #[trigger] effects[i] is StartRecording {
        Pending::Starting
    } else if exists|i: int| 0 <= i < effects.len() && #[trigger] effects[i] is StopRecording {
        Pending::Stopping
    } else if message is RecordingStarted || message is RecordingStopped {
        Pending::Nothing
    } else {
        pending
    }
}

/// At every time at most one recording operation is under way and the application knows which: it
/// asks for one only when none is, starts only while it does not record, and stops only while it
/// does.
pub proof fn one_recording_operation_at_a_time(m: Model, pending: Pending, message: Message)
    requires
        aware(m, pending),
        can_come(pending, message),
    ensures
        aware(m.next(message), pending_after(pending, message, m.effects(message))),
        forall|i: int|
            0 <= i < m.effects(message).len() && (m.effects(message)[i] is StartRecording
                || m.effects(message)[i] is StopRecording) ==> pending is Nothing,
        forall|i: int|
            0 <= i < m.effects(message).len() && #[trigger] m.effects(message)[i] is StartRecording
                ==> !m.is_recording,
        forall|i: int|
            0 <= i < m.effects(message).len() && #[trigger] m.effects(message)[i] is StopRecording
                ==> m.is_recording,
{
    let effects = m.effects(message);
    if message is ToggleRecording && !m.busy {
        if m.is_recording {
            assert(effects[0] is StopRecording);
        } else if m.is_v4l2 {
            assert(effects[1] is StartRecording);
        } else {
            assert(effects[0] is StartRecording);
        }
    }
}

} // verus!
