//! Bringing up a preview pipeline, behind the portal as on a video device: it is launched,
//! confirmed to play, and then either used or stopped.

use crate::camera::{CameraId, Setup};
use crate::errors::{error_text, CaptureError};
use crate::mode::Mode;
use crate::pipeline::{is_selection, Selection};
use vstd::prelude::*;

verus! {

/// How a pipeline that was asked to play has answered within its time.
pub enum StateChange {
    /// It refused at once.
    Refused { error: String },
    /// It plays.
    Finished,
    /// It is still on its way.
    Pending,
    /// It failed on its way.
    Failed,
}

/// What has happened to a preview pipeline.
pub enum PreviewEvent {
    /// It is built.
    Launched,
    /// It plays.
    Playing,
    /// It is built, but it did not start.
    NotPlaying { error: String },
    /// It could not be built.
    Failed { error: String },
}

/// What to do next with a preview pipeline.
pub enum PreviewAction {
    /// Ask it to play and wait until it does.
    ConfirmPlaying,
    /// Use it.
    Use,
    /// Stop it, then report the error.
    TearDown { error: String },
    /// Report the error; there is no pipeline to stop.
    GiveUp { error: String },
}

/// Whether an event tells how a request to play came out: only a finished change counts as
/// playing.
pub open spec fn is_confirmation(change: StateChange, event: PreviewEvent) -> bool {
    match change {
        StateChange::Refused { error } => event == PreviewEvent::NotPlaying { error },
        StateChange::Finished => event is Playing,
        StateChange::Pending | StateChange::Failed => event matches PreviewEvent::NotPlaying {
            error,
        } && error@ == error_text(CaptureError::NotPlaying),
    }
}

/// Tells how a request to play came out. A pipeline has to get there, since what it negotiates can
/// fail after it has accepted the request.
pub fn confirm_playing(change: StateChange) -> (event: PreviewEvent)
    ensures
        is_confirmation(change, event),
{
    match change {
        StateChange::Refused { error } => PreviewEvent::NotPlaying { error },
        StateChange::Finished => PreviewEvent::Playing,
        StateChange::Pending | StateChange::Failed => PreviewEvent::NotPlaying {
            error: CaptureError::NotPlaying.message(),
        },
    }
}

/// The answer to an event: a preview that was built is confirmed, and stopped if it does not
/// play.
pub open spec fn preview_answer(event: PreviewEvent) -> PreviewAction {
    match event {
        PreviewEvent::Launched => PreviewAction::ConfirmPlaying,
        PreviewEvent::Playing => PreviewAction::Use,
        PreviewEvent::NotPlaying { error } => PreviewAction::TearDown { error },
        PreviewEvent::Failed { error } => PreviewAction::GiveUp { error },
    }
}

/// One step of bringing up a preview.
pub fn preview_step(event: PreviewEvent) -> (action: PreviewAction)
    ensures
        action == preview_answer(event),
{
    match event {
        PreviewEvent::Launched => PreviewAction::ConfirmPlaying,
        PreviewEvent::Playing => PreviewAction::Use,
        PreviewEvent::NotPlaying { error } => PreviewAction::TearDown { error },
        PreviewEvent::Failed { error } => PreviewAction::GiveUp { error },
    }
}

/// What bringing up a preview for a setup has come to, once there is nothing left to do but the
/// action.
pub open spec fn preview_outcome(setup: Setup, action: PreviewAction) -> Option<
    Result<Setup, String>,
> {
    match action {
        PreviewAction::ConfirmPlaying => None,
        PreviewAction::Use => Some(Ok(setup)),
        PreviewAction::TearDown { error } => Some(Err(error)),
        PreviewAction::GiveUp { error } => Some(Err(error)),
    }
}

/// What to report of a preview for a setup: the setup where it plays, the error where it does not,
/// and nothing while that is open.
pub fn preview_result(setup: Setup, action: PreviewAction) -> (res: Option<Result<Setup, String>>)
    ensures
        res == preview_outcome(setup, action),
{
    match action {
        PreviewAction::ConfirmPlaying => None,
        PreviewAction::Use => Some(Ok(setup)),
        PreviewAction::TearDown { error } => Some(Err(error)),
        PreviewAction::GiveUp { error } => Some(Err(error)),
    }
}

/// The error that an event brings.
pub open spec fn preview_error(event: PreviewEvent) -> Option<Seq<char>> {
    match event {
        PreviewEvent::NotPlaying { error } => Some(error@),
        PreviewEvent::Failed { error } => Some(error@),
        _ => None,
    }
}

/// A course of bringing up a preview: it begins with the attempt to build it, every event is
/// answered, and only a request to play is followed by a further event.
pub open spec fn is_preview_run(events: Seq<PreviewEvent>, actions: Seq<PreviewAction>) -> bool {
    &&& 0 < events.len() == actions.len()
    &&& events[0] is Launched || events[0] is Failed
    &&& forall|i: int| 0 <= i < events.len() ==> #[trigger] actions[i] == preview_answer(events[i])
    &&& forall|i: int|
        0 < i < events.len() ==> actions[i - 1] is ConfirmPlaying && (#[trigger] events[i] is Playing
            || events[i] is NotPlaying)
}

/// A preview is used only after it was built and has played. One that was built and does not play
/// is stopped, and the error that is reported is the one that came.
pub proof fn previews_are_used_or_stopped(events: Seq<PreviewEvent>, actions: Seq<PreviewAction>)
    requires
        is_preview_run(events, actions),
    ensures
        events.len() <= 2,
        actions.last() is ConfirmPlaying <==> events.len() == 1 && events[0] is Launched,
        actions.last() is Use <==> events.len() == 2 && events[0] is Launched && events[1]
            is Playing,
        actions.last() is TearDown <==> events.len() == 2 && events[0] is Launched && events[1]
            is NotPlaying,
        actions.last() is GiveUp <==> events.len() == 1 && events[0] is Failed,
        actions.last() matches PreviewAction::TearDown { error } ==> events.last() == (
        PreviewEvent::NotPlaying { error }),
        actions.last() matches PreviewAction::GiveUp { error } ==> events.last() == (
        PreviewEvent::Failed { error }),
{
    assert(actions[0] == preview_answer(events[0]));
    if events.len() > 1 {
        assert(events[1] is Playing || events[1] is NotPlaying);
        assert(actions[1 - 1] is ConfirmPlaying);
        assert(actions[1] == preview_answer(events[1]));
    }
    if events.len() > 2 {
        assert(events[2] is Playing || events[2] is NotPlaying);
        assert(actions[2 - 1] is ConfirmPlaying);
    }
}

/// A device that the user selected is the one that comes up, and only once its preview plays. Else
/// its own error is reported, and its preview, where it was built, is stopped.
pub proof fn selected_devices_come_up_or_fail(
    id: CameraId,
    mode: Option<Mode>,
    setup: Setup,
    pipeline: String,
    events: Seq<PreviewEvent>,
    actions: Seq<PreviewAction>,
)
    requires
        is_selection(id, mode, Selection::Device { setup, pipeline }),
        is_preview_run(events, actions),
    ensures
        preview_outcome(setup, actions.last()) matches Some(Ok(used)) ==> used is V4l2 && used@
            == id@ && events.last() is Playing,
        preview_outcome(setup, actions.last()) matches Some(Err(error)) ==> preview_error(
            events.last(),
        ) == Some(error@) && (events[0] is Launched ==> actions.last() is TearDown),
        preview_outcome(setup, actions.last()) is None ==> events.last() is Launched,
{
    previews_are_used_or_stopped(events, actions);
}

} // verus!
