//! How the application answers each message, in every state, and what it then shows.

use crate::camera::{index_for_setup, CameraInfo, Setup};
use crate::frame::Frame;
use crate::mode::{mode_label, Mode};
use crate::model::{AppModel, Drawer, Effect, MainView, Message, Model};
use crate::photo::PhotoPlan;
use vstd::prelude::*;

verus! {

/// A sound application can be told anything and stays sound. The cameras to choose from never
/// change.
pub proof fn anything_can_be_told(app: &mut AppModel, message: Message, effects: Vec<Effect>)
    requires
        app.wf(),
        call_ensures(AppModel::update, (app, message), effects),
    ensures
        call_requires(AppModel::update, (app, message)),
        final(app).wf(),
        final(app)@.is_v4l2 <==> final(app)@.setup !is Portal,
        final(app)@.cameras == old(app)@.cameras,
        final(app)@.camera_labels == old(app)@.camera_labels,
{
}

/// In every state, whether or not a frame is already on the screen, a frame whose width and height
/// are both above zero is drawn: that very frame, and nothing else is done. Afterwards there is a
/// preview, and nothing stands in its place.
pub proof fn every_frame_is_drawn(
    app: &mut AppModel,
    frame: Frame,
    effects: Vec<Effect>,
    shown: MainView,
)
    requires
        call_ensures(AppModel::update, (app, Message::Frame(frame)), effects),
        call_ensures(AppModel::main_view, (&*final(app),), shown),
        frame.width > 0,
        frame.height > 0,
    ensures
        effects@ == seq![Effect::ShowFrame(frame)],
        final(app)@ == (Model { has_preview: true, ..old(app)@ }),
        shown.placeholder is None,
{
}

/// A frame without an area is not drawn, and changes nothing.
pub proof fn frames_without_area_change_nothing(
    app: &mut AppModel,
    frame: Frame,
    effects: Vec<Effect>,
)
    requires
        call_ensures(AppModel::update, (app, Message::Frame(frame)), effects),
        frame.width == 0 || frame.height == 0,
    ensures
        effects@.len() == 0,
        final(app)@ == old(app)@,
{
}

/// A request for a photo is passed on in every state, and changes nothing by itself.
pub proof fn photos_can_be_taken_at_any_time(app: &mut AppModel, effects: Vec<Effect>)
    requires
        call_ensures(AppModel::update, (app, Message::TakePhoto), effects),
    ensures
        effects@ == seq![Effect::TakePhoto],
        final(app)@ == old(app)@,
{
}

/// A photo that was planned is written as it is; without a frame, or where the frame is refused,
/// nothing is written and the status line says why.
pub proof fn planned_photos_are_written(app: &mut AppModel, plan: PhotoPlan, effects: Vec<Effect>)
    requires
        call_ensures(AppModel::update, (app, Message::PhotoPlanned(plan)), effects),
    ensures
        match plan {
            PhotoPlan::NoFrame => effects@.len() == 0 && final(app)@ == (Model {
                status: "No frame captured yet"@,
                ..old(app)@
            }),
            PhotoPlan::Refused { error } => effects@.len() == 0 && final(app)@ == (Model {
                status: "Photo failed: "@ + error@,
                ..old(app)@
            }),
            PhotoPlan::Write(photo) => effects@ == seq![Effect::WritePhoto(photo)] && final(app)@
                == old(app)@,
        },
{
}

/// The status line names the file of a photo that was written, or the error of one that was not.
pub proof fn written_photos_are_named(
    app: &mut AppModel,
    result: Result<String, String>,
    effects: Vec<Effect>,
)
    requires
        call_ensures(AppModel::update, (app, Message::PhotoWritten(result)), effects),
    ensures
        effects@.len() == 0,
        final(app)@ == (Model {
            status: match result {
                Ok(path) => "Saved "@ + path@,
                Err(error) => "Photo failed: "@ + error@,
            },
            ..old(app)@
        }),
{
}

/// While a recording is being started or stopped, the record button does nothing. Else it starts a
/// recording of the setup in use where none runs, and stops the one that runs. The preview of a
/// video device is stopped before a recording, which needs the device, and played after it; behind
/// the portal it is left alone.
pub proof fn the_record_button_starts_or_stops(app: &mut AppModel, effects: Vec<Effect>)
    requires
        app.wf(),
        call_ensures(AppModel::update, (app, Message::ToggleRecording), effects),
    ensures
        final(app)@ == (Model { busy: true, ..old(app)@ }),
        old(app)@.busy ==> effects@.len() == 0,
        !old(app)@.busy && !old(app)@.is_recording ==> match old(app)@.setup {
            Setup::Portal => effects@ == seq![Effect::StartRecording(old(app)@.setup)],
            Setup::V4l2 { .. } => effects@ == seq![
                Effect::StopPreview,
                Effect::StartRecording(old(app)@.setup),
            ],
        },
        !old(app)@.busy && old(app)@.is_recording ==> match old(app)@.setup {
            Setup::Portal => effects@ == seq![Effect::StopRecording],
            Setup::V4l2 { .. } => effects@ == seq![Effect::StopRecording, Effect::PlayPreview],
        },
{
}

/// A recording that was started is known to run; one that was not leaves things as they were, and
/// the preview of a video device is played again. Either way the record button works again.
pub proof fn started_recordings_are_known(
    app: &mut AppModel,
    result: Result<String, String>,
    effects: Vec<Effect>,
)
    requires
        app.wf(),
        call_ensures(AppModel::update, (app, Message::RecordingStarted(result)), effects),
    ensures
        match result {
            Ok(path) => effects@.len() == 0 && final(app)@ == (Model {
                busy: false,
                is_recording: true,
                status: "Recording to "@ + path@,
                ..old(app)@
            }),
            Err(error) => (match old(app)@.setup {
                Setup::Portal => effects@.len() == 0,
                Setup::V4l2 { .. } => effects@ == seq![Effect::PlayPreview],
            }) && final(app)@ == (Model {
                busy: false,
                status: "Recording failed: "@ + error@,
                ..old(app)@
            }),
        },
{
}

/// A recording that was stopped no longer runs, whether its file is complete or not.
pub proof fn stopped_recordings_are_known(
    app: &mut AppModel,
    result: Result<String, String>,
    effects: Vec<Effect>,
)
    requires
        call_ensures(AppModel::update, (app, Message::RecordingStopped(result)), effects),
    ensures
        effects@.len() == 0,
        final(app)@ == (Model {
            busy: false,
            is_recording: false,
            status: match result {
                Ok(path) => "Saved "@ + path@,
                Err(error) => "Recording error: "@ + error@,
            },
            ..old(app)@
        }),
{
}

/// The settings open where they are closed and close where they are open, in every state.
pub proof fn the_settings_open_and_close(app: &mut AppModel, effects: Vec<Effect>, open: bool)
    requires
        call_ensures(AppModel::update, (app, Message::ToggleSettings), effects),
        call_ensures(AppModel::settings_open, (&*final(app),), open),
    ensures
        effects@.len() == 0,
        final(app)@ == (Model { show_context: !old(app)@.show_context, ..old(app)@ }),
        open <==> !old(app)@.show_context,
{
}

/// A camera is selected, without a mode, and a mode is selected, in every state. Selecting does
/// nothing else.
pub proof fn selections_are_kept(
    app: &mut AppModel,
    other: &mut AppModel,
    i: usize,
    effects: Vec<Effect>,
    other_effects: Vec<Effect>,
)
    requires
        call_ensures(AppModel::update, (app, Message::SelectCamera(i)), effects),
        call_ensures(AppModel::update, (other, Message::SelectMode(i)), other_effects),
    ensures
        effects@.len() == 0,
        final(app)@ == (Model { selected_camera: Some(i), selected_mode: None, ..old(app)@ }),
        other_effects@.len() == 0,
        final(other)@ == (Model { selected_mode: Some(i), ..old(other)@ }),
{
}

/// Whether a selection stands for this camera.
pub open spec fn is_selected(m: Model, camera: CameraInfo) -> bool {
    m.selected_camera matches Some(i) && i < m.cameras.len() && m.cameras[i as int] == camera
}

/// Whether a selection stands for a mode of this camera, or for none of them.
pub open spec fn is_mode_of(m: Model, camera: CameraInfo, mode: Option<Mode>) -> bool {
    match m.selected_mode {
        Some(k) => if k < camera.modes@.len() {
            mode == Some(camera.modes@[k as int])
        } else {
            mode is None
        },
        None => mode is None,
    }
}

/// Applying the settings brings up the selected camera in its selected mode, after the preview is
/// stopped and the pictures of the former camera are dropped; the picture on the screen is gone.
pub proof fn applying_brings_up_the_selection(
    app: &mut AppModel,
    camera: CameraInfo,
    effects: Vec<Effect>,
)
    requires
        call_ensures(AppModel::update, (app, Message::ApplySettings), effects),
        !old(app)@.is_recording,
        is_selected(old(app)@, camera),
    ensures
        final(app)@ == (Model { has_preview: false, ..old(app)@ }),
        effects@.len() == 4,
        effects@[0] is StopPreview,
        effects@[1] is DropPreview,
        effects@[2] is DropSample,
        effects@[3] matches Effect::BuildSelected { id, mode } && id == camera.id && is_mode_of(
            old(app)@,
            camera,
            mode,
        ),
{
}

/// Nothing is applied while a recording runs, which the status line says, nor where the selection
/// stands for no camera.
pub proof fn nothing_is_applied_in_vain(app: &mut AppModel, effects: Vec<Effect>)
    requires
        call_ensures(AppModel::update, (app, Message::ApplySettings), effects),
        old(app)@.is_recording || (old(app)@.selected_camera matches Some(i) ==> i >= old(
            app,
        )@.cameras.len()),
    ensures
        effects@.len() == 0,
        old(app)@.is_recording ==> final(app)@ == (Model {
            status: "Stop the recording before switching cameras."@,
            ..old(app)@
        }),
        !old(app)@.is_recording ==> final(app)@ == old(app)@,
{
}

/// A camera that was switched to is the one in use: its pipeline is adopted, the status line
/// describes it and the settings close. Where the switch fails, the former preview is played again
/// and the status line says why.
pub proof fn switches_are_adopted_or_undone(
    app: &mut AppModel,
    result: Result<Setup, String>,
    effects: Vec<Effect>,
    description: String,
)
    requires
        call_ensures(AppModel::update, (app, Message::CameraSwitched(result)), effects),
        result matches Ok(setup) ==> call_ensures(Setup::describe, (&setup,), description),
    ensures
        match result {
            Ok(setup) => effects@ == seq![Effect::AdoptPipeline] && final(app)@ == (Model {
                setup,
                is_v4l2: setup !is Portal,
                status: description@,
                show_context: false,
                ..old(app)@
            }),
            Err(error) => effects@ == seq![Effect::PlayPreview] && final(app)@ == (Model {
                status: "Couldn't switch camera: "@ + error@,
                ..old(app)@
            }),
        },
{
}

/// The application starts idle on its setup, which the status line describes, with the settings
/// closed and no mode selected. The camera in use is selected, and every camera is offered by its
/// label.
pub proof fn the_application_starts_on_its_setup(
    setup: Setup,
    cameras: Vec<CameraInfo>,
    app: AppModel,
    index: Option<usize>,
    description: String,
)
    requires
        call_ensures(AppModel::init, (setup, cameras), app),
        call_ensures(index_for_setup, (&cameras, &setup), index),
        call_ensures(Setup::describe, (&setup,), description),
    ensures
        app.wf(),
        app@.setup == setup,
        app@.is_v4l2 <==> setup !is Portal,
        !app@.has_preview && !app@.is_recording && !app@.busy && !app@.show_context,
        app@.status == description@,
        app@.cameras == cameras@,
        app@.camera_labels.len() == cameras@.len(),
        forall|i: int| 0 <= i < cameras@.len() ==> app@.camera_labels[i] == #[trigger] cameras@[i].label@,
        app@.selected_camera == index,
        app@.selected_mode is None,
{
    if let Some(i) = index {
        if let Some(j) = app@.selected_camera {
            if j < i {
                assert(cameras@[j as int].id@ != setup@);
            }
            if i < j {
                assert(cameras@[i as int].id@ != setup@);
            }
        } else {
            assert(cameras@[i as int].id@ != setup@);
        }
    } else {
        if let Some(j) = app@.selected_camera {
            assert(cameras@[j as int].id@ != setup@);
        }
    }
}

/// The window shows the status line, marked while a recording runs. The record button stops exactly
/// while one runs and rests exactly while one is being started or stopped. Words stand in place of
/// the preview exactly until there is one.
pub proof fn the_window_shows_the_state(app: AppModel, shown: MainView)
    requires
        call_ensures(AppModel::main_view, (&app,), shown),
    ensures
        shown.placeholder is None <==> app@.has_preview,
        shown.placeholder matches Some(text) ==> text@ == "Waiting for camera…"@,
        shown.record_enabled <==> !app@.busy,
        shown.record_stops <==> app@.is_recording,
        app@.is_recording ==> shown.status@ == "● Recording — "@ + app@.status && shown.record_icon@
            == "media-playback-stop-symbolic"@,
        !app@.is_recording ==> shown.status@ == app@.status && shown.record_icon@
            == "media-record-symbolic"@,
{
}

/// The modes to choose from are those of the selected camera, and none where the selection stands
/// for no camera.
pub proof fn modes_are_those_of_the_selected_camera(app: AppModel, modes: &[Mode])
    requires
        call_ensures(AppModel::current_modes, (&app,), modes),
    ensures
        forall|camera: CameraInfo| is_selected(app@, camera) ==> modes@ == camera.modes@,
        (app@.selected_camera matches Some(i) ==> i >= app@.cameras.len()) ==> modes@.len() == 0,
{
}

/// The settings are shown exactly while they are open. They offer every camera and every mode of
/// the selected one by its label and mark what is selected. Applying is offered, and no warning
/// given, exactly while no recording runs.
pub proof fn the_settings_show_the_choice(
    app: AppModel,
    open: bool,
    modes: &[Mode],
    drawer: Option<Drawer>,
)
    requires
        call_ensures(AppModel::settings_open, (&app,), open),
        call_ensures(AppModel::current_modes, (&app,), modes),
        call_ensures(AppModel::context_drawer, (&app,), drawer),
    ensures
        open <==> app@.show_context,
        drawer is Some <==> open,
        drawer matches Some(shown) ==> {
            &&& shown.camera_labels@.len() == app@.camera_labels.len()
            &&& forall|i: int|
                0 <= i < app@.camera_labels.len() ==> (#[trigger] shown.camera_labels@[i])@
                    == app@.camera_labels[i]
            &&& shown.selected_camera == app@.selected_camera
            &&& shown.mode_labels@.len() == modes@.len()
            &&& forall|i: int|
                0 <= i < modes@.len() ==> (#[trigger] shown.mode_labels@[i])@ == mode_label(
                    modes@[i],
                )
            &&& shown.selected_mode == app@.selected_mode
            &&& shown.resolution_note@ == if modes@.len() == 0 {
                "This source negotiates its own resolution — no manual modes to pick."@
            } else {
                "Pick a resolution, or leave unset for automatic."@
            }
            &&& shown.apply_enabled <==> !app@.is_recording
            &&& shown.recording_warning is None <==> !app@.is_recording
            &&& shown.recording_warning matches Some(warning) ==> warning@
                == "Stop the recording before switching cameras."@
        },
{
    if let Some(shown) = drawer {
        let labels = shown.camera_labels@.map_values(|s: String| s@);
        assert(labels.len() == shown.camera_labels@.len());
        assert forall|i: int| 0 <= i < app@.camera_labels.len() implies (
        #[trigger] shown.camera_labels@[i])@ == app@.camera_labels[i] by {
            assert(labels[i] == shown.camera_labels@[i]@);
        }
        let offered = shown.mode_labels@.map_values(|s: String| s@);
        let expected = app@.modes().map_values(|m: Mode| mode_label(m));
        assert(offered.len() == shown.mode_labels@.len());
        assert(expected.len() == modes@.len());
        assert forall|i: int| 0 <= i < modes@.len() implies (#[trigger] shown.mode_labels@[i])@
            == mode_label(modes@[i]) by {
            assert(offered[i] == shown.mode_labels@[i]@);
            assert(expected[i] == mode_label(modes@[i]));
        }
    }
}

/// The label by which a mode is offered in the settings is its own label.
pub proof fn modes_are_offered_by_their_label(mode: Mode, label: String)
    requires
        call_ensures(Mode::label, (&mode,), label),
    ensures
        label@ == mode_label(mode),
{
}

} // verus!
