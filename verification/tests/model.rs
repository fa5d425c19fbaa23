use cosmic_camera::camera::{CameraId, CameraInfo, Setup};
use cosmic_camera::frame::Frame;
use cosmic_camera::mode::Mode;
use cosmic_camera::model::{AppModel, Effect, Message};
use cosmic_camera::photo::{plan_photo, PhotoPlan};
use std::sync::Arc;

const NODE: &str = "/dev/video0";

fn text(s: &str) -> String {
    s.to_string()
}

fn device() -> Setup {
    Setup::V4l2 { device: text(NODE) }
}

fn mode(width: u32) -> Mode {
    Mode { media_type: text("image/jpeg"), width, height: 480, framerate: Some((30, 1)) }
}

fn cameras() -> Vec<CameraInfo> {
    vec![
        CameraInfo { id: CameraId::Portal, label: text("Auto"), modes: vec![] },
        CameraInfo {
            id: CameraId::V4l2(text(NODE)),
            label: text("Webcam"),
            modes: vec![mode(1280), mode(640)],
        },
    ]
}

fn start(setup: Setup) -> AppModel {
    AppModel::init(setup, cameras())
}

fn status(model: &AppModel) -> String {
    model.main_view().status
}

fn frame(width: u32, height: u32) -> Frame {
    Frame { width, height, rgba: Arc::new(vec![0; 4]) }
}

#[test]
fn the_application_opens_on_the_camera_in_use() {
    let mut model = start(device());
    assert_eq!(status(&model), "Direct V4L2 · /dev/video0");
    assert!(model.context_drawer().is_none());
    assert!(!model.settings_open());
    model.update(Message::ToggleSettings);
    assert!(model.settings_open());
    let drawer = model.context_drawer().unwrap();
    assert_eq!(drawer.camera_labels, vec!["Auto", "Webcam"]);
    assert_eq!(drawer.selected_camera, Some(1));
    assert_eq!(drawer.selected_mode, None);
    assert_eq!(drawer.mode_labels, vec!["1280×480 · MJPEG · 30fps", "640×480 · MJPEG · 30fps"]);
    assert_eq!(drawer.resolution_note, "Pick a resolution, or leave unset for automatic.");
    assert!(drawer.apply_enabled);
    assert!(drawer.recording_warning.is_none());
    assert_eq!(model.current_modes().len(), 2);
    model.update(Message::ToggleSettings);
    assert!(model.context_drawer().is_none());
}

#[test]
fn the_portal_offers_no_modes() {
    let mut model = start(Setup::Portal);
    model.update(Message::ToggleSettings);
    let drawer = model.context_drawer().unwrap();
    assert_eq!(drawer.selected_camera, Some(0));
    assert!(drawer.mode_labels.is_empty());
    assert_eq!(
        drawer.resolution_note,
        "This source negotiates its own resolution — no manual modes to pick."
    );
    assert!(model.current_modes().is_empty());
}

#[test]
fn only_frames_with_an_area_are_shown() {
    let mut model = start(Setup::Portal);
    assert_eq!(model.main_view().placeholder.unwrap(), "Waiting for camera…");
    assert!(model.update(Message::Frame(Frame::empty())).is_empty());
    assert!(model.update(Message::Frame(frame(1, 0))).is_empty());
    assert!(model.main_view().placeholder.is_some());
    let effects = model.update(Message::Frame(frame(1, 1)));
    assert!(matches!(effects.as_slice(), [Effect::ShowFrame(f)] if f.width == 1));
    assert!(model.main_view().placeholder.is_none());
}

#[test]
fn photos_report_how_they_went() {
    let mut model = start(Setup::Portal);
    assert!(matches!(model.update(Message::TakePhoto).as_slice(), [Effect::TakePhoto]));
    assert_eq!(status(&model), "Portal · PipeWire");
    let effects = model.update(Message::PhotoPlanned(plan_photo(&Some(frame(1, 1)))));
    match effects.as_slice() {
        [Effect::WritePhoto(photo)] => {
            assert_eq!((photo.width, photo.height), (1, 1));
            assert_eq!(photo.rgb, vec![0, 0, 0]);
        }
        _ => panic!("a photo was to be written"),
    }
    assert_eq!(status(&model), "Portal · PipeWire");
    assert!(model.update(Message::PhotoWritten(Ok(text("/p/1.jpg")))).is_empty());
    assert_eq!(status(&model), "Saved /p/1.jpg");
    assert!(model.update(Message::PhotoWritten(Err(text("disk full")))).is_empty());
    assert_eq!(status(&model), "Photo failed: disk full");
}

#[test]
fn photos_need_a_whole_frame() {
    let mut model = start(Setup::Portal);
    assert!(model.update(Message::PhotoPlanned(plan_photo(&None))).is_empty());
    assert_eq!(status(&model), "No frame captured yet");
    let plan = plan_photo(&Some(frame(2, 1)));
    assert!(matches!(&plan, PhotoPlan::Refused { .. }));
    assert!(model.update(Message::PhotoPlanned(plan)).is_empty());
    assert_eq!(status(&model), "Photo failed: frame size doesn't match RGBA buffer length");
}

#[test]
fn recording_a_device_takes_it_from_the_preview_and_gives_it_back() {
    let mut model = start(device());
    let effects = model.update(Message::ToggleRecording);
    assert!(matches!(
        effects.as_slice(),
        [Effect::StopPreview, Effect::StartRecording(Setup::V4l2 { .. })]
    ));
    assert!(!model.main_view().record_enabled);
    assert!(model.update(Message::ToggleRecording).is_empty());
    assert!(model.update(Message::RecordingStarted(Ok(text("/v/1.webm")))).is_empty());
    let view = model.main_view();
    assert_eq!(view.status, "● Recording — Recording to /v/1.webm");
    assert_eq!(view.record_icon, "media-playback-stop-symbolic");
    assert!(view.record_stops && view.record_enabled);
    let effects = model.update(Message::ToggleRecording);
    assert!(matches!(effects.as_slice(), [Effect::StopRecording, Effect::PlayPreview]));
    assert!(model.update(Message::RecordingStopped(Ok(text("/v/1.webm")))).is_empty());
    let view = model.main_view();
    assert_eq!(view.status, "Saved /v/1.webm");
    assert_eq!(view.record_icon, "media-record-symbolic");
    assert!(!view.record_stops && view.record_enabled);
}

#[test]
fn recording_behind_the_portal_leaves_the_preview_alone() {
    let mut model = start(Setup::Portal);
    let effects = model.update(Message::ToggleRecording);
    assert!(matches!(effects.as_slice(), [Effect::StartRecording(Setup::Portal)]));
    model.update(Message::RecordingStarted(Ok(text("/v/1.webm"))));
    let effects = model.update(Message::ToggleRecording);
    assert!(matches!(effects.as_slice(), [Effect::StopRecording]));
    model.update(Message::RecordingStopped(Err(text("lost"))));
    assert_eq!(status(&model), "Recording error: lost");
}

#[test]
fn a_recording_that_does_not_start_restores_the_preview() {
    let mut model = start(device());
    model.update(Message::ToggleRecording);
    let effects = model.update(Message::RecordingStarted(Err(text("busy"))));
    assert!(matches!(effects.as_slice(), [Effect::PlayPreview]));
    assert_eq!(status(&model), "Recording failed: busy");
    assert!(model.main_view().record_enabled);
    let mut model = start(Setup::Portal);
    model.update(Message::ToggleRecording);
    assert!(model.update(Message::RecordingStarted(Err(text("busy")))).is_empty());
}

#[test]
fn a_switch_frees_the_device_and_drops_old_pictures() {
    let mut model = start(device());
    model.update(Message::Frame(frame(1, 1)));
    model.update(Message::SelectMode(1));
    let effects = model.update(Message::ApplySettings);
    match effects.as_slice() {
        [Effect::StopPreview, Effect::DropPreview, Effect::DropSample, Effect::BuildSelected { id, mode: chosen }] => {
            assert_eq!(*id, CameraId::V4l2(text(NODE)));
            assert_eq!(*chosen, Some(mode(640)));
        }
        _ => panic!("a camera was to be brought up"),
    }
    assert!(model.main_view().placeholder.is_some());
}

#[test]
fn another_camera_starts_without_a_mode() {
    let mut model = start(device());
    model.update(Message::SelectMode(1));
    model.update(Message::SelectCamera(0));
    let effects = model.update(Message::ApplySettings);
    assert!(matches!(
        effects.last().unwrap(),
        Effect::BuildSelected { id: CameraId::Portal, mode: None }
    ));
}

#[test]
fn a_mode_that_is_not_there_is_no_mode() {
    let mut model = start(device());
    model.update(Message::SelectMode(2));
    let effects = model.update(Message::ApplySettings);
    assert!(matches!(effects.last().unwrap(), Effect::BuildSelected { mode: None, .. }));
}

#[test]
fn a_camera_that_is_not_there_is_not_applied() {
    let mut model = start(device());
    model.update(Message::SelectCamera(2));
    assert!(model.update(Message::ApplySettings).is_empty());
    assert!(model.current_modes().is_empty());
    let mut model = AppModel::init(device(), vec![]);
    assert!(model.update(Message::ApplySettings).is_empty());
    assert_eq!(status(&model), "Direct V4L2 · /dev/video0");
}

#[test]
fn a_switch_that_works_closes_the_settings() {
    let mut model = start(Setup::Portal);
    model.update(Message::ToggleSettings);
    model.update(Message::SelectCamera(1));
    model.update(Message::ApplySettings);
    let effects = model.update(Message::CameraSwitched(Ok(device())));
    assert!(matches!(effects.as_slice(), [Effect::AdoptPipeline]));
    assert_eq!(status(&model), "Direct V4L2 · /dev/video0");
    assert!(model.context_drawer().is_none());
    let effects = model.update(Message::ToggleRecording);
    assert!(matches!(effects[0], Effect::StopPreview));
}

#[test]
fn a_switch_that_fails_brings_the_preview_back() {
    let mut model = start(Setup::Portal);
    model.update(Message::ToggleSettings);
    model.update(Message::SelectCamera(1));
    model.update(Message::ApplySettings);
    let effects = model.update(Message::CameraSwitched(Err(text("busy"))));
    assert!(matches!(effects.as_slice(), [Effect::PlayPreview]));
    assert_eq!(status(&model), "Couldn't switch camera: busy");
    assert!(model.context_drawer().is_some());
}

#[test]
fn recording_refuses_a_switch() {
    let mut model = start(device());
    model.update(Message::ToggleRecording);
    model.update(Message::RecordingStarted(Ok(text("/v/1.webm"))));
    model.update(Message::ToggleSettings);
    let drawer = model.context_drawer().unwrap();
    assert!(!drawer.apply_enabled);
    assert_eq!(
        drawer.recording_warning.unwrap(),
        "Stop the recording before switching cameras."
    );
    assert!(model.update(Message::ApplySettings).is_empty());
    assert_eq!(
        status(&model),
        "● Recording — Stop the recording before switching cameras."
    );
}
