use cosmic_camera::camera::{CameraId, Setup};
use cosmic_camera::mode::Mode;
use cosmic_camera::pipeline::{
    build_preview_pipeline, build_selected, device_source, portal_source, start_recording,
    stop_recording, Finalized, Selection, PHOTO_SINK, PREVIEW_SINK,
};

const PREVIEW_TAIL: &str = " ! videoconvert ! video/x-raw,format=RGBA ! tee name=t \
     t. ! queue max-size-buffers=4 leaky=downstream ! videoscale ! \
     video/x-raw,width=800,pixel-aspect-ratio=1/1 ! \
     appsink name=preview_sink sync=false max-buffers=1 drop=true \
     t. ! queue max-size-buffers=2 leaky=downstream ! \
     appsink name=photo_sink sync=false max-buffers=1 drop=true";

fn mode(media_type: &str, framerate: Option<(i32, i32)>) -> Option<Mode> {
    Some(Mode { media_type: media_type.to_string(), width: 1280, height: 720, framerate })
}

fn selected(mode: Option<Mode>) -> String {
    match build_selected(&CameraId::V4l2("/dev/video4".to_string()), &mode) {
        Selection::Device { setup, pipeline } => {
            assert_eq!(setup, Setup::V4l2 { device: "/dev/video4".to_string() });
            pipeline
        }
        Selection::Portal => panic!("a device was selected"),
    }
}

#[test]
fn sources_name_what_they_read() {
    assert_eq!(portal_source(17), "pipewiresrc fd=17");
    assert_eq!(portal_source(-1), "pipewiresrc fd=-1");
    assert_eq!(device_source("/dev/video0"), "v4l2src device=/dev/video0");
}

#[test]
fn the_preview_splits_into_two_sinks() {
    let text = build_preview_pipeline("src");
    assert_eq!(text, format!("src{PREVIEW_TAIL}"));
    assert!(text.contains(&format!("name={PREVIEW_SINK} ")));
    assert!(text.contains(&format!("name={PHOTO_SINK} ")));
}

#[test]
fn compressed_modes_are_decoded() {
    assert_eq!(
        selected(mode("image/jpeg", Some((30, 1)))),
        format!(
            "v4l2src device=/dev/video4 ! image/jpeg,width=1280,height=720,framerate=30/1 ! jpegdec{PREVIEW_TAIL}"
        )
    );
}

#[test]
fn raw_modes_are_not_decoded() {
    assert_eq!(
        selected(mode("video/x-raw", None)),
        format!("v4l2src device=/dev/video4 ! video/x-raw,width=1280,height=720{PREVIEW_TAIL}")
    );
}

#[test]
fn without_a_mode_the_device_decides() {
    assert_eq!(selected(None), format!("v4l2src device=/dev/video4{PREVIEW_TAIL}"));
}

#[test]
fn the_portal_takes_no_mode() {
    let selection = build_selected(&CameraId::Portal, &mode("image/jpeg", None));
    assert!(matches!(selection, Selection::Portal));
}

#[test]
fn recordings_have_a_pipeline_of_their_own() {
    let device = Setup::V4l2 { device: "/dev/video0".to_string() };
    let plan = start_recording(&device, None, "/v", 12);
    assert_eq!(plan.path, "/v/cosmic-camera-12.webm");
    assert_eq!(
        plan.pipeline,
        "v4l2src device=/dev/video0 ! videoconvert ! vp8enc ! webmmux ! filesink location=\"/v/cosmic-camera-12.webm\""
    );
    let plan = start_recording(&Setup::Portal, Some(9), "/v", 13);
    assert_eq!(
        plan.pipeline,
        "pipewiresrc fd=9 ! videoconvert ! vp8enc ! webmmux ! filesink location=\"/v/cosmic-camera-13.webm\""
    );
}

#[test]
fn the_end_of_a_recording_is_logged_if_it_went_wrong() {
    let path = "/v/a.webm".to_string();
    let complete = stop_recording(path.clone(), &Finalized::Complete);
    assert_eq!(complete.note, None);
    assert_eq!(complete.path, path);
    let late = stop_recording(path.clone(), &Finalized::TimedOut);
    assert_eq!(late.path, path);
    assert_eq!(
        late.note.unwrap(),
        "Timed out waiting for recording to finalize; file may be truncated."
    );
    let failed = Finalized::Failed { error: "no space".to_string(), debug: "None".to_string() };
    let broken = stop_recording(path.clone(), &failed);
    assert_eq!(broken.path, path);
    assert_eq!(
        broken.note.unwrap(),
        "Error while finalizing recording: no space (None)"
    );
}
