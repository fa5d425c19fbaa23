use cosmic_camera::camera::Setup;
use cosmic_camera::errors::CaptureError;
use cosmic_camera::preview::{
    confirm_playing, preview_result, preview_step, PreviewAction, PreviewEvent, StateChange,
};
use cosmic_camera::startup::{
    bootstrap, portal_setup_step, video_devices, BootAction, BootEvent, DeviceProbe, PortalAction,
    PortalEvent, ProbeStep,
};

fn strings(names: &[&str]) -> Vec<String> {
    names.iter().map(|n| n.to_string()).collect()
}

fn tried(probe: &DeviceProbe) -> String {
    match probe.step() {
        ProbeStep::Try { setup: Setup::V4l2 { device }, pipeline } => {
            assert!(pipeline.starts_with(&format!("v4l2src device={device} ! videoconvert")));
            device
        }
        _ => panic!("a device was left"),
    }
}

#[test]
fn video_devices_are_picked_and_sorted() {
    let entries = strings(&["video2", "null", "video10", "vide", "video0", "avideo1", "video"]);
    assert_eq!(video_devices(&entries), strings(&["video", "video0", "video10", "video2"]));
    assert!(video_devices(&vec![]).is_empty());
}

#[test]
fn repeated_names_are_kept() {
    let entries = strings(&["video1", "video0", "video1"]);
    assert_eq!(video_devices(&entries), strings(&["video0", "video1", "video1"]));
}

#[test]
fn a_probe_needs_a_video_device() {
    let e = DeviceProbe::start(&strings(&["null", "tty"])).err().unwrap();
    assert_eq!(e, CaptureError::NoVideoDevices);
    assert_eq!(e.message(), "no /dev/video* devices found");
}

#[test]
fn a_probe_tries_each_device_in_turn() {
    let mut probe = DeviceProbe::start(&strings(&["video1", "video0"])).unwrap();
    assert_eq!(tried(&probe), "/dev/video0");
    let answer = probe.tell(PreviewEvent::Launched);
    assert!(matches!(answer.action, PreviewAction::ConfirmPlaying));
    assert_eq!(answer.note, None);
    assert_eq!(tried(&probe), "/dev/video0");
    let answer = probe.tell(PreviewEvent::NotPlaying { error: "busy".to_string() });
    assert!(matches!(answer.action, PreviewAction::TearDown { error } if error == "busy"));
    assert_eq!(answer.note.unwrap(), "  /dev/video0 not usable for capture: busy");
    assert_eq!(tried(&probe), "/dev/video1");
    let answer = probe.tell(PreviewEvent::Failed { error: "gone".to_string() });
    assert!(matches!(answer.action, PreviewAction::GiveUp { error } if error == "gone"));
    assert_eq!(answer.note.unwrap(), "  /dev/video1 not usable for capture: gone");
    match probe.step() {
        ProbeStep::GiveUp { error } => assert_eq!(error, "gone"),
        ProbeStep::Try { .. } => panic!("no device was left"),
    }
}

#[test]
fn a_probe_stays_at_a_device_that_plays() {
    let mut probe = DeviceProbe::start(&strings(&["video0", "video1"])).unwrap();
    assert!(matches!(probe.tell(PreviewEvent::Launched).action, PreviewAction::ConfirmPlaying));
    let answer = probe.tell(PreviewEvent::Playing);
    assert!(matches!(answer.action, PreviewAction::Use));
    assert_eq!(answer.note, None);
    assert_eq!(tried(&probe), "/dev/video0");
}

#[test]
fn only_a_finished_change_counts_as_playing() {
    let late = "pipeline did not reach Playing within 3s";
    let error = |change| match confirm_playing(change) {
        PreviewEvent::NotPlaying { error } => error,
        _ => panic!("the pipeline did not play"),
    };
    assert!(matches!(confirm_playing(StateChange::Finished), PreviewEvent::Playing));
    assert_eq!(error(StateChange::Pending), late);
    assert_eq!(error(StateChange::Failed), late);
    assert_eq!(error(StateChange::Refused { error: "no".to_string() }), "no");
}

#[test]
fn previews_are_confirmed_then_used_or_stopped() {
    let device = Setup::V4l2 { device: "/dev/video0".to_string() };
    let action = preview_step(PreviewEvent::Launched);
    assert!(matches!(action, PreviewAction::ConfirmPlaying));
    assert_eq!(preview_result(device.clone(), action), None);
    let action = preview_step(PreviewEvent::Playing);
    assert!(matches!(action, PreviewAction::Use));
    assert_eq!(preview_result(device.clone(), action), Some(Ok(device.clone())));
    let action = preview_step(PreviewEvent::NotPlaying { error: "stuck".to_string() });
    assert!(matches!(action, PreviewAction::TearDown { .. }));
    assert_eq!(preview_result(device.clone(), action), Some(Err("stuck".to_string())));
    let action = preview_step(PreviewEvent::Failed { error: "bad".to_string() });
    assert!(matches!(action, PreviewAction::GiveUp { .. }));
    assert_eq!(preview_result(device, action), Some(Err("bad".to_string())));
}

#[test]
fn the_portal_is_negotiated_step_by_step() {
    assert!(matches!(portal_setup_step(PortalEvent::Connected), PortalAction::CheckPresence));
    assert!(matches!(portal_setup_step(PortalEvent::Presence(true)), PortalAction::RequestAccess));
    assert!(matches!(portal_setup_step(PortalEvent::AccessGranted), PortalAction::OpenRemote));
    match portal_setup_step(PortalEvent::RemoteOpened { fd: 5 }) {
        PortalAction::Launch { pipeline } => {
            assert!(pipeline.starts_with("pipewiresrc fd=5 ! videoconvert"))
        }
        _ => panic!("a pipeline was to be launched"),
    }
    assert!(matches!(
        portal_setup_step(PortalEvent::Preview(PreviewEvent::Launched)),
        PortalAction::ConfirmPlaying
    ));
    match portal_setup_step(PortalEvent::Preview(PreviewEvent::Playing)) {
        PortalAction::Finish { setup } => assert_eq!(setup, Setup::Portal),
        _ => panic!("the portal was ready"),
    }
}

#[test]
fn the_portal_can_fail() {
    let give_up = |event| match portal_setup_step(event) {
        PortalAction::GiveUp { error } => error,
        _ => panic!("the portal had failed"),
    };
    assert_eq!(give_up(PortalEvent::Presence(false)), "portal reports no camera present");
    assert_eq!(give_up(PortalEvent::TimedOut), "portal negotiation timed out after 5s");
    assert_eq!(give_up(PortalEvent::Failed { error: "denied".to_string() }), "denied");
    let unbuilt = PreviewEvent::Failed { error: "bad".to_string() };
    assert_eq!(give_up(PortalEvent::Preview(unbuilt)), "bad");
    let stuck = PreviewEvent::NotPlaying { error: "stuck".to_string() };
    match portal_setup_step(PortalEvent::Preview(stuck)) {
        PortalAction::TearDown { error } => assert_eq!(error, "stuck"),
        _ => panic!("the pipeline was to be stopped"),
    }
}

#[test]
fn starting_prefers_the_portal() {
    match bootstrap(BootEvent::Begin) {
        BootAction::TryPortal { note } => {
            assert_eq!(note, "Trying portal capture path (org.freedesktop.portal.Camera)...")
        }
        _ => panic!("the portal comes first"),
    }
    match bootstrap(BootEvent::Portal(Ok(Setup::Portal))) {
        BootAction::Ready { setup, note } => {
            assert_eq!(setup, Setup::Portal);
            assert_eq!(note, "Capture path in use: Portal · PipeWire");
        }
        _ => panic!("the portal was ready"),
    }
}

#[test]
fn starting_falls_back_to_devices() {
    match bootstrap(BootEvent::Portal(Err("no backend".to_string()))) {
        BootAction::TryDevices { note } => assert_eq!(
            note,
            "Portal path failed: no backend\nFalling back to direct V4L2 access:"
        ),
        _ => panic!("devices come next"),
    }
    let device = Setup::V4l2 { device: "/dev/video0".to_string() };
    match bootstrap(BootEvent::Devices(Ok(device.clone()))) {
        BootAction::Ready { setup, note } => {
            assert_eq!(setup, device);
            assert_eq!(note, "Capture path in use: Direct V4L2 · /dev/video0");
        }
        _ => panic!("a device was ready"),
    }
    match bootstrap(BootEvent::Devices(Err("busy".to_string()))) {
        BootAction::Fail { context, cause } => {
            assert_eq!(context, "both the portal and V4L2 capture paths failed");
            assert_eq!(cause, "busy");
        }
        _ => panic!("nothing was left"),
    }
}

#[test]
fn errors_have_reports() {
    assert_eq!(CaptureError::NotPlaying.message(), "pipeline did not reach Playing within 3s");
    assert_eq!(
        CaptureError::NotAPipeline.message(),
        "expected gst::parse::launch to return a Pipeline"
    );
    assert_eq!(
        CaptureError::ElementNotFound("photo_sink".to_string()).message(),
        "photo_sink element not found in pipeline"
    );
    assert_eq!(
        CaptureError::NotASink("photo_sink".to_string()).message(),
        "photo_sink is not an AppSink"
    );
    assert_eq!(
        CaptureError::DevicesNotListed.message(),
        "failed to list /dev for video devices"
    );
    assert_eq!(CaptureError::NotRecording.message(), "not currently recording");
    assert_eq!(CaptureError::NoCameraPresent.message(), "portal reports no camera present");
    assert_eq!(CaptureError::PortalTimedOut.message(), "portal negotiation timed out after 5s");
}
