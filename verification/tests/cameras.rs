use cosmic_camera::camera::{
    device_path, enumerate_cameras, index_for_setup, CameraId, Device, Property, Setup,
};
use cosmic_camera::framerate::FramerateField;
use cosmic_camera::mode_list::CapsStructure;

fn property(name: &str, value: Option<&str>) -> Property {
    Property { name: name.to_string(), value: value.map(|v| v.to_string()) }
}

fn device(name: &str, properties: Option<Vec<Property>>) -> Device {
    Device { display_name: name.to_string(), properties, caps: None }
}

fn v4l2(device: &str) -> Setup {
    Setup::V4l2 { device: device.to_string() }
}

#[test]
fn setups_describe_themselves() {
    assert_eq!(Setup::Portal.describe(), "Portal · PipeWire");
    assert_eq!(v4l2("/dev/video2").describe(), "Direct V4L2 · /dev/video2");
    assert!(!Setup::Portal.is_v4l2());
    assert!(v4l2("/dev/video2").is_v4l2());
}

#[test]
fn clones_of_ids_and_setups_are_equal() {
    let id = CameraId::V4l2("/dev/video0".to_string());
    assert_eq!(id.clone(), id);
    assert_eq!(CameraId::Portal.clone(), CameraId::Portal);
    assert_eq!(v4l2("/dev/video0").clone(), v4l2("/dev/video0"));
    assert_eq!(Setup::Portal.clone(), Setup::Portal);
}

#[test]
fn the_device_path_is_found_under_four_names() {
    for key in ["device.path", "api.v4l2.path", "object.path", "device"] {
        let props = Some(vec![property("other", Some("/dev/no")), property(key, Some("/dev/video1"))]);
        assert_eq!(device_path(&props), Some("/dev/video1".to_string()));
    }
}

#[test]
fn earlier_names_win_if_they_name_a_node() {
    let props = Some(vec![
        property("device", Some("/dev/video3")),
        property("object.path", Some("v4l2:/dev/video2")),
        property("api.v4l2.path", Some("/dev/video1")),
        property("device.path", Some("/sys/video0")),
    ]);
    assert_eq!(device_path(&props), Some("/dev/video1".to_string()));
}

#[test]
fn other_kinds_of_nodes_are_passed_over() {
    let props = Some(vec![
        property("device.path", Some("/dev/media0")),
        property("device", Some("/dev/video0")),
    ]);
    assert_eq!(device_path(&props), Some("/dev/video0".to_string()));
    let media = Some(vec![property("device.path", Some("/dev/media0"))]);
    assert_eq!(device_path(&media), None);
    assert_eq!(enumerate_cameras(&vec![device("Media", media)]).len(), 1);
}

#[test]
fn devices_without_a_node_have_no_path() {
    assert_eq!(device_path(&None), None);
    assert_eq!(device_path(&Some(vec![])), None);
    assert_eq!(device_path(&Some(vec![property("device.path", None)])), None);
    assert_eq!(device_path(&Some(vec![property("device.path", Some("/dev"))])), None);
}

#[test]
fn cameras_start_with_the_portal() {
    let cameras = enumerate_cameras(&vec![]);
    assert_eq!(cameras.len(), 1);
    assert_eq!(cameras[0].id, CameraId::Portal);
    assert_eq!(cameras[0].label, "Auto (portal / default)");
    assert!(cameras[0].modes.is_empty());
}

#[test]
fn addressable_devices_follow_in_order() {
    let mut webcam = device("Webcam", Some(vec![property("device.path", Some("/dev/video2"))]));
    webcam.caps = Some(vec![CapsStructure {
        name: "image/jpeg".to_string(),
        width: Some(640),
        height: Some(480),
        framerate: FramerateField::Fraction((30, 1)),
    }]);
    let devices = vec![
        webcam,
        device("Virtual", None),
        device("Capture", Some(vec![property("device", Some("/dev/video0"))])),
    ];
    let cameras = enumerate_cameras(&devices);
    assert_eq!(cameras.len(), 3);
    assert_eq!(cameras[1].id, CameraId::V4l2("/dev/video2".to_string()));
    assert_eq!(cameras[1].label, "Webcam (/dev/video2)");
    assert_eq!(cameras[1].modes.len(), 1);
    assert_eq!(cameras[2].id, CameraId::V4l2("/dev/video0".to_string()));
    assert_eq!(cameras[2].label, "Capture (/dev/video0)");

    assert_eq!(index_for_setup(&cameras, &Setup::Portal), Some(0));
    assert_eq!(index_for_setup(&cameras, &v4l2("/dev/video0")), Some(2));
    assert_eq!(index_for_setup(&cameras, &v4l2("/dev/video7")), None);
    assert_eq!(index_for_setup(&vec![], &Setup::Portal), None);
}

#[test]
fn an_id_knows_the_setup_that_uses_it() {
    let id = CameraId::V4l2("/dev/video0".to_string());
    assert!(id.is_used_by(&v4l2("/dev/video0")));
    assert!(!id.is_used_by(&v4l2("/dev/video1")));
    assert!(!id.is_used_by(&Setup::Portal));
    assert!(CameraId::Portal.is_used_by(&Setup::Portal));
    assert!(!CameraId::Portal.is_used_by(&v4l2("/dev/video0")));
}
