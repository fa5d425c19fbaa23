use cosmic_camera::framerate::{FramerateField, Rate};
use cosmic_camera::mode::Mode;
use cosmic_camera::mode_list::{extract_modes, CapsStructure};

fn mode(media_type: &str, width: u32, height: u32, framerate: Option<Rate>) -> Mode {
    Mode { media_type: media_type.to_string(), width, height, framerate }
}

fn caps(name: &str, width: Option<i32>, height: Option<i32>, rate: FramerateField) -> CapsStructure {
    CapsStructure { name: name.to_string(), width, height, framerate: rate }
}

fn at(n: i32) -> FramerateField {
    FramerateField::Fraction((n, 1))
}

#[test]
fn labels_name_size_format_and_rate() {
    assert_eq!(mode("image/jpeg", 1920, 1080, Some((30, 1))).label(), "1920×1080 · MJPEG · 30fps");
    assert_eq!(mode("video/x-raw", 640, 480, Some((30000, 1001))).label(), "640×480 · Raw · 30fps");
    assert_eq!(mode("video/x-raw", 640, 480, None).label(), "640×480 · Raw");
    assert_eq!(mode("video/x-raw", 640, 480, Some((30, 0))).label(), "640×480 · Raw");
    assert_eq!(mode("video/x-h264", 1, 0, Some((-15, 2))).label(), "1×0 · video/x-h264 · -8fps");
    assert_eq!(
        mode("image/jpeg", u32::MAX, 10, None).label(),
        "4294967295×10 · MJPEG"
    );
}

#[test]
fn formats_have_short_names() {
    assert_eq!(mode("image/jpeg", 1, 1, None).fmt_label(), "MJPEG");
    assert_eq!(mode("video/x-raw", 1, 1, None).fmt_label(), "Raw");
    assert_eq!(mode("image/JPEG", 1, 1, None).fmt_label(), "image/JPEG");
}

#[test]
fn capabilities_pin_the_mode() {
    assert_eq!(
        mode("image/jpeg", 1280, 720, Some((30, 1))).caps_str(),
        "image/jpeg,width=1280,height=720,framerate=30/1"
    );
    assert_eq!(mode("video/x-raw", 640, 480, None).caps_str(), "video/x-raw,width=640,height=480");
    assert_eq!(
        mode("video/x-raw", 640, 480, Some((5, 0))).caps_str(),
        "video/x-raw,width=640,height=480"
    );
    assert_eq!(
        mode("video/x-raw", 640, 480, Some((i32::MIN, -3))).caps_str(),
        "video/x-raw,width=640,height=480,framerate=-2147483648/-3"
    );
}

#[test]
fn clones_are_equal() {
    let m = mode("image/jpeg", 1280, 720, Some((30, 1)));
    assert_eq!(m.clone(), m);
}

#[test]
fn no_capabilities_no_modes() {
    assert!(extract_modes(&None).is_empty());
    assert!(extract_modes(&Some(vec![])).is_empty());
}

#[test]
fn modes_are_largest_first_without_duplicates() {
    let list = vec![
        caps("image/jpeg", Some(640), Some(480), at(30)),
        caps("video/x-raw", Some(640), Some(480), at(15)),
        caps("image/jpeg", Some(1920), Some(1080), at(30)),
        caps("video/x-raw", Some(640), Some(480), at(25)),
        caps("video/x-raw", Some(640), Some(480), at(20)),
        caps("image/jpeg", Some(1280), Some(720), FramerateField::Range { max: (60, 1) }),
    ];
    let modes = extract_modes(&Some(list));
    assert_eq!(
        modes,
        vec![
            mode("image/jpeg", 1920, 1080, Some((30, 1))),
            mode("image/jpeg", 1280, 720, Some((60, 1))),
            mode("video/x-raw", 640, 480, Some((25, 1))),
            mode("image/jpeg", 640, 480, Some((30, 1))),
        ]
    );
}

#[test]
fn unusable_structures_are_passed_over() {
    let list = vec![
        caps("video/x-h264", Some(640), Some(480), at(30)),
        caps("image/jpeg", None, Some(480), at(30)),
        caps("image/jpeg", Some(640), None, at(30)),
        caps("image/jpeg", Some(0), Some(480), at(30)),
        caps("image/jpeg", Some(640), Some(-480), at(30)),
    ];
    assert!(extract_modes(&Some(list)).is_empty());
}

#[test]
fn a_mode_without_a_positive_rate_has_none() {
    let list = vec![
        caps("image/jpeg", Some(640), Some(480), at(0)),
        caps("image/jpeg", Some(640), Some(480), FramerateField::Unreadable),
    ];
    assert_eq!(extract_modes(&Some(list)), vec![mode("image/jpeg", 640, 480, None)]);
}

#[test]
fn equal_rates_keep_the_first() {
    let list = vec![
        caps("image/jpeg", Some(640), Some(480), FramerateField::Fraction((60, 2))),
        caps("image/jpeg", Some(640), Some(480), FramerateField::Fraction((30, 1))),
    ];
    assert_eq!(extract_modes(&Some(list)), vec![mode("image/jpeg", 640, 480, Some((60, 2)))]);
}

#[test]
fn the_largest_pictures_come_first_however_large() {
    let list = vec![
        caps("image/jpeg", Some(65536), Some(65536), at(1)),
        caps("image/jpeg", Some(640), Some(480), at(1)),
        caps("image/jpeg", Some(i32::MAX), Some(i32::MAX), at(1)),
    ];
    let modes = extract_modes(&Some(list));
    assert_eq!(modes[0].width, i32::MAX as u32);
    assert_eq!(modes[1].width, 65536);
    assert_eq!(modes[2].width, 640);
}

#[test]
fn the_order_of_capabilities_does_not_matter() {
    let list = || {
        vec![
            caps("image/jpeg", Some(640), Some(480), at(15)),
            caps("video/x-raw", Some(1280), Some(720), at(10)),
            caps("image/jpeg", Some(640), Some(480), at(30)),
        ]
    };
    let mut reversed = list();
    reversed.reverse();
    let modes = extract_modes(&Some(list()));
    assert_eq!(
        modes,
        vec![
            mode("video/x-raw", 1280, 720, Some((10, 1))),
            mode("image/jpeg", 640, 480, Some((30, 1))),
        ]
    );
    assert_eq!(extract_modes(&Some(reversed)), modes);
}
