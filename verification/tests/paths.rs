use cosmic_camera::paths::{
    join_path, photo_path, pictures_dir, recording_path, videos_dir, xdg_dir, PICTURES_VAR,
    VIDEOS_VAR,
};
use std::path::Path;

fn some(s: &str) -> Option<String> {
    Some(s.to_string())
}

#[test]
fn paths_join_as_the_standard_library_joins_them() {
    for base in ["", "/", "/home/u", "/home/u/", "rel", "a//", "ü"] {
        for sub in ["", "x", "x/y", "/abs", "cosmic-camera-1.jpg", "ß"] {
            let expected = Path::new(base).join(sub);
            assert_eq!(join_path(base, sub), expected.to_str().unwrap(), "{base} {sub}");
        }
    }
}

#[test]
fn a_configured_directory_wins() {
    assert_eq!(xdg_dir(some("/data"), some("/home/u"), "Pictures"), "/data");
    assert_eq!(xdg_dir(some("/data"), None, "Pictures"), "/data");
    assert_eq!(xdg_dir(some(""), some("/home/u"), "Pictures"), "");
}

#[test]
fn the_home_directory_is_the_fallback() {
    assert_eq!(xdg_dir(None, some("/home/u"), "Music"), "/home/u/Music");
    assert_eq!(pictures_dir(None, some("/home/u")), "/home/u/Pictures");
    assert_eq!(videos_dir(None, some("/home/u/")), "/home/u/Videos");
    assert_eq!(pictures_dir(some("/p"), None), "/p");
    assert_eq!(videos_dir(some("/v"), None), "/v");
    assert_eq!(PICTURES_VAR, "XDG_PICTURES_DIR");
    assert_eq!(VIDEOS_VAR, "XDG_VIDEOS_DIR");
}

#[test]
fn files_are_named_after_the_time() {
    assert_eq!(photo_path("/p", 1_700_000_000), "/p/cosmic-camera-1700000000.jpg");
    assert_eq!(recording_path("/v/", 0), "/v/cosmic-camera-0.webm");
    assert_eq!(photo_path("", u64::MAX), "cosmic-camera-18446744073709551615.jpg");
}

#[test]
fn different_times_give_different_files() {
    assert_ne!(photo_path("/p", 1), photo_path("/p", 11));
    assert_ne!(recording_path("/p", 10), recording_path("/p", 100));
    assert_ne!(photo_path("/p", 7), recording_path("/p", 7));
}
