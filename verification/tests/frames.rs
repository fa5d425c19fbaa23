use cosmic_camera::errors::CaptureError;
use cosmic_camera::frame::{frame_from_sample, Frame};
use cosmic_camera::photo::save_photo;
use std::sync::Arc;

fn frame(width: u32, height: u32, rgba: Vec<u8>) -> Frame {
    Frame { width, height, rgba: Arc::new(rgba) }
}

#[test]
fn rows_are_packed_and_made_opaque() {
    // Two rows of one pixel each, with four bytes of padding.
    let src = [1, 2, 3, 0, 91, 92, 93, 94, 5, 6, 7, 8, 95, 96, 97, 98];
    let f = frame_from_sample(1, 2, 8, &src).unwrap();
    assert_eq!((f.width, f.height), (1, 2));
    assert_eq!(*f.rgba, vec![1, 2, 3, 255, 5, 6, 7, 255]);
}

#[test]
fn padding_does_not_matter() {
    let one = [1, 2, 3, 0, 91, 92, 93, 94, 5, 6, 7, 8, 95, 96, 97, 98];
    let other = [1, 2, 3, 9, 0, 0, 0, 0, 5, 6, 7, 8, 0, 0, 0, 0];
    let a = frame_from_sample(1, 2, 8, &one).unwrap();
    let b = frame_from_sample(1, 2, 8, &other).unwrap();
    assert_eq!(a.rgba, b.rgba);
}

#[test]
fn tight_rows_are_copied() {
    let src = [10, 11, 12, 13, 20, 21, 22, 23, 30, 31, 32, 33, 40, 41, 42, 43, 99];
    let f = frame_from_sample(2, 2, 8, &src).unwrap();
    assert_eq!(*f.rgba, vec![10, 11, 12, 255, 20, 21, 22, 255, 30, 31, 32, 255, 40, 41, 42, 255]);
}

#[test]
fn empty_or_short_planes_give_no_frame() {
    assert!(frame_from_sample(0, 1, 4, &[0; 4]).is_none());
    assert!(frame_from_sample(1, 0, 4, &[0; 4]).is_none());
    assert!(frame_from_sample(1, 1, 4, &[0; 3]).is_none());
    assert!(frame_from_sample(1, 2, 8, &[0; 15]).is_none());
    assert!(frame_from_sample(1, 1, -4, &[0; 4]).is_none());
}

#[test]
fn the_empty_frame_has_no_area() {
    let f = Frame::empty();
    assert_eq!((f.width, f.height, f.rgba.len()), (0, 0, 0));
    assert_eq!(f.debug_text(), "Frame { width: 0, height: 0, bytes: 0 }");
}

#[test]
fn frames_are_described_without_samples() {
    assert_eq!(
        frame(640, 480, vec![0; 17]).debug_text(),
        "Frame { width: 640, height: 480, bytes: 17 }"
    );
}

#[test]
fn photos_leave_out_alpha() {
    let photo = save_photo(&frame(2, 1, vec![1, 2, 3, 4, 5, 6, 7, 8])).unwrap();
    assert_eq!((photo.width, photo.height), (2, 1));
    assert_eq!(photo.rgb, vec![1, 2, 3, 5, 6, 7]);
}

#[test]
fn photos_ignore_surplus_samples() {
    let photo = save_photo(&frame(1, 1, vec![1, 2, 3, 4, 5, 6, 7, 8])).unwrap();
    assert_eq!(photo.rgb, vec![1, 2, 3]);
}

#[test]
fn photos_of_short_frames_are_refused() {
    let e = save_photo(&frame(2, 1, vec![1, 2, 3, 4, 5, 6, 7])).err().unwrap();
    assert_eq!(e, CaptureError::FrameSizeMismatch);
    assert_eq!(e.message(), "frame size doesn't match RGBA buffer length");
    assert!(save_photo(&frame(u32::MAX, u32::MAX, vec![])).is_err());
}

#[test]
fn captured_frames_can_be_saved() {
    let src: Vec<u8> = (0..48).collect();
    let f = frame_from_sample(3, 3, 16, &src).unwrap();
    let photo = save_photo(&f).unwrap();
    for y in 0..3 {
        for x in 0..3 {
            for c in 0..3 {
                assert_eq!(photo.rgb[3 * (y * 3 + x) + c], src[y * 16 + 4 * x + c]);
            }
        }
    }
}

#[test]
fn photos_without_rows_are_empty() {
    let photo = save_photo(&frame(3, 0, Vec::new())).unwrap();
    assert_eq!((photo.width, photo.height), (3, 0));
    assert!(photo.rgb.is_empty());
}
