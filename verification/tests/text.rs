use cosmic_camera::text::{
    append_decimal, append_signed_decimal, char_vec, starts_with, str_eq, str_less,
};

#[test]
fn numerals_are_those_of_the_standard_library() {
    for n in [0, 1, 9, 10, 11, 99, 100, 1234567890, u64::MAX - 1, u64::MAX] {
        let mut out = "x".to_string();
        append_decimal(&mut out, n);
        assert_eq!(out, format!("x{n}"));
    }
    for n in [0, 7, -1, -10, i64::MAX, i64::MIN, i64::MIN + 1] {
        let mut out = String::new();
        append_signed_decimal(&mut out, n);
        assert_eq!(out, format!("{n}"));
    }
}

#[test]
fn strings_are_ordered_as_by_the_standard_library() {
    let words = ["", "a", "aa", "ab", "b", "video0", "video1", "video10", "video2", "é", "z", "😀"];
    for a in words {
        for b in words {
            assert_eq!(str_less(a, b), a < b, "{a} {b}");
            assert_eq!(str_eq(a, b), a == b, "{a} {b}");
            assert_eq!(starts_with(a, b), a.starts_with(b), "{a} {b}");
        }
        assert_eq!(char_vec(a), a.chars().collect::<Vec<char>>());
    }
}
