use cosmic_camera::framerate::{best_framerate, fps_val, rounded_fps, FramerateField, Rate};

const ONE: i128 = 9_671_406_556_917_033_397_649_408;

fn double(fr: Option<Rate>) -> f64 {
    match fr {
        Some((n, d)) if d != 0 => n as f64 / d as f64,
        _ => 0.0,
    }
}

fn samples() -> Vec<Rate> {
    let numbers = [
        i32::MIN,
        i32::MIN + 1,
        -30000,
        -30,
        -1,
        0,
        1,
        2,
        3,
        5,
        7,
        15,
        24,
        25,
        30,
        60,
        1000,
        1001,
        24000,
        30000,
        60000,
        16_777_216,
        16_777_217,
        1_073_741_823,
        1_073_741_824,
        2_147_483_645,
        2_147_483_646,
        i32::MAX,
    ];
    let mut out = Vec::new();
    for n in numbers {
        for d in numbers {
            out.push((n, d));
        }
    }
    out
}

#[test]
fn whole_rates_weigh_their_number_of_units() {
    assert_eq!(fps_val(Some((30, 1))), 30 * ONE);
    assert_eq!(fps_val(Some((60, 2))), 30 * ONE);
    assert_eq!(fps_val(Some((15, 2))), 15 * ONE / 2);
    assert_eq!(fps_val(Some((-30, 1))), -30 * ONE);
    assert_eq!(fps_val(Some((-30, -1))), 30 * ONE);
    assert_eq!(fps_val(Some((30, -1))), -30 * ONE);
    assert_eq!(fps_val(Some((i32::MIN, 1))), -2_147_483_648 * ONE);
}

#[test]
fn missing_and_undefined_rates_weigh_nothing() {
    assert_eq!(fps_val(None), 0);
    assert_eq!(fps_val(Some((30, 0))), 0);
    assert_eq!(fps_val(Some((0, 1))), 0);
    assert_eq!(fps_val(Some((0, -7))), 0);
}

#[test]
fn weights_are_double_precision_quotients() {
    for (n, d) in samples() {
        let value = double(Some((n, d)));
        // The unit is a power of two, so scaling a double by it is exact.
        let scaled = value * 2f64.powi(83);
        assert_eq!(fps_val(Some((n, d))), scaled as i128, "{n}/{d}");
    }
}

#[test]
fn weights_order_rates_as_doubles_do() {
    let rates = samples();
    for a in &rates {
        for b in &rates {
            let by_double = double(Some(*a)) > double(Some(*b));
            assert_eq!(fps_val(Some(*a)) > fps_val(Some(*b)), by_double, "{a:?} {b:?}");
        }
    }
}

#[test]
fn rates_too_close_for_a_double_weigh_the_same() {
    let a = Some((2_147_483_647, 2_147_483_646));
    let b = Some((2_147_483_646, 2_147_483_645));
    assert_eq!(fps_val(a), fps_val(b));
    assert_eq!(double(a), double(b));
}

#[test]
fn small_rates_compare_as_fractions() {
    assert!(fps_val(Some((30000, 1001))) < fps_val(Some((30, 1))));
    assert!(fps_val(Some((30000, 1001))) > fps_val(Some((29, 1))));
    assert_eq!(fps_val(Some((60000, 2002))), fps_val(Some((30000, 1001))));
}

#[test]
fn labels_round_halves_away_from_zero() {
    assert_eq!(rounded_fps(Some((30000, 1001))), 30);
    assert_eq!(rounded_fps(Some((24000, 1001))), 24);
    assert_eq!(rounded_fps(Some((15, 2))), 8);
    assert_eq!(rounded_fps(Some((-15, 2))), -8);
    assert_eq!(rounded_fps(Some((1, 3))), 0);
    assert_eq!(rounded_fps(Some((i32::MIN, -1))), 2_147_483_648);
    for (n, d) in samples() {
        if d != 0 {
            assert_eq!(rounded_fps(Some((n, d))), (n as f64 / d as f64).round() as i64, "{n}/{d}");
        }
    }
}

#[test]
fn a_single_fraction_is_taken_as_it_is() {
    assert_eq!(best_framerate(&FramerateField::Fraction((25, 1))), Some((25, 1)));
    assert_eq!(best_framerate(&FramerateField::Fraction((0, 1))), Some((0, 1)));
}

#[test]
fn the_first_fastest_of_a_list_is_taken() {
    let list = vec![Some((15, 1)), None, Some((60, 2)), Some((30, 1)), Some((24, 1))];
    assert_eq!(best_framerate(&FramerateField::List(list)), Some((60, 2)));
}

#[test]
fn a_list_without_a_positive_rate_gives_none() {
    let list = vec![Some((0, 1)), None, Some((-30, 1)), Some((30, 0))];
    assert_eq!(best_framerate(&FramerateField::List(list)), None);
    assert_eq!(best_framerate(&FramerateField::List(vec![])), None);
}

#[test]
fn the_upper_end_of_a_range_is_taken() {
    assert_eq!(best_framerate(&FramerateField::Range { max: (120, 1) }), Some((120, 1)));
    assert_eq!(best_framerate(&FramerateField::Unreadable), None);
}
