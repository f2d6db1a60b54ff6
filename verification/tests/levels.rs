use brightness_control::level::{
    cap_percent, clamp_brightness, clamp_brightness_percent, native_to_percent,
    normalize_native_max, percent_to_native, MAX_BRIGHTNESS_PERCENT, MIN_BRIGHTNESS_PERCENT,
};

#[test]
fn clamp_never_allows_black_screen() {
    assert_eq!(clamp_brightness_percent(0), MIN_BRIGHTNESS_PERCENT);
    assert_eq!(clamp_brightness_percent(1), MIN_BRIGHTNESS_PERCENT);
    assert_eq!(clamp_brightness_percent(MIN_BRIGHTNESS_PERCENT), MIN_BRIGHTNESS_PERCENT);
    assert_eq!(clamp_brightness_percent(50), 50);
    assert_eq!(clamp_brightness_percent(100), 100);
    assert_eq!(clamp_brightness_percent(150), 100);
    assert_eq!(clamp_brightness_percent(u32::MAX), 100);
}

#[test]
fn percent_native_known_values() {
    assert_eq!(percent_to_native(100, 0, 100), 100);
    assert_eq!(percent_to_native(50, 0, 100), 50);
    assert_eq!(
        percent_to_native(MIN_BRIGHTNESS_PERCENT, 0, 100),
        MIN_BRIGHTNESS_PERCENT
    );
    // Monitors with VCP range 0-255 scale accurately
    assert_eq!(percent_to_native(100, 0, 255), 255);
    assert_eq!(percent_to_native(50, 0, 255), 128);
    assert_eq!(native_to_percent(255, 0, 255), 100);
    assert_eq!(native_to_percent(0, 0, 255), 0);
}

#[test]
fn percent_native_roundtrip_within_1() {
    for (min, max) in [(0u32, 100u32), (0, 255), (20, 80), (0, 0)] {
        for p in [MIN_BRIGHTNESS_PERCENT, 25, 50, 75, 100] {
            let native = percent_to_native(p, min, max);
            let back = native_to_percent(native, min, max);
            assert!(
                (back as i32 - p as i32).abs() <= 1,
                "roundtrip p={p} min={min} max={max} native={native} back={back}"
            );
        }
    }
}

#[test]
fn safe_range_is_ten_to_hundred() {
    assert_eq!(MIN_BRIGHTNESS_PERCENT, 10);
    assert_eq!(MAX_BRIGHTNESS_PERCENT, 100);
    assert_eq!(clamp_brightness(9), 10);
    assert_eq!(clamp_brightness(11), 11);
    assert_eq!(clamp_brightness(101), 100);
}

#[test]
fn clamping_is_monotone_and_idempotent() {
    let mut last = 0;
    for v in 0u32..200 {
        let c = clamp_brightness_percent(v);
        assert!(c >= last);
        assert_eq!(clamp_brightness_percent(c), c);
        last = c;
    }
}

#[test]
fn missing_native_maximum_is_a_hundred() {
    assert_eq!(normalize_native_max(0), 100);
    assert_eq!(normalize_native_max(1), 1);
    assert_eq!(normalize_native_max(u32::MAX), u32::MAX);
    assert_eq!(percent_to_native(37, 0, 0), 37);
    assert_eq!(native_to_percent(37, 0, 0), 37);
}

#[test]
fn empty_native_range_takes_percentages() {
    assert_eq!(percent_to_native(5, 50, 50), 10);
    assert_eq!(percent_to_native(70, 50, 40), 70);
    assert_eq!(percent_to_native(500, 50, 40), 100);
    assert_eq!(native_to_percent(5, 50, 50), 5);
    assert_eq!(native_to_percent(250, 50, 40), 100);
}

#[test]
fn native_values_are_rounded() {
    assert_eq!(percent_to_native(25, 20, 80), 35);
    assert_eq!(percent_to_native(33, 0, 255), 84);
    assert_eq!(percent_to_native(10, 0, u32::MAX), 429_496_730);
    assert_eq!(percent_to_native(100, 7, u32::MAX), u32::MAX);
    assert_eq!(native_to_percent(1, 0, 200), 1);
    assert_eq!(native_to_percent(1, 0, 201), 0);
    assert_eq!(native_to_percent(50, 20, 80), 50);
}

#[test]
fn values_outside_the_native_range_read_as_its_ends() {
    assert_eq!(native_to_percent(3, 20, 80), 0);
    assert_eq!(native_to_percent(20, 20, 80), 0);
    assert_eq!(native_to_percent(80, 20, 80), 100);
    assert_eq!(native_to_percent(u32::MAX, 20, 80), 100);
}

#[test]
fn levels_below_the_floor_are_read_as_they_are() {
    assert_eq!(native_to_percent(3, 0, 100), 3);
    assert_eq!(native_to_percent(0, 0, 100), 0);
}

#[test]
fn setting_and_reading_keep_order() {
    for (min, max) in [(0u32, 100u32), (0, 255), (20, 80), (0, 7), (5, 5)] {
        for p in 10u32..100 {
            assert!(percent_to_native(p, min, max) <= percent_to_native(p + 1, min, max));
        }
        for n in 0u32..300 {
            assert!(native_to_percent(n, min, max) <= native_to_percent(n + 1, min, max));
            assert!(native_to_percent(n, min, max) <= 100);
        }
    }
}

#[test]
fn wide_ranges_read_back_exactly() {
    for max in [100u32, 101, 255, 1000, u32::MAX] {
        for p in 10u32..=100 {
            assert_eq!(native_to_percent(percent_to_native(p, 0, max), 0, max), p);
        }
    }
}

#[test]
fn ranges_of_thirty_four_steps_read_back_within_one() {
    for span in 34u32..100 {
        for p in 10u32..=100 {
            let back = native_to_percent(percent_to_native(p, 3, 3 + span), 3, 3 + span);
            assert!((back as i32 - p as i32).abs() <= 1);
        }
    }
}

#[test]
fn narrow_ranges_may_read_back_further_off() {
    assert_eq!(percent_to_native(50, 0, 33), 17);
    assert_eq!(native_to_percent(17, 0, 33), 52);
}

#[test]
fn setting_never_goes_dark() {
    for max in 5u32..300 {
        assert!(percent_to_native(0, 0, max) > 0);
    }
    for p in [0u32, 1, 10, 50, 100, u32::MAX] {
        let n = percent_to_native(p, 20, 80);
        assert!(20 < n && n <= 80);
    }
}

#[test]
fn levels_that_were_read_are_only_capped() {
    assert_eq!(cap_percent(0), 0);
    assert_eq!(cap_percent(9), 9);
    assert_eq!(cap_percent(100), 100);
    assert_eq!(cap_percent(101), 100);
    assert_eq!(cap_percent(u32::MAX), 100);
}
