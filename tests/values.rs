use vlc_controller::{abs_difference, difference, FormatError, Time, Volume, PERCENT_SCALE, RAW_SCALE};

#[test]
fn time_parses_plain_seconds() {
    assert_eq!(Time::from_text("125"), Ok(Time::from(125)));
}

#[test]
fn time_parses_minutes_and_seconds() {
    assert_eq!(Time::from_text("02:05"), Ok(Time::from(125)));
}

#[test]
fn time_parses_hours_minutes_seconds() {
    assert_eq!(Time::from_text("1:02:05"), Ok(Time::from(3725)));
}

#[test]
fn time_rejects_letters() {
    assert_eq!(Time::from_text("abc"), Err(FormatError::Shape));
}

#[test]
fn time_rejects_bad_shapes() {
    for text in ["", ":", "12:", ":12", "1::2", "1:2:3:4", "1.5", " 12", "12 ", "+12", "-1"] {
        assert_eq!(Time::from_text(text), Err(FormatError::Shape), "{:?}", text);
    }
}

#[test]
fn time_rejects_non_ascii_digits() {
    assert_eq!(Time::from_text("\u{0661}\u{0662}"), Err(FormatError::Shape));
}

#[test]
fn time_keeps_fields_beyond_sixty() {
    assert_eq!(Time::from_text("0:75"), Ok(Time::from(75)));
    assert_eq!(Time::from_text("2:00:00"), Ok(Time::from(7200)));
    assert_eq!(Time::from_text("007"), Ok(Time::from(7)));
}

#[test]
fn time_limits() {
    assert_eq!(Time::from_text("4294967295"), Ok(Time::from(u32::MAX)));
    assert_eq!(Time::from_text("4294967296"), Err(FormatError::TooLarge));
    assert_eq!(Time::from_text("1193046:28:15"), Ok(Time::from(u32::MAX)));
    assert_eq!(Time::from_text("1193046:28:16"), Err(FormatError::TooLarge));
    assert_eq!(Time::from_text("99999999999999999999999"), Err(FormatError::TooLarge));
}

#[test]
fn time_canonical_text() {
    assert_eq!(Time::from(0).to_text(), "00:00");
    assert_eq!(Time::from(125).to_text(), "02:05");
    assert_eq!(Time::from(3599).to_text(), "59:59");
    assert_eq!(Time::from(3600).to_text(), "01:00:00");
    assert_eq!(Time::from(3725).to_text(), "01:02:05");
    assert_eq!(Time::from(360000).to_text(), "100:00:00");
}

#[test]
fn time_text_round_trip() {
    for s in [0u32, 1, 9, 10, 59, 60, 61, 125, 3599, 3600, 3725, 86399, 359999, 360000, u32::MAX] {
        let text = Time::from(s).to_text();
        let back = Time::from_text(&text).unwrap();
        assert_eq!(back, Time::from(s));
        assert_eq!(back.to_text(), text);
        assert_eq!(back.as_seconds(), s);
    }
}

#[test]
fn time_orders_by_seconds() {
    for s in [0u32, 1, 59, 3600, u32::MAX - 1] {
        assert!(Time::from(s) < Time::from(s + 1));
        assert!(Time::from(s + 1) > Time::from(s));
    }
    assert!(Time::from(7) <= Time::from(7));
}

#[test]
fn time_from_numeric_keeps_low_bits() {
    assert_eq!(Time::from_numeric(125), Time::from(125));
    assert_eq!(Time::from_numeric((1u64 << 32) + 5), Time::from(5));
}

#[test]
fn time_difference() {
    assert_eq!(difference(Time::from(15), Time::from(10)), 5);
    assert_eq!(difference(Time::from(10), Time::from(10)), 0);
    assert_eq!(difference(Time::from(10), Time::from(15)), 0);
}

#[test]
fn volume_scales_raw_to_percent() {
    assert_eq!(Volume::new(256).scale(512, 200), Volume::new(100));
    assert_eq!(Volume::new(512).scale(RAW_SCALE, PERCENT_SCALE), Volume::new(200));
    assert_eq!(Volume::new(125).scale(512, 200), Volume::new(48));
}

#[test]
fn volume_scales_percent_to_raw() {
    assert_eq!(Volume::new(100).scale(200, 512), Volume::new(256));
    assert_eq!(Volume::new(49).scale(PERCENT_SCALE, RAW_SCALE), Volume::new(125));
}

#[test]
fn volume_scale_saturates() {
    assert_eq!(Volume::new(u32::MAX).scale(1, 2), Volume::new(u32::MAX));
}

#[test]
fn volume_round_trips_within_truncation() {
    for raw in 0u32..=1024 {
        let back = Volume::new(raw).scale(RAW_SCALE, PERCENT_SCALE).scale(PERCENT_SCALE, RAW_SCALE);
        assert!(back.0 <= raw && raw <= back.0 + 3, "{}", raw);
    }
    for percent in 0u32..=400 {
        let back = Volume::new(percent).scale(PERCENT_SCALE, RAW_SCALE).scale(RAW_SCALE, PERCENT_SCALE);
        assert!(back.0 <= percent && percent <= back.0 + 1, "{}", percent);
    }
}

#[test]
fn volume_parses_percent() {
    assert_eq!(Volume::from_text("50%"), Ok(Volume::new(50)));
    assert_eq!(Volume::from_text("0%"), Ok(Volume::new(0)));
    assert_eq!(Volume::from_text("200%"), Ok(Volume::new(200)));
}

#[test]
fn volume_rejects_bad_shapes() {
    for text in ["", "%", "50", "50%%", "5 %", "abc%", "-5%", "%50"] {
        assert_eq!(Volume::from_text(text), Err(FormatError::Shape), "{:?}", text);
    }
}

#[test]
fn volume_rejects_too_large() {
    assert_eq!(Volume::from_text("4294967295%"), Ok(Volume::new(u32::MAX)));
    assert_eq!(Volume::from_text("4294967296%"), Err(FormatError::TooLarge));
}

#[test]
fn volume_from_numeric_is_raw_scale() {
    assert_eq!(Volume::from_numeric(256), Volume::new(100));
    assert_eq!(Volume::from_numeric(512), Volume::new(200));
    assert_eq!(Volume::from_numeric(0), Volume::new(0));
}

#[test]
fn volume_abs_difference_is_symmetric() {
    assert_eq!(abs_difference(Volume::new(5), Volume::new(8)), 3);
    assert_eq!(abs_difference(Volume::new(8), Volume::new(5)), 3);
    assert_eq!(abs_difference(Volume::new(7), Volume::new(7)), 0);
    assert_eq!(abs_difference(Volume::new(0), Volume::new(u32::MAX)), u32::MAX);
}

#[test]
fn volume_orders_by_amount() {
    assert!(Volume::new(49) < Volume::new(50));
    assert!(Volume::new(50) > Volume::new(49));
    assert!(Volume::new(50) >= Volume::new(50));
}
