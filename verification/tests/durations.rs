use gps_gui::durations::{secs_text, uptime_text};

/// Reading 0 as "off" is what the interval read-outs want, and is exactly
/// wrong for an elapsed time.
#[test]
fn secs_text_scales_and_calls_zero_off() {
    assert_eq!(secs_text(0), "off");
    assert_eq!(secs_text(1), "1 s");
    assert_eq!(secs_text(45), "45 s");
    assert_eq!(secs_text(60), "1 min");
    assert_eq!(secs_text(900), "15 min");
    assert_eq!(secs_text(3600), "1 h");
    assert_eq!(secs_text(43200), "12 h");
    // Not a whole number of hours, so it keeps a decimal.
    assert_eq!(secs_text(45000), "12.5 h");
}

/// A node's uptime, which unlike an interval has to render 0 as a time.
#[test]
fn uptime_text_scales_without_calling_zero_off() {
    assert_eq!(uptime_text(0), "0 s");
    assert_eq!(uptime_text(59), "59 s");
    assert_eq!(uptime_text(60), "1 min");
    assert_eq!(uptime_text(3599), "59 min");
    assert_eq!(uptime_text(3600), "1 h");
    // The field saturates at 18 h, so this is the largest it ever reads.
    assert_eq!(uptime_text(u16::MAX), "18 h");
}

/// Minutes are the nearest whole minute, a half rounding to the even one,
/// as the single-precision quotient prints with no decimals.
#[test]
fn secs_text_rounds_minutes_to_nearest_even() {
    assert_eq!(secs_text(89), "1 min");
    assert_eq!(secs_text(90), "2 min");
    assert_eq!(secs_text(150), "2 min");
    assert_eq!(secs_text(210), "4 min");
    assert_eq!(secs_text(3599), "60 min");
}

/// Hours keep one decimal, the printed digit being the single-precision
/// quotient's, ties to even.
#[test]
fn secs_text_prints_hours_to_a_tenth() {
    assert_eq!(secs_text(3601), "1.0 h");
    assert_eq!(secs_text(4500), "1.2 h");
    assert_eq!(secs_text(5400), "1.5 h");
    assert_eq!(secs_text(7000), "1.9 h");
    assert_eq!(secs_text(86399), "24.0 h");
    assert_eq!(secs_text(u32::MAX), "1193046.5 h");
}

/// The read-out as single-precision arithmetic computes it, to hold the
/// whole-number version against.
fn float_reading(s: u32) -> String {
    match s {
        0 => "off".to_string(),
        s if s < 60 => format!("{s} s"),
        s if s < 3600 => format!("{:.0} min", s as f32 / 60.0),
        s if s % 3600 == 0 => format!("{} h", s / 3600),
        s => format!("{:.1} h", s as f32 / 3600.0),
    }
}

/// Every duration up to two days, and a sweep of the rest of the range,
/// reads exactly as the single-precision arithmetic prints it.
#[test]
fn secs_text_agrees_with_single_precision() {
    for s in 0..=172_800u32 {
        assert_eq!(secs_text(s), float_reading(s), "{s}");
    }
    let mut s: u64 = 172_801;
    while s <= u32::MAX as u64 {
        let v = s as u32;
        assert_eq!(secs_text(v), float_reading(v), "{v}");
        for near in [v.wrapping_sub(1), v.wrapping_add(1), v | 0xff, v & !0xff] {
            assert_eq!(secs_text(near), float_reading(near), "{near}");
        }
        s = s * 21 / 20 + 7;
    }
    assert_eq!(secs_text(u32::MAX), float_reading(u32::MAX));
}
