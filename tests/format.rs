use openspeedrun::{format_clock, format_duration};

#[test]
fn formats_seconds_only() {
    assert_eq!(format_duration(0, 0), "00.000");
    assert_eq!(format_duration(1_500, 0), "01.500");
    assert_eq!(format_duration(59_999, 0), "59.999");
}

#[test]
fn formats_minutes() {
    assert_eq!(format_duration(61_001, 0), "01:01.001");
    assert_eq!(format_duration(754_321, 0), "12:34.321");
}

#[test]
fn formats_hours() {
    assert_eq!(format_duration(3_661_001, 0), "1:01:01.001");
    assert_eq!(format_duration(36_000_000, 0), "10:00:00.000");
}

#[test]
fn sign_modes() {
    assert_eq!(format_duration(-1_500, 0), "01.500");
    assert_eq!(format_duration(-1_500, 1), "-01.500");
    assert_eq!(format_duration(1_500, 1), "01.500");
    assert_eq!(format_duration(-1_500, 2), "-01.500");
    assert_eq!(format_duration(1_500, 2), "+01.500");
    assert_eq!(format_duration(0, 2), "+00.000");
    assert_eq!(format_duration(-61_001, 7), "01:01.001");
}

#[test]
fn formats_extremes() {
    assert_eq!(format_duration(i64::MIN, 1), "-2562047788015:12:55.808");
    assert_eq!(format_duration(i64::MAX, 2), "+2562047788015:12:55.807");
}

#[test]
fn clock_format_below_an_hour() {
    assert_eq!(format_clock(0), "00:00.000");
    assert_eq!(format_clock(61_001), "01:01.001");
    assert_eq!(format_clock(3_599_999), "59:59.999");
}

#[test]
fn clock_format_hours() {
    assert_eq!(format_clock(3_600_000), "01:00:00.000");
    assert_eq!(format_clock(45_296_789), "12:34:56.789");
    assert_eq!(format_clock(360_000_000), "100:00:00.000");
}

#[test]
fn clock_format_negative_fields() {
    assert_eq!(format_clock(-1_500), format!("{:02}:{:02}.{:03}", 0, -1, -500));
    assert_eq!(format_clock(-61_005), format!("{:02}:{:02}.{:03}", -1, -1, -5));
    assert_eq!(format_clock(-3_700_000), format!("{:02}:{:02}.{:03}", -1, -40, 0));
}
