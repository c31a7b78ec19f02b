use screen_timer::text::format_time;

#[test]
fn format_time_under_an_hour_is_minutes_and_seconds() {
    assert_eq!(format_time(0), "00:00");
    assert_eq!(format_time(5), "00:05");
    assert_eq!(format_time(65), "01:05");
    assert_eq!(format_time(1500), "25:00");
    assert_eq!(format_time(3599), "59:59");
}

#[test]
fn format_time_from_an_hour_shows_hours() {
    assert_eq!(format_time(3600), "1:00:00");
    assert_eq!(format_time(5400), "1:30:00");
    assert_eq!(format_time(3661), "1:01:01");
    assert_eq!(format_time(36000), "10:00:00");
    assert_eq!(format_time(u64::MAX), "5124095576030431:00:15");
}


#[test]
fn distinct_seconds_format_differently() {
    let samples = [0u64, 1, 59, 60, 61, 3599, 3600, 3601, 35999, 36000, 360000];
    for a in samples {
        for b in samples {
            assert_eq!(a == b, format_time(a) == format_time(b));
        }
    }
}
