use screen_timer::cli::{start_command, StartError};
use screen_timer::duration::{parse_duration, parse_duration_checked, DurationParse};
use screen_timer::ipc::IpcCommand;

#[test]
fn readme_duration_formats() {
    assert_eq!(parse_duration("1h"), Some(3600));
    assert_eq!(parse_duration("30m"), Some(1800));
    assert_eq!(parse_duration("1h30m"), Some(5400));
    assert_eq!(parse_duration("90s"), Some(90));
    assert_eq!(parse_duration("25"), Some(1500));
}

#[test]
fn units_in_either_case() {
    assert_eq!(parse_duration("2H"), Some(7200));
    assert_eq!(parse_duration("45M"), Some(2700));
    assert_eq!(parse_duration("10S"), Some(10));
    assert_eq!(parse_duration("1H5m3S"), Some(3903));
}

#[test]
fn surrounding_white_space_is_ignored() {
    assert_eq!(parse_duration("  25m "), Some(1500));
    assert_eq!(parse_duration("\t1h\n"), Some(3600));
    assert_eq!(parse_duration("\u{3000}15\u{2003}"), Some(900));
}

#[test]
fn trailing_digits_after_a_unit_are_seconds() {
    assert_eq!(parse_duration("1m30"), Some(90));
    assert_eq!(parse_duration("1h0m5"), Some(3605));
}

#[test]
fn bare_number_accepts_a_plus_sign() {
    assert_eq!(parse_duration("+2"), Some(120));
    assert_eq!(parse_duration("0"), Some(0));
}

#[test]
fn not_durations() {
    assert_eq!(parse_duration(""), None);
    assert_eq!(parse_duration("   "), None);
    assert_eq!(parse_duration("h"), None);
    assert_eq!(parse_duration("1x"), None);
    assert_eq!(parse_duration("1 h"), None);
    assert_eq!(parse_duration("-5"), None);
    assert_eq!(parse_duration("+"), None);
    assert_eq!(parse_duration("+5m"), None);
    assert_eq!(parse_duration("0h"), None);
    assert_eq!(parse_duration("0h0m0"), None);
    assert_eq!(parse_duration("1hh"), None);
    assert_eq!(parse_duration("abc"), None);
    assert_eq!(parse_duration("1h\u{0663}"), None);
}

#[test]
fn numbers_too_large_for_u64_are_no_duration() {
    assert_eq!(parse_duration("99999999999999999999h"), None);
    assert_eq!(parse_duration("1h99999999999999999999"), None);
    assert_eq!(parse_duration("99999999999999999999"), None);
}

#[test]
fn overflowing_totals_are_told_apart() {
    assert_eq!(parse_duration_checked("307445734561825860"), DurationParse::Seconds(18446744073709551600));
    assert_eq!(parse_duration_checked("307445734561825861"), DurationParse::Overflow);
    assert_eq!(parse_duration_checked("5124095576030431h"), DurationParse::Seconds(18446744073709551600));
    assert_eq!(parse_duration_checked("5124095576030432h"), DurationParse::Overflow);
    assert_eq!(parse_duration_checked("18446744073709551615s1"), DurationParse::Overflow);
    assert_eq!(parse_duration_checked("18446744073709551615s"), DurationParse::Seconds(u64::MAX));
    assert_eq!(parse_duration_checked("5124095576030431h1x"), DurationParse::Invalid);
    assert_eq!(parse_duration_checked("5124095576030432h1x"), DurationParse::Overflow);
}

#[test]
fn start_command_enforces_the_minimum() {
    assert!(matches!(start_command("25m"), Ok(IpcCommand::Start { seconds: 1500 })));
    assert!(matches!(start_command("10s"), Ok(IpcCommand::Start { seconds: 10 })));
    assert!(matches!(start_command("9s"), Err(StartError::TooShort)));
    assert!(matches!(start_command("0"), Err(StartError::TooShort)));
    assert!(matches!(start_command("soon"), Err(StartError::Invalid)));
    assert!(matches!(start_command("999999999999999999h"), Err(StartError::Overflow)));
}

#[test]
fn unit_form_durations_concatenate() {
    assert_eq!(parse_duration("1h"), Some(3600));
    assert_eq!(parse_duration("30m5s"), Some(1805));
    assert_eq!(parse_duration("1h30m5s"), Some(5405));
    assert_eq!(parse_duration("90s90s"), Some(180));
}
