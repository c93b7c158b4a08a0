use pv::format::parse_format_string;
use pv::report::percent_value;
use pv::report::rate_value;
use pv::report::timer_string;
use pv::report::NumericConfig;
use pv::report::ReportThrottle;
use pv::report::Snapshot;

fn flags(timer: bool, bytes: bool, rate: bool) -> NumericConfig {
    NumericConfig { show_timer: timer, show_bytes: bytes, show_rate: rate, tokens: None }
}

fn template(t: &str) -> NumericConfig {
    NumericConfig {
        show_timer: false,
        show_bytes: false,
        show_rate: false,
        tokens: Some(parse_format_string(t)),
    }
}

fn snap(position: u64, length: Option<u64>, elapsed_nanos: u128) -> Snapshot {
    Snapshot { position, length, elapsed_nanos }
}

#[test]
fn default_line_is_percentage() {
    assert_eq!(flags(false, false, false).numeric_line(&snap(9, Some(100), 0)), "9");
    assert_eq!(flags(false, false, false).numeric_line(&snap(50, Some(200), 0)), "25");
}

#[test]
fn default_line_with_zero_length() {
    assert_eq!(flags(false, false, false).numeric_line(&snap(9, Some(0), 0)), "0");
    assert_eq!(flags(false, false, false).numeric_line(&snap(0, Some(0), 0)), "0");
}

#[test]
fn default_line_without_length_is_position() {
    assert_eq!(flags(false, false, false).numeric_line(&snap(1000, None, 0)), "1000");
}

#[test]
fn bytes_flag_shows_position() {
    assert_eq!(flags(false, true, false).numeric_line(&snap(9, Some(0), 5)), "9");
}

#[test]
fn timer_and_bytes_and_rate_are_space_separated() {
    let s = snap(1000, Some(0), 2_000_000_000);
    assert_eq!(flags(true, true, false).numeric_line(&s), "2.0 1000");
    assert_eq!(flags(true, true, true).numeric_line(&s), "2.0 1000 500");
    assert_eq!(flags(false, false, true).numeric_line(&s), "500");
}

#[test]
fn timer_rounds_to_tenths() {
    assert_eq!(timer_string(0), "0.0");
    assert_eq!(timer_string(1_234_000_000), "1.2");
    assert_eq!(timer_string(1_250_000_000), "1.3");
    assert_eq!(timer_string(59_960_000_000), "60.0");
}

#[test]
fn rate_is_zero_before_time_passes() {
    assert_eq!(rate_value(&snap(100, None, 0)), 0);
    assert_eq!(rate_value(&snap(3, None, 2_000_000_000)), 1);
    assert_eq!(rate_value(&snap(u64::MAX, None, 1)), u64::MAX);
}

#[test]
fn percentage_of_large_position() {
    assert_eq!(percent_value(&snap(u64::MAX, Some(1), 0)), u64::MAX as u128 * 100);
}

#[test]
fn template_values_run_together() {
    let s = snap(9, Some(0), 1_000_000_000);
    assert_eq!(template("Bytes: %b").numeric_line(&s), "Bytes: 9");
    assert_eq!(template("%t %b").numeric_line(&s), "1.0 9");
    assert_eq!(template("%b %{unknown} done").numeric_line(&s), "9 %{unknown} done");
}

#[test]
fn template_bars_show_percentage() {
    assert_eq!(template("%{progress}").numeric_line(&snap(9, Some(0), 0)), "0");
    assert_eq!(template("%p|%{progress-bar-only}").numeric_line(&snap(3, Some(4), 0)), "75|75");
    assert_eq!(template("Progress: %{progress-amount-only}%%").numeric_line(&snap(9, None, 0)), "Progress: 9%");
}

#[test]
fn template_drops_eta_and_name() {
    assert_eq!(template("%e%I%N").numeric_line(&snap(9, None, 0)), "");
    assert_eq!(template("[%e]").numeric_line(&snap(9, None, 0)), "[]");
}

#[test]
fn first_report_is_always_due() {
    let mut t = ReportThrottle::new();
    assert!(t.after_chunk(0));
    assert_eq!(t.emitted, 1);
}

#[test]
fn reports_are_throttled() {
    let mut t = ReportThrottle::new();
    assert!(t.after_chunk(5));
    assert!(!t.after_chunk(50_000_000));
    assert!(!t.after_chunk(100_000_004));
    assert!(t.after_chunk(100_000_005));
    assert_eq!(t.emitted, 2);
    assert_eq!(t.last_nanos, 100_000_005);
}

#[test]
fn final_report_is_always_due() {
    let mut empty_input = ReportThrottle::new();
    assert!(empty_input.at_end(0));
    assert_eq!(empty_input.emitted, 1);
    let mut t = ReportThrottle::new();
    assert!(t.after_chunk(0));
    assert!(!t.after_chunk(1));
    assert!(t.at_end(2));
    assert_eq!(t.emitted, 2);
}
