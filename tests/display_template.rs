use pv::format::parse_format_string;
use pv::template::build_indicatif_template;
use pv::template::display_mode;
use pv::template::flags_template;
use pv::template::visual_template;
use pv::template::DisplayMode;
use pv::template::DisplayOptions;

fn options() -> DisplayOptions {
    DisplayOptions {
        name: None,
        timer: false,
        bytes: false,
        rate: false,
        average_rate: false,
        eta: false,
        fineta: false,
        line_mode: false,
        si: false,
        size_known: false,
        width: None,
    }
}

#[test]
fn custom_template_in_byte_mode() {
    let mut o = options();
    o.size_known = true;
    let t = build_indicatif_template(&parse_format_string("%t %b %r"), &o);
    assert_eq!(t, "{elapsed_precise} {bytes}/{total_bytes} {bytes_per_sec}");
}

#[test]
fn custom_template_in_line_mode() {
    let mut o = options();
    o.line_mode = true;
    let t = build_indicatif_template(&parse_format_string("%b lines at %{average-rate}"), &o);
    assert_eq!(t, "{pos} lines at {per_sec}");
}

#[test]
fn custom_template_bars() {
    let o = options();
    assert_eq!(build_indicatif_template(&parse_format_string("%20p"), &o), "{bar:20} {percent}%");
    assert_eq!(build_indicatif_template(&parse_format_string("%p"), &o), "{wide_bar} {percent}%");
    assert_eq!(
        build_indicatif_template(&parse_format_string("%8{progress-bar-only}|%{progress-amount-only}"), &o),
        "{bar:8}|{percent}%"
    );
    assert_eq!(build_indicatif_template(&parse_format_string("%e %I"), &o), "{eta_precise} {eta_precise}");
}

#[test]
fn custom_template_name() {
    let mut o = options();
    assert_eq!(build_indicatif_template(&parse_format_string("%N%t"), &o), "{elapsed_precise}");
    o.name = Some("backup".to_string());
    assert_eq!(build_indicatif_template(&parse_format_string("%N%t"), &o), "backup: {elapsed_precise}");
}

#[test]
fn fallback_template_without_flags() {
    assert_eq!(
        flags_template(&options()),
        "{elapsed} {wide_bar} {percent}% {bytes}/{total_bytes} {bytes_per_sec} {eta}"
    );
    let mut o = options();
    o.line_mode = true;
    assert_eq!(flags_template(&o), "{elapsed} {wide_bar} {percent}% {pos}/{len} {per_sec} {eta}");
}

#[test]
fn flag_template_parts_in_order() {
    let mut o = options();
    o.name = Some("x".to_string());
    o.timer = true;
    o.bytes = true;
    assert_eq!(flags_template(&o), "x {elapsed_precise} {wide_bar} {percent}% {bytes}");
    o.size_known = true;
    o.eta = true;
    assert_eq!(
        flags_template(&o),
        "x {elapsed_precise} {wide_bar} {percent}% {bytes}/{total_bytes} {eta_precise}"
    );
}

#[test]
fn flag_template_with_width_and_rate() {
    let mut o = options();
    o.width = Some(30);
    o.average_rate = true;
    o.line_mode = true;
    assert_eq!(flags_template(&o), "{bar:30} {percent} {per_sec}");
}

#[test]
fn visual_template_prefers_custom() {
    let mut o = options();
    o.timer = true;
    assert_eq!(visual_template(&o, Some("%b")), "{bytes}");
    assert_eq!(visual_template(&o, None), "{elapsed_precise} {wide_bar} {percent}%");
}

#[test]
fn quiet_wins_over_numeric() {
    assert_eq!(display_mode(true, true), DisplayMode::Quiet);
    assert_eq!(display_mode(true, false), DisplayMode::Quiet);
    assert_eq!(display_mode(false, true), DisplayMode::Numeric);
    assert_eq!(display_mode(false, false), DisplayMode::Visual);
}

#[test]
fn si_units_use_decimal_byte_fields() {
    let mut o = options();
    o.si = true;
    o.size_known = true;
    assert_eq!(
        build_indicatif_template(&parse_format_string("%b %r"), &o),
        "{decimal_bytes}/{decimal_total_bytes} {decimal_bytes_per_sec}"
    );
    assert_eq!(
        flags_template(&o),
        "{elapsed} {wide_bar} {percent}% {decimal_bytes}/{decimal_total_bytes} {decimal_bytes_per_sec} {eta}"
    );
    o.line_mode = true;
    assert_eq!(build_indicatif_template(&parse_format_string("%b"), &o), "{pos}/{len}");
}
