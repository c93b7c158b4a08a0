use pv::format::parse_format_string;
use pv::format::FormatToken;

fn text(s: &str) -> FormatToken {
    FormatToken::Text(s.to_string())
}

#[test]
fn literal_template_is_one_text() {
    assert_eq!(parse_format_string("hello world"), vec![text("hello world")]);
}

#[test]
fn empty_template_has_no_tokens() {
    assert_eq!(parse_format_string(""), Vec::<FormatToken>::new());
}

#[test]
fn double_percent_is_one_percent() {
    assert_eq!(parse_format_string("100%%"), vec![text("100%")]);
    assert_eq!(parse_format_string("a%%b%%c"), vec![text("a%b%c")]);
    assert_eq!(parse_format_string("%%"), vec![text("%")]);
}

#[test]
fn short_directives_select_tokens() {
    assert_eq!(
        parse_format_string("%p%t%e%I%r%a%b%N"),
        vec![
            FormatToken::Progress { width: None },
            FormatToken::Timer,
            FormatToken::Eta,
            FormatToken::Fineta,
            FormatToken::Rate,
            FormatToken::AverageRate,
            FormatToken::Bytes,
            FormatToken::Name,
        ]
    );
}

#[test]
fn named_directives_select_tokens() {
    assert_eq!(
        parse_format_string(
            "%{progress}%{progress-bar-only}%{progress-amount-only}%{timer}%{eta}%{fineta}"
        ),
        vec![
            FormatToken::Progress { width: None },
            FormatToken::ProgressBarOnly { width: None },
            FormatToken::ProgressAmountOnly,
            FormatToken::Timer,
            FormatToken::Eta,
            FormatToken::Fineta,
        ]
    );
    assert_eq!(
        parse_format_string("%{rate}%{average-rate}%{bytes}%{transferred}%{name}"),
        vec![
            FormatToken::Rate,
            FormatToken::AverageRate,
            FormatToken::Bytes,
            FormatToken::Bytes,
            FormatToken::Name,
        ]
    );
}

#[test]
fn width_hints_are_read() {
    assert_eq!(parse_format_string("%20p"), vec![FormatToken::Progress { width: Some(20) }]);
    assert_eq!(
        parse_format_string("%5{progress-bar-only}"),
        vec![FormatToken::ProgressBarOnly { width: Some(5) }]
    );
    assert_eq!(parse_format_string("%007p"), vec![FormatToken::Progress { width: Some(7) }]);
    assert_eq!(parse_format_string("%12t"), vec![FormatToken::Timer]);
}

#[test]
fn oversized_width_is_dropped() {
    assert_eq!(
        parse_format_string("%99999999999999999999999p"),
        vec![FormatToken::Progress { width: None }]
    );
}

#[test]
fn text_and_directives_alternate() {
    assert_eq!(
        parse_format_string("Bytes: %b done"),
        vec![text("Bytes: "), FormatToken::Bytes, text(" done")]
    );
}

#[test]
fn unknown_name_is_kept_verbatim() {
    assert_eq!(parse_format_string("%{unknown}"), vec![text("%{unknown}")]);
    assert_eq!(
        parse_format_string("%b %{unknown} done"),
        vec![FormatToken::Bytes, text(" %{unknown} done")]
    );
}

#[test]
fn unknown_char_is_kept_verbatim() {
    assert_eq!(parse_format_string("a%xb"), vec![text("a%xb")]);
    assert_eq!(parse_format_string("%3x"), vec![text("%3x")]);
}

#[test]
fn unclosed_brace_is_kept_verbatim() {
    assert_eq!(parse_format_string("%{timer"), vec![text("%{timer")]);
    assert_eq!(parse_format_string("x %{"), vec![text("x %{")]);
}

#[test]
fn trailing_percent_is_kept() {
    assert_eq!(parse_format_string("50%"), vec![text("50%")]);
    assert_eq!(parse_format_string("%12"), vec![text("%12")]);
}

#[test]
fn non_ascii_text_is_kept() {
    assert_eq!(
        parse_format_string("Grüße %b 世界"),
        vec![text("Grüße "), FormatToken::Bytes, text(" 世界")]
    );
}
