use pv::rate::parse_rate_limit;
use pv::rate::RateLimitError;

#[test]
fn plain_number() {
    assert_eq!(parse_rate_limit("500"), Ok(500));
    assert_eq!(parse_rate_limit("0"), Ok(0));
    assert_eq!(parse_rate_limit("+5"), Ok(5));
}

#[test]
fn binary_suffixes() {
    assert_eq!(parse_rate_limit("1k"), Ok(1024));
    assert_eq!(parse_rate_limit("1K"), Ok(1024));
    assert_eq!(parse_rate_limit("5m"), Ok(5 * 1024 * 1024));
    assert_eq!(parse_rate_limit("2G"), Ok(2 * 1024 * 1024 * 1024));
    assert_eq!(parse_rate_limit("3t"), Ok(3 * 1024u64.pow(4)));
}

#[test]
fn surrounding_white_space_is_ignored() {
    assert_eq!(parse_rate_limit("  10 "), Ok(10));
    assert_eq!(parse_rate_limit("\t2k\n"), Ok(2048));
}

#[test]
fn invalid_suffix() {
    assert_eq!(parse_rate_limit("100x"), Err(RateLimitError::InvalidSuffix('x')));
    assert_eq!(parse_rate_limit("100X"), Err(RateLimitError::InvalidSuffix('x')));
}

#[test]
fn empty_rate_limit() {
    assert_eq!(parse_rate_limit(""), Err(RateLimitError::Empty));
    assert_eq!(parse_rate_limit("   "), Err(RateLimitError::Empty));
}

#[test]
fn invalid_number() {
    assert_eq!(parse_rate_limit("abc"), Err(RateLimitError::InvalidNumber("ab".to_string())));
    assert_eq!(parse_rate_limit("k"), Err(RateLimitError::InvalidNumber(String::new())));
    assert_eq!(parse_rate_limit("1.5k"), Err(RateLimitError::InvalidNumber("1.5".to_string())));
    assert_eq!(parse_rate_limit("-3"), Err(RateLimitError::InvalidNumber("-3".to_string())));
    assert_eq!(parse_rate_limit("+"), Err(RateLimitError::InvalidNumber("+".to_string())));
}

#[test]
fn number_is_judged_before_suffix() {
    assert_eq!(parse_rate_limit("zzq"), Err(RateLimitError::InvalidNumber("zz".to_string())));
}

#[test]
fn largest_values() {
    assert_eq!(parse_rate_limit("18446744073709551615"), Ok(u64::MAX));
    assert_eq!(
        parse_rate_limit("18446744073709551616"),
        Err(RateLimitError::InvalidNumber("18446744073709551616".to_string()))
    );
    assert_eq!(parse_rate_limit("16777215t"), Ok(16777215 * 1024u64.pow(4)));
    assert_eq!(parse_rate_limit("16777216t"), Err(RateLimitError::TooLarge));
}
