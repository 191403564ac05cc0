use spore_downloader::digits::{i64_to_string, parse_i64, u64_to_string};
use spore_downloader::error::SporeError;
use spore_downloader::spore_server::SporeServer;

#[test]
fn nine_digit_identifier_is_sharded_in_threes() {
    let server = SporeServer::new();
    let url = server.asset_png_url(123456789).unwrap();
    assert_eq!(url, "http://www.spore.com/static/thumb/123/456/789/123456789.png");
    assert!(url.ends_with("/123/456/789/123456789.png"));
}

#[test]
fn eight_digit_identifier_is_too_short() {
    let server = SporeServer::new();
    assert_eq!(server.asset_png_url(12345678), Err(SporeError::IdentifierTooShort));
}

#[test]
fn longer_identifiers_shard_on_their_first_nine_characters() {
    let server = SporeServer::new();
    let url = server.asset_png_url(500123456789).unwrap();
    assert_eq!(url, "http://www.spore.com/static/thumb/500/123/456/500123456789.png");
}

#[test]
fn negative_identifier_counts_its_sign_character() {
    let server = SporeServer::new();
    let url = server.asset_png_url(-123456789).unwrap();
    assert_eq!(url, "http://www.spore.com/static/thumb/-12/345/678/-123456789.png");
    let url = server.asset_png_url(-12345678).unwrap();
    assert_eq!(url, "http://www.spore.com/static/thumb/-12/345/678/-12345678.png");
    assert_eq!(server.asset_png_url(-1234567), Err(SporeError::IdentifierTooShort));
}

#[test]
fn renders_decimals_exactly() {
    assert_eq!(u64_to_string(0), "0");
    assert_eq!(u64_to_string(42), "42");
    assert_eq!(u64_to_string(18446744073709551615), "18446744073709551615");
    assert_eq!(i64_to_string(0), "0");
    assert_eq!(i64_to_string(-7), "-7");
    assert_eq!(i64_to_string(9223372036854775807), "9223372036854775807");
    assert_eq!(i64_to_string(-9223372036854775808), "-9223372036854775808");
}

#[test]
fn reads_decimals_exactly() {
    assert_eq!(parse_i64("42"), Some(42));
    assert_eq!(parse_i64("+42"), Some(42));
    assert_eq!(parse_i64("-42"), Some(-42));
    assert_eq!(parse_i64("00042"), Some(42));
    assert_eq!(parse_i64("0"), Some(0));
    assert_eq!(parse_i64("9223372036854775807"), Some(9223372036854775807));
    assert_eq!(parse_i64("-9223372036854775808"), Some(-9223372036854775808));
}

#[test]
fn rejects_what_is_not_a_decimal_i64() {
    assert_eq!(parse_i64(""), None);
    assert_eq!(parse_i64("-"), None);
    assert_eq!(parse_i64("+"), None);
    assert_eq!(parse_i64("fortytwo"), None);
    assert_eq!(parse_i64("4 2"), None);
    assert_eq!(parse_i64("42x"), None);
    assert_eq!(parse_i64(" 42"), None);
    assert_eq!(parse_i64("9223372036854775808"), None);
    assert_eq!(parse_i64("-9223372036854775809"), None);
    assert_eq!(parse_i64("99999999999999999999999999"), None);
}

#[test]
fn reading_agrees_with_the_standard_parser() {
    let cases = [
        "42", "+42", "-42", "00042", "", "-", "+", "x", "9223372036854775807",
        "9223372036854775808", "-9223372036854775808", "-9223372036854775809", "1e3", "4.2",
    ];
    for s in cases {
        assert_eq!(parse_i64(s), s.parse::<i64>().ok(), "case {:?}", s);
    }
}

#[test]
fn rendering_agrees_with_the_standard_renderer() {
    for v in [0i64, 1, -1, 42, -42, 123456789, i64::MAX, i64::MIN] {
        assert_eq!(i64_to_string(v), v.to_string());
    }
}
