use weibo_client::cookie::{parse_cookie, translate, Cookie, SameSite};
use weibo_client::dates::parse_http_date;
use weibo_client::errors::Error;

fn chars(s: &str) -> Vec<char> {
    s.chars().collect()
}

#[test]
fn test_parse_cookie() {
    // One line of each shape the service's responses carry.
    let lines = [
        "SUB=abc123; expires=Tue, 01-Jan-2030 00:00:00 GMT; path=/; domain=.example.com; secure; HttpOnly",
        "SSOLoginState=1712345678",
        "XSRF-TOKEN=tok; Path=/; Max-Age=3600",
    ];
    for line in lines {
        parse_cookie(line, "example.com", 0).unwrap();
    }
    let c = parse_cookie(lines[0], "fallback.example.com", 0).unwrap();
    assert_eq!(c.name, "SUB");
    assert_eq!(c.value, "abc123");
    assert_eq!(c.domain, "example.com");
    assert_eq!(c.path, "/");
    assert_eq!(c.expires, Some(1893456000));
    assert!(c.secure);
    assert!(c.http_only);
    assert_eq!(c.same_site, None);
    assert!(!c.partitioned);
}

#[test]
fn test_cookie_to_cookie_store() {
    // A per-domain mapping as it comes embedded in a login response.
    let raw = vec![
        (
            ".example.com".to_string(),
            "SUB=abc; path=/; secure\nSUBP=def; HttpOnly".to_string(),
        ),
        ("sso.example.com".to_string(), "ALF=1893456000".to_string()),
    ];
    let jar = translate(&raw, 1000).unwrap();
    assert_eq!(jar.len(), 3);
    assert_eq!(jar[0].name, "SUB");
    assert_eq!(jar[0].domain, "example.com");
    assert!(jar[0].secure);
    assert_eq!(jar[1].name, "SUBP");
    assert!(jar[1].http_only);
    assert_eq!(jar[2].name, "ALF");
    assert_eq!(jar[2].domain, "sso.example.com");
}

#[test]
fn missing_name_value_pair_fails() {
    let r = parse_cookie("no pair here", "example.com", 0);
    assert!(matches!(r, Err(Error::DataConversionError(_))));
    let r = parse_cookie("=value-without-name", "example.com", 0);
    assert!(matches!(r, Err(Error::DataConversionError(_))));
    // One malformed line fails the whole mapping.
    let raw = vec![("example.com".to_string(), "A=1\nrubbish\nB=2".to_string())];
    assert!(matches!(translate(&raw, 0), Err(Error::DataConversionError(_))));
}

#[test]
fn unknown_attributes_are_ignored() {
    let c = parse_cookie("A=1; Priority=High; Version=1", "example.com", 0).unwrap();
    assert_eq!(c.name, "A");
    assert_eq!(c.value, "1");
    assert_eq!(c.expires, None);
}

#[test]
fn max_age_clamps_and_overrides() {
    let c = parse_cookie("A=1; Max-Age=100", "example.com", 1000).unwrap();
    assert_eq!(c.expires, Some(1100));
    // Negative values mean zero remaining lifetime.
    let c = parse_cookie("A=1; Max-Age=-7", "example.com", 1000).unwrap();
    assert_eq!(c.expires, Some(1000));
    // Max-Age outranks Expires.
    let c = parse_cookie(
        "A=1; expires=Tue, 01-Jan-2030 00:00:00 GMT; Max-Age=5",
        "example.com",
        1000,
    )
    .unwrap();
    assert_eq!(c.expires, Some(1005));
    // Non-numeric values are ignored.
    let c = parse_cookie("A=1; Max-Age=soon", "example.com", 1000).unwrap();
    assert_eq!(c.expires, None);
}

#[test]
fn same_site_values() {
    let c = parse_cookie("A=1; SameSite=Strict", "example.com", 0).unwrap();
    assert_eq!(c.same_site, Some(SameSite::Strict));
    let c = parse_cookie("A=1; samesite=lax", "example.com", 0).unwrap();
    assert_eq!(c.same_site, Some(SameSite::Lax));
    let c = parse_cookie("A=1; SameSite=None", "example.com", 0).unwrap();
    assert_eq!(c.same_site, Some(SameSite::NoneSite));
    // Unrecognised values are silently dropped.
    let c = parse_cookie("A=1; SameSite=Sideways", "example.com", 0).unwrap();
    assert_eq!(c.same_site, None);
}

#[test]
fn partitioned_and_case_insensitive_keys() {
    let c = parse_cookie("A=1; PARTITIONED; SECURE; HTTPONLY", "example.com", 0).unwrap();
    assert!(c.partitioned);
    assert!(c.secure);
    assert!(c.http_only);
}

#[test]
fn domain_and_path_attributes_override() {
    let c = parse_cookie("A=1; Domain=.other.com; Path=/sub", "example.com", 0).unwrap();
    assert_eq!(c.domain, "other.com");
    assert_eq!(c.path, "/sub");
}

#[test]
fn unparseable_dates_leave_expiry_unset() {
    let c = parse_cookie("A=1; expires=tomorrow", "example.com", 0).unwrap();
    assert_eq!(c.expires, None);
    let c = parse_cookie("A=1; expires=Tue, 30-Feb-2030 00:00:00 GMT", "example.com", 0).unwrap();
    assert_eq!(c.expires, None);
}

#[test]
fn both_date_forms_parse() {
    let short = parse_http_date(&chars("Tue, 01-Jan-2030 00:00:00 GMT"));
    assert_eq!(short, Some(1893456000));
    let long = parse_http_date(&chars("Friday, 31-Dec-1999 23:59:59 GMT"));
    assert_eq!(long, Some(946684799));
    // The epoch itself.
    let epoch = parse_http_date(&chars("Thu, 01-Jan-1970 00:00:00 GMT"));
    assert_eq!(epoch, Some(0));
    // A leap day.
    let leap = parse_http_date(&chars("Tue, 29-Feb-2000 12:30:45 GMT"));
    assert_eq!(leap, Some(951827445));
}

#[test]
fn bad_dates_do_not_parse() {
    assert_eq!(parse_http_date(&chars("Xyz, 01-Jan-2030 00:00:00 GMT")), None);
    assert_eq!(parse_http_date(&chars("Tue, 01-Jan-2030 24:00:00 GMT")), None);
    assert_eq!(parse_http_date(&chars("Tue, 00-Jan-2030 00:00:00 GMT")), None);
    assert_eq!(parse_http_date(&chars("Tue, 01-Jan-1969 00:00:00 GMT")), None);
    assert_eq!(parse_http_date(&chars("Tue, 01-Jan-2030 00:00:00 UTC")), None);
    assert_eq!(parse_http_date(&chars("01-Jan-2030 00:00:00 GMT")), None);
}

#[test]
fn session_cookie_without_expiry() {
    let c: Cookie = parse_cookie("SESSION=xyz; path=/", "example.com", 0).unwrap();
    assert_eq!(c.expires, None);
}

#[test]
fn crlf_lines_and_trailing_newline() {
    let raw = vec![("example.com".to_string(), "A=1\r\nB=2\n".to_string())];
    let jar = translate(&raw, 0).unwrap();
    assert_eq!(jar.len(), 2);
    assert_eq!(jar[0].name, "A");
    assert_eq!(jar[1].name, "B");
}
