use almarjaa_network::{parse_cookies, Cookie};

#[test]
fn bare_cookie_header() {
    assert_eq!(Cookie::new("session", "abc").to_header(), "session=abc");
}

#[test]
fn cookie_with_all_attributes() {
    let mut c = Cookie::new("id", "42")
        .expires("Wed, 21 Oct 2026 07:28:00 GMT")
        .max_age(3600)
        .domain("example.com")
        .path("/")
        .secure()
        .http_only();
    c.same_site = Some("Strict".to_string());
    assert_eq!(
        c.to_header(),
        "id=42; Expires=Wed, 21 Oct 2026 07:28:00 GMT; Max-Age=3600; Domain=example.com; Path=/; Secure; HttpOnly; SameSite=Strict"
    );
}

#[test]
fn cookie_max_age_zero() {
    assert_eq!(Cookie::new("a", "b").max_age(0).to_header(), "a=b; Max-Age=0");
}

#[test]
fn parse_simple_cookie_header() {
    let m = parse_cookies("a=1; b=2");
    assert_eq!(m.len(), 2);
    assert_eq!(m.get("a"), Some(&"1".to_string()));
    assert_eq!(m.get("b"), Some(&"2".to_string()));
}

#[test]
fn parse_cookie_header_edge_cases() {
    let m = parse_cookies("  name = value with space ;flag; x=1=2; ;a=first;a=second; =empty");
    assert_eq!(m.get("name"), Some(&"value with space".to_string()));
    assert_eq!(m.get("flag"), None);
    assert_eq!(m.get("x"), Some(&"1=2".to_string()));
    assert_eq!(m.get("a"), Some(&"second".to_string()));
    assert_eq!(m.get(""), Some(&"empty".to_string()));
    assert_eq!(m.len(), 4);
}

#[test]
fn parse_empty_cookie_header() {
    assert_eq!(parse_cookies("").len(), 0);
    assert_eq!(parse_cookies(";;;").len(), 0);
}

#[test]
fn cookie_round_trip() {
    let c = Cookie::new("theme", "dark");
    let m = parse_cookies(&c.to_header());
    assert_eq!(m.len(), 1);
    assert_eq!(m.get("theme"), Some(&"dark".to_string()));
}
