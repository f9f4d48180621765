use iron_request::text::{parse_u16, u16_to_dec};
use iron_request::url::{parse_absolute, Url};

fn parts(u: &Url) -> (String, String, u16, String, Option<String>) {
    (
        u.scheme.clone(),
        u.host.clone(),
        u.port,
        u.path.clone(),
        u.query.clone(),
    )
}

#[test]
fn absolute_simple() {
    let u = parse_absolute("http://h/p").expect("should parse");
    assert_eq!(
        parts(&u),
        ("http".to_string(), "h".to_string(), 80, "/p".to_string(), None)
    );
}

#[test]
fn absolute_renders_with_port() {
    let u = parse_absolute("http://h/p").unwrap();
    assert_eq!(u.to_text(), "http://h:80/p");
}

#[test]
fn absolute_parse_is_idempotent() {
    let u = parse_absolute("http://h/p").unwrap();
    let v = parse_absolute(&u.to_text()).expect("rendered URL should parse");
    assert_eq!(parts(&u), parts(&v));
    assert_eq!(u.to_text(), v.to_text());
}

#[test]
fn absolute_idempotent_with_query_and_bracket_host() {
    let u = parse_absolute("https://[::1]:8443/a/b?x=1&y=2").unwrap();
    assert_eq!(u.host, "[::1]");
    assert_eq!(u.port, 8443);
    assert_eq!(u.query.as_deref(), Some("x=1&y=2"));
    let v = parse_absolute(&u.to_text()).unwrap();
    assert_eq!(parts(&u), parts(&v));
}

#[test]
fn absolute_explicit_port() {
    let u = parse_absolute("http://example.com:81/p").unwrap();
    assert_eq!(u.port, 81);
}

#[test]
fn absolute_https_default_port() {
    let u = parse_absolute("https://example.com/p").unwrap();
    assert_eq!(u.port, 443);
}

#[test]
fn absolute_no_path_gets_root() {
    let u = parse_absolute("http://h").unwrap();
    assert_eq!(u.path, "/");
    assert_eq!(u.query, None);
}

#[test]
fn absolute_query_without_path() {
    let u = parse_absolute("http://h?q=1").unwrap();
    assert_eq!(u.path, "/");
    assert_eq!(u.query.as_deref(), Some("q=1"));
}

#[test]
fn absolute_rejects_unknown_scheme_without_port() {
    assert!(parse_absolute("ftp://h/p").is_none());
}

#[test]
fn absolute_unknown_scheme_with_port() {
    let u = parse_absolute("ftp://h:21/p").unwrap();
    assert_eq!(u.scheme, "ftp");
    assert_eq!(u.port, 21);
}

#[test]
fn absolute_rejects_bad_inputs() {
    assert!(parse_absolute("*").is_none());
    assert!(parse_absolute("/just/a/path").is_none());
    assert!(parse_absolute("").is_none());
    assert!(parse_absolute("http:/h/p").is_none());
    assert!(parse_absolute("http://").is_none());
    assert!(parse_absolute("http://:80/p").is_none());
    assert!(parse_absolute("http://h:99999/p").is_none());
    assert!(parse_absolute("http://h:abc/p").is_none());
    assert!(parse_absolute("http://h:/p").is_none());
    assert!(parse_absolute("1http://h/p").is_none());
}

#[test]
fn absolute_bracket_host_requires_bracket_close() {
    assert!(parse_absolute("http://[::1/p").is_none());
    let u = parse_absolute("http://[::1]/p").unwrap();
    assert_eq!(u.host, "[::1]");
    assert_eq!(u.port, 80);
}

#[test]
fn decimal_text_edges() {
    assert_eq!(parse_u16("65535"), Some(65535));
    assert_eq!(parse_u16("65536"), None);
    assert_eq!(parse_u16(""), None);
    assert_eq!(parse_u16("12a"), None);
    assert_eq!(parse_u16("007"), Some(7));
    assert_eq!(u16_to_dec(8080), "8080");
    assert_eq!(u16_to_dec(0), "0");
}
