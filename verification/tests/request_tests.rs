use iron_request::body::BufferSource;
use iron_request::error::Error;
use iron_request::headers::Headers;
use iron_request::method::Method;
use iron_request::net::SocketAddr;
use iron_request::protocol::Protocol;
use iron_request::request::{HttpRequest, Request};
use iron_request::resolver::{resolve, Target};

fn host_headers(value: &str) -> Headers {
    let mut h = Headers::new();
    h.add("Host".to_string(), value.to_string());
    h
}

fn descriptor(target: Target, headers: Headers, body: Option<Vec<u8>>) -> HttpRequest {
    HttpRequest {
        target,
        method: Method::Get,
        headers,
        remote_addr: SocketAddr::new(10, 0, 0, 2, 54321),
        reader: body.map(BufferSource::new),
    }
}

#[test]
fn origin_form_synthesizes_from_host_and_local_port() {
    let target = Target::OriginForm("/path".to_string());
    let local = SocketAddr::new(127, 0, 0, 1, 8080);
    let u = resolve(&target, &host_headers("example.com"), local, &Protocol::Http).unwrap();
    assert_eq!(u.to_text(), "http://example.com:8080/path");
}

#[test]
fn origin_form_ignores_port_in_host_header() {
    let target = Target::OriginForm("/path".to_string());
    let local = SocketAddr::new(127, 0, 0, 1, 8080);
    let u = resolve(&target, &host_headers("example.com:3000"), local, &Protocol::Http).unwrap();
    assert_eq!(u.host, "example.com");
    assert_eq!(u.port, 8080);
}

#[test]
fn origin_form_host_name_is_matched_case_insensitively() {
    let target = Target::OriginForm("/".to_string());
    let local = SocketAddr::new(127, 0, 0, 1, 80);
    let mut headers = Headers::new();
    headers.add("HOST".to_string(), "example.com".to_string());
    let u = resolve(&target, &headers, local, &Protocol::Http).unwrap();
    assert_eq!(u.host, "example.com");
}

#[test]
fn origin_form_splits_query() {
    let target = Target::OriginForm("/search?q=1".to_string());
    let local = SocketAddr::new(127, 0, 0, 1, 8080);
    let u = resolve(&target, &host_headers("example.com"), local, &Protocol::Https).unwrap();
    assert_eq!(u.scheme, "https");
    assert_eq!(u.path, "/search");
    assert_eq!(u.query.as_deref(), Some("q=1"));
}

#[test]
fn origin_form_without_host_is_missing_host() {
    let target = Target::OriginForm("/path".to_string());
    let local = SocketAddr::new(127, 0, 0, 1, 8080);
    let r = resolve(&target, &Headers::new(), local, &Protocol::Http);
    assert_eq!(r.unwrap_err(), Error::MissingHost);
}

#[test]
fn other_target_is_unsupported() {
    let local = SocketAddr::new(127, 0, 0, 1, 8080);
    let r = resolve(&Target::Other, &host_headers("example.com"), local, &Protocol::Http);
    assert_eq!(r.unwrap_err(), Error::UnsupportedTarget);
}

#[test]
fn malformed_absolute_target_is_unsupported() {
    let local = SocketAddr::new(127, 0, 0, 1, 8080);
    let t = Target::AbsoluteForm("*".to_string());
    let r = resolve(&t, &Headers::new(), local, &Protocol::Http);
    assert_eq!(r.unwrap_err(), Error::UnsupportedTarget);
}

#[test]
fn resolving_a_resolved_url_changes_nothing() {
    let target = Target::OriginForm("/path".to_string());
    let local = SocketAddr::new(127, 0, 0, 1, 8080);
    let u = resolve(&target, &host_headers("example.com"), local, &Protocol::Http).unwrap();
    let again = Target::AbsoluteForm(u.to_text());
    let other_local = SocketAddr::new(9, 9, 9, 9, 99);
    let v = resolve(&again, &Headers::new(), other_local, &Protocol::Https).unwrap();
    assert_eq!(u.to_text(), v.to_text());
}

#[test]
fn missing_host_produces_no_request() {
    let req = descriptor(Target::OriginForm("/p".to_string()), Headers::new(), None);
    let local = SocketAddr::new(127, 0, 0, 1, 8080);
    let r = Request::from_http(req, local, &Protocol::Http);
    assert_eq!(r.err(), Some(Error::MissingHost));
    let req = descriptor(Target::OriginForm("/p".to_string()), Headers::new(), None);
    let r = Request::from_header(&req, local, &Protocol::Http);
    assert_eq!(r.err(), Some(Error::MissingHost));
}

#[test]
fn header_only_body_always_fails() {
    let req = descriptor(
        Target::OriginForm("/p".to_string()),
        host_headers("example.com"),
        Some(vec![1, 2, 3]),
    );
    let local = SocketAddr::new(127, 0, 0, 1, 8080);
    let mut q = Request::from_header(&req, local, &Protocol::Http).unwrap();
    assert!(!q.body.is_live());
    for _ in 0..5 {
        let r = q.body.read(16);
        assert_eq!(r.unwrap_err(), Error::BodyUnavailable);
    }
}

#[test]
fn full_body_reads_reproduce_the_bytes() {
    let bytes: Vec<u8> = vec![10, 20, 30, 40, 50, 60, 70];
    let req = descriptor(
        Target::OriginForm("/p".to_string()),
        host_headers("example.com"),
        Some(bytes.clone()),
    );
    let local = SocketAddr::new(127, 0, 0, 1, 8080);
    let mut q = Request::from_http(req, local, &Protocol::Http).unwrap();
    assert!(q.body.is_live());
    let mut collected: Vec<u8> = Vec::new();
    loop {
        let chunk = q.body.read(3).unwrap();
        if chunk.is_empty() {
            break;
        }
        collected.extend_from_slice(&chunk);
    }
    assert_eq!(collected, bytes);
}

#[test]
fn both_paths_agree_except_for_body() {
    let local = SocketAddr::new(127, 0, 0, 1, 8080);
    let target = Target::OriginForm("/p?a=b".to_string());
    let req_full = descriptor(
        target.duplicate(),
        host_headers("example.com"),
        Some(vec![1, 2, 3]),
    );
    let req_head = descriptor(target, host_headers("example.com"), Some(vec![1, 2, 3]));
    let qh = Request::from_header(&req_head, local, &Protocol::Http).unwrap();
    let qf = Request::from_http(req_full, local, &Protocol::Http).unwrap();
    assert_eq!(qf.url.to_text(), qh.url.to_text());
    assert_eq!(qf.method, qh.method);
    assert_eq!(qf.remote_addr, qh.remote_addr);
    assert_eq!(qf.local_addr, qh.local_addr);
    assert_eq!(qf.headers.len(), qh.headers.len());
    assert!(qf.body.is_live());
    assert!(!qh.body.is_live());
    assert!(qf.extensions.get(7).is_none());
    assert!(qh.extensions.get(7).is_none());
}

#[test]
fn request_text_has_the_fixed_shape() {
    let req = descriptor(
        Target::AbsoluteForm("http://h/p".to_string()),
        Headers::new(),
        None,
    );
    let local = SocketAddr::new(127, 0, 0, 1, 8080);
    let q = Request::from_http(req, local, &Protocol::Http).unwrap();
    assert_eq!(
        q.to_text(),
        "Request {\n    url: http://h:80/p\n    method: GET\n    remote_addr: 10.0.0.2:54321\n    local_addr: 127.0.0.1:8080\n}"
    );
}

#[test]
fn buffer_source_reads_in_order() {
    let mut src = BufferSource::new(vec![1, 2, 3, 4, 5]);
    assert_eq!(src.remaining(), 5);
    assert_eq!(src.read(2), vec![1, 2]);
    assert_eq!(src.read(0), Vec::<u8>::new());
    assert_eq!(src.remaining(), 3);
    assert_eq!(src.read(9), vec![3, 4, 5]);
    assert_eq!(src.read(1), Vec::<u8>::new());
}

#[test]
fn method_and_address_text() {
    assert_eq!(Method::Post.as_text(), "POST");
    assert_eq!(Method::Get.as_text(), "GET");
    assert_eq!(
        SocketAddr::new(255, 255, 255, 255, 65535).as_text(),
        "255.255.255.255:65535"
    );
    assert_eq!(SocketAddr::new(0, 0, 0, 0, 0).as_text(), "0.0.0.0:0");
}

#[test]
fn empty_origin_target_is_unsupported() {
    let target = Target::OriginForm(String::new());
    let local = SocketAddr::new(127, 0, 0, 1, 8080);
    let r = resolve(&target, &host_headers("example.com"), local, &Protocol::Http);
    assert_eq!(r.unwrap_err(), Error::UnsupportedTarget);
}

#[test]
fn full_path_without_reader_has_absent_body() {
    let req = descriptor(
        Target::OriginForm("/p".to_string()),
        host_headers("example.com"),
        None,
    );
    let local = SocketAddr::new(127, 0, 0, 1, 8080);
    let mut q = Request::from_http(req, local, &Protocol::Http).unwrap();
    assert!(!q.body.is_live());
    assert_eq!(q.body.read(8).unwrap_err(), Error::BodyUnavailable);
}

#[test]
fn error_texts() {
    assert_eq!(Error::MissingHost.as_text(), "No host specified in request");
    assert_eq!(Error::UnsupportedTarget.as_text(), "Unsupported request URI");
    assert_eq!(
        Error::BodyUnavailable.as_text(),
        "This request does not have a body yet"
    );
}

#[test]
fn bracketed_host_header_keeps_its_brackets() {
    let target = Target::OriginForm("/p".to_string());
    let local = SocketAddr::new(127, 0, 0, 1, 8080);
    let u = resolve(&target, &host_headers("[::1]:443"), local, &Protocol::Http).unwrap();
    assert_eq!(u.host, "[::1]");
    assert_eq!(u.port, 8080);
}

#[test]
fn origin_form_with_bad_path_is_unsupported() {
    let target = Target::OriginForm("no-leading-slash".to_string());
    let local = SocketAddr::new(127, 0, 0, 1, 8080);
    let r = resolve(&target, &host_headers("example.com"), local, &Protocol::Http);
    assert_eq!(r.unwrap_err(), Error::UnsupportedTarget);
}

#[test]
fn origin_form_with_empty_host_is_unsupported() {
    let target = Target::OriginForm("/p".to_string());
    let local = SocketAddr::new(127, 0, 0, 1, 8080);
    let r = resolve(&target, &host_headers(""), local, &Protocol::Http);
    assert_eq!(r.unwrap_err(), Error::UnsupportedTarget);
}
