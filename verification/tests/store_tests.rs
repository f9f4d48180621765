use iron_request::extensions::ExtensionStore;
use iron_request::headers::Headers;
use iron_request::method::Method;
use iron_request::net::SocketAddr;
use iron_request::protocol::Protocol;
use iron_request::request::{HttpRequest, Request};
use iron_request::resolver::Target;

#[test]
fn fresh_store_is_empty() {
    let s = ExtensionStore::new();
    assert!(s.get(1).is_none());
    assert!(!s.contains(1));
}

#[test]
fn insert_then_get_returns_the_value() {
    let mut s = ExtensionStore::new();
    assert_eq!(s.insert(1, vec![9, 9]), None);
    assert_eq!(s.get(1), Some(&vec![9, 9]));
}

#[test]
fn different_key_does_not_disturb() {
    let mut s = ExtensionStore::new();
    s.insert(1, vec![1]);
    s.insert(2, vec![2]);
    assert_eq!(s.get(1), Some(&vec![1]));
    assert_eq!(s.get(2), Some(&vec![2]));
}

#[test]
fn last_write_wins_and_returns_previous() {
    let mut s = ExtensionStore::new();
    assert_eq!(s.insert(1, vec![1]), None);
    assert_eq!(s.insert(1, vec![2]), Some(vec![1]));
    assert_eq!(s.get(1), Some(&vec![2]));
}

#[test]
fn get_mut_edits_in_place() {
    let mut s = ExtensionStore::new();
    s.insert(1, vec![1, 2]);
    assert!(s.get_mut(2).is_none());
    if let Some(v) = s.get_mut(1) {
        v.push(3);
    }
    assert_eq!(s.get(1), Some(&vec![1, 2, 3]));
}

#[test]
fn remove_hands_the_value_back() {
    let mut s = ExtensionStore::new();
    s.insert(1, vec![5]);
    assert_eq!(s.remove(1), Some(vec![5]));
    assert!(s.get(1).is_none());
    assert_eq!(s.remove(1), None);
}

#[test]
fn store_reached_through_the_request() {
    let req = HttpRequest {
        target: Target::AbsoluteForm("http://h/p".to_string()),
        method: Method::Get,
        headers: Headers::new(),
        remote_addr: SocketAddr::new(1, 2, 3, 4, 5),
        reader: None,
    };
    let local = SocketAddr::new(127, 0, 0, 1, 80);
    let mut q = Request::from_http(req, local, &Protocol::Http).unwrap();
    assert!(q.extensions().get(42).is_none());
    q.extensions_mut().insert(42, vec![7]);
    assert_eq!(q.extensions().get(42), Some(&vec![7]));
}
