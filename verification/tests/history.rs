use std::sync::Arc;

use http_response::{Response, Stream, Unit};

fn at(url: &str, status: u16) -> Response {
    let mut response = Response::new(status, "Found", "").unwrap();
    response.set_url(url.parse().unwrap());
    response
}

#[test]
fn history_of_a_chain_is_most_recent_first() {
    let r0 = at("http://0.example.com/", 301);
    assert!(r0.history().next().is_none());
    let mut r1 = at("http://1.example.com/", 302);
    r1.set_previous(Arc::new(r0));
    let mut r2 = at("http://2.example.com/", 200);
    r2.set_previous(Arc::new(r1));

    let seen: Vec<(u16, String)> = r2
        .history()
        .to_vec()
        .into_iter()
        .map(|r| (r.status(), r.get_url().to_string()))
        .collect();
    assert_eq!(
        seen,
        vec![
            (302, "http://1.example.com/".to_string()),
            (301, "http://0.example.com/".to_string()),
        ]
    );
    assert_eq!(r2.status(), 200);
}

#[test]
fn history_can_be_walked_again_and_again() {
    let r0 = at("http://0.example.com/", 301);
    let mut r1 = at("http://1.example.com/", 302);
    r1.set_previous(Arc::new(r0));
    let mut r2 = at("http://2.example.com/", 200);
    r2.set_previous(Arc::new(r1));

    let mut one = r2.history();
    let mut other = r2.history();
    assert_eq!(one.next().unwrap().get_url(), "http://1.example.com/");
    assert_eq!(one.next().unwrap().get_url(), "http://0.example.com/");
    assert!(one.next().is_none());
    assert!(one.next().is_none());
    assert_eq!(other.next().unwrap().get_url(), "http://1.example.com/");
    assert_eq!(other.to_vec().len(), 1);
    assert_eq!(r2.history().to_vec().len(), 2);
    assert_eq!(r2.history().to_vec().len(), 2);
}

#[test]
fn history_does_not_hold_the_response_itself() {
    let r0 = at("http://0.example.com/", 301);
    let mut r1 = at("http://1.example.com/", 302);
    r1.set_previous(Arc::new(r0));
    let urls: Vec<&str> = r1.history().to_vec().into_iter().map(|r| r.get_url()).collect();
    assert_eq!(urls, vec!["http://0.example.com/"]);
}

#[test]
fn a_shared_predecessor_serves_several_chains() {
    let shared = Arc::new(at("http://0.example.com/", 301));
    let mut left = at("http://left.example.com/", 200);
    left.set_previous(shared.clone());
    let mut right = at("http://right.example.com/", 200);
    right.set_previous(shared.clone());
    assert_eq!(left.history().to_vec().len(), 1);
    assert_eq!(right.history().next().unwrap().get_url(), "http://0.example.com/");
    assert_eq!(shared.get_url(), "http://0.example.com/");
}

#[test]
fn a_response_to_a_request_knows_its_url_and_its_predecessor() {
    let first = Arc::new(at("http://first.example.com/", 302));
    let unit = Unit::new("GET", "http://second.example.com/path?q=1".parse().unwrap(), None, None);
    let response = Response::do_from_request(
        unit,
        Stream::from_vec(b"HTTP/1.1 200 OK\r\nContent-Length: 2\r\n\r\nok".to_vec()),
        Some(first),
    )
    .unwrap();
    assert_eq!(response.get_url(), "http://second.example.com/path?q=1");
    assert_eq!(response.history().next().unwrap().get_url(), "http://first.example.com/");
    assert_eq!(response.into_string().unwrap(), "ok");

    let unit = Unit::new("GET", "http://third.example.com/".parse().unwrap(), None, Some(9));
    let alone = Response::do_from_request_at(
        unit,
        Stream::from_vec(b"HTTP/1.1 200 OK\r\n\r\n".to_vec()),
        None,
        8,
    )
    .unwrap();
    let unit = Unit::new("GET", "http://third.example.com/".parse().unwrap(), None, Some(9));
    let late = Response::do_from_request_at(
        unit,
        Stream::from_vec(b"HTTP/1.1 200 OK\r\n\r\n".to_vec()),
        None,
        9,
    );
    assert!(late.is_err());
    assert!(alone.history().next().is_none());
    assert_eq!(alone.get_url(), "http://third.example.com/");
}

#[test]
fn a_response_that_fails_to_parse_is_not_built() {
    let unit = Unit::new("GET", "http://example.com/".parse().unwrap(), None, None);
    let failed = Response::do_from_request(
        unit,
        Stream::from_vec(b"HTTP/1.1 2OO OK\r\n\r\n".to_vec()),
        None,
    );
    assert!(failed.is_err());
}

#[test]
fn a_response_gives_the_text_of_its_url() {
    let mut response = Response::new(200, "OK", "").unwrap();
    assert_eq!(response.get_url(), "");
    response.set_url("HTTP://EXAMPLE.com".parse().unwrap());
    assert_eq!(response.get_url(), "http://example.com/");
    response.set_url("http://example.com/a%20b?q=1#frag".parse().unwrap());
    assert_eq!(response.get_url(), "http://example.com/a%20b?q=1#frag");
}
