use http::headers::HeaderMap;
use http::response::{decimal_string, HttpResponse};

fn plain_text() -> HeaderMap {
    let mut h = HeaderMap::new();
    h.insert("Content-Type".to_string(), "text/plain".to_string());
    h
}

#[test]
fn test_response_struct_creation_200() {
    let response_actual =
        HttpResponse::new("200", None, Some("Item was shipped on 21st Dec 2020".into()));
    let response_expected = HttpResponse {
        version: "HTTP/1.1".to_string(),
        status_code: "200".to_string(),
        status_text: "OK".to_string(),
        headers: Some(plain_text()),
        body: Some("Item was shipped on 21st Dec 2020".into()),
    };
    assert_eq!(response_actual, response_expected);
}

#[test]
fn test_response_struct_creation_404() {
    let response_actual =
        HttpResponse::new("404", None, Some("Item was shipped on 21st Dec 2020".into()));
    let response_expected = HttpResponse {
        version: "HTTP/1.1".to_string(),
        status_code: "404".to_string(),
        status_text: "Not Found".to_string(),
        headers: Some(plain_text()),
        body: Some("Item was shipped on 21st Dec 2020".into()),
    };
    assert_eq!(response_actual, response_expected);
}

#[test]
fn test_http_response_creation() {
    let mut h = HeaderMap::new();
    h.insert("Content-Type".to_string(), "text/html".to_string());
    let response_expected = HttpResponse {
        version: "HTTP/1.1".to_string(),
        status_code: "404".to_string(),
        status_text: "Not Found".to_string(),
        headers: Some(h),
        body: Some("Item was shipped on 21st Dec 2020".into()),
    };
    let http_string: String = response_expected.to_wire();
    let response_actual = "HTTP/1.1 404 Not Found\r\nContent-Type:text/html\r\nContent-Length: 33\r\n\r\nItem was shipped on 21st Dec 2020";
    assert_eq!(http_string, response_actual);
}

#[test]
fn not_found_scenario_wire() {
    let r = HttpResponse::not_found(None, Some("missing".into()));
    assert_eq!(
        r.to_wire(),
        "HTTP/1.1 404 Not Found\r\nContent-Type:text/plain\r\nContent-Length: 7\r\n\r\nmissing"
    );
}

#[test]
fn content_length_counts_bytes() {
    let r = HttpResponse::ok(None, Some("héllo €".into()));
    assert_eq!(
        r.to_wire(),
        "HTTP/1.1 200 OK\r\nContent-Type:text/plain\r\nContent-Length: 10\r\n\r\nhéllo €"
    );
    let r = HttpResponse::ok(None, None);
    assert_eq!(r.to_wire(), "HTTP/1.1 200 OK\r\nContent-Type:text/plain\r\nContent-Length: 0\r\n\r\n");
    let r = HttpResponse::no_content(Some(HeaderMap::new()), Some(String::new()));
    assert_eq!(r.to_wire(), "HTTP/1.1 204 No Content\r\nContent-Length: 0\r\n\r\n");
}

#[test]
fn content_length_round_trips_through_wire() {
    for body in ["", "a", "ümlaut", "0123456789", "日本語テキスト"] {
        let w = HttpResponse::created(None, Some(body.to_string())).to_wire();
        let start = w.find("Content-Length: ").unwrap() + "Content-Length: ".len();
        let end = start + w[start..].find("\r\n").unwrap();
        let n: usize = w[start..end].parse().unwrap();
        assert_eq!(n, body.len());
        assert!(w.ends_with(&format!("\r\n\r\n{}", body)));
    }
}

#[test]
fn decimal_digits() {
    assert_eq!(decimal_string(0), "0");
    assert_eq!(decimal_string(7), "7");
    assert_eq!(decimal_string(10), "10");
    assert_eq!(decimal_string(33), "33");
    assert_eq!(decimal_string(1234567), "1234567");
}

#[test]
fn legacy_constructor_phrases() {
    assert_eq!(HttpResponse::new("400", None, None).status_text, "Bad Request");
    assert_eq!(HttpResponse::new("500", None, None).status_text, "Internal Server Error");
    let r = HttpResponse::new("201", None, None);
    assert_eq!(r.status_code, "201");
    assert_eq!(r.status_text, "");
}

#[test]
fn given_headers_used_verbatim() {
    let mut h = HeaderMap::new();
    h.insert("X-A".to_string(), "1".to_string());
    h.insert("X-B".to_string(), "2".to_string());
    let r = HttpResponse::bad_request(Some(h.clone()), Some("no".into()));
    assert_eq!(r.headers, Some(h));
    assert_eq!(r.to_wire(), "HTTP/1.1 400 Bad Request\r\nX-A:1\r\nX-B:2\r\nContent-Length: 2\r\n\r\nno");
}

#[test]
fn default_response() {
    let r = HttpResponse::default();
    assert_eq!(r.version(), "HTTP/1.1");
    assert_eq!(r.status_code(), "200");
    assert_eq!(r.status_text(), "OK");
    assert_eq!(r.headers, None);
    assert_eq!(r.body(), "");
    assert_eq!(r.headers(), "");
}

#[test]
fn status_catalog() {
    type Ctor = fn(Option<HeaderMap>, Option<String>) -> HttpResponse;
    let cases: Vec<(Ctor, &str, &str)> = vec![
        (HttpResponse::_continue, "100", "Continue"),
        (HttpResponse::switching_protocol, "101", "Switching Protocol"),
        (HttpResponse::early_hints, "103", "Early Hints"),
        (HttpResponse::ok, "200", "OK"),
        (HttpResponse::created, "201", "Created"),
        (HttpResponse::accepted, "202", "Accepted"),
        (HttpResponse::non_authoritative_information, "203", "Non-Authoritative Information"),
        (HttpResponse::no_content, "204", "No Content"),
        (HttpResponse::reset_content, "205", "Reset Content"),
        (HttpResponse::partial_content, "206", "Partial Content"),
        (HttpResponse::found, "302", "Found"),
        (HttpResponse::see_other, "303", "See Other"),
        (HttpResponse::not_modified, "304", "Not Modified"),
        (HttpResponse::temporary_redirect, "307", "Temporary Redirect"),
        (HttpResponse::permanent_redirect, "308", "Permanent Redirect"),
        (HttpResponse::bad_request, "400", "Bad Request"),
        (HttpResponse::unauthorized, "401", "Unauthorized"),
        (HttpResponse::forbidden, "403", "Forbidden"),
        (HttpResponse::not_found, "404", "Not Found"),
        (HttpResponse::method_not_allowed, "405", "Method Not Allowed"),
        (HttpResponse::request_timeout, "408", "Request Timeout"),
        (HttpResponse::gone, "410", "Gone"),
        (HttpResponse::im_a_teapot, "418", "I'm a teapot"),
        (HttpResponse::internal_server_error, "500", "Internal Server Error"),
    ];
    for (ctor, code, text) in cases {
        let r = ctor(None, Some("b".into()));
        assert_eq!(r.version, "HTTP/1.1");
        assert_eq!(r.status_code, code);
        assert_eq!(r.status_text, text);
        assert_eq!(r.headers, Some(plain_text()));
        assert_eq!(r.body, Some("b".to_string()));
    }
}
