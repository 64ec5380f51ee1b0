use http::headers::HeaderMap;
use http::request::{HttpRequest, Method, ParseError, Resource, Version};
use std::collections::HashMap;

fn header_pairs(h: &HeaderMap, keys: &[&str]) -> HashMap<String, String> {
    let mut m = HashMap::new();
    for k in keys {
        if let Some(v) = h.get(k) {
            m.insert(k.to_string(), v);
        }
    }
    m
}

#[test]
fn test_method_into() {
    let m: Method = "GET".into();
    assert_eq!(m, Method::Get);
}

#[test]
fn test_version_into() {
    let m: Version = "HTTP/1.1".into();
    let m2: Version = "HTTP/2.0".into();
    let m3: Version = "321dshaui".into();
    assert_eq!(m, Version::V1_1);
    assert_eq!(m2, Version::V2_0);
    assert_eq!(m3, Version::Uninitialized);
}

#[test]
fn test_read_http() {
    let s: String = String::from("GET /greeting HTTP/1.1\r\nHost: localhost:3000\r\nUser-Agent: curl/7.64.1\r\nAccept: */*\r\n\r\ntestbody123");
    let mut headers_expected = HashMap::new();
    headers_expected.insert("Host".to_string(), "localhost:3000".to_string());
    headers_expected.insert("Accept".to_string(), "*/*".to_string());
    headers_expected.insert("User-Agent".to_string(), "curl/7.64.1".to_string());
    let req: HttpRequest = HttpRequest::parse(&s).unwrap();
    assert_eq!(Method::Get, req.method);
    assert_eq!(Version::V1_1, req.version);
    assert_eq!(Resource::Path("/greeting".to_string()), req.resource);
    assert_eq!(req.headers.len(), 3);
    assert_eq!(headers_expected, header_pairs(&req.headers, &["Host", "Accept", "User-Agent"]));
    assert_eq!("testbody123", req.msg_body);
}

#[test]
fn greeting_scenario() {
    let s = "GET /greeting HTTP/1.1\r\nHost: localhost:3000\r\nAccept: */*\r\n\r\ntestbody123";
    let req = HttpRequest::parse(s).unwrap();
    assert_eq!(req.method, Method::Get);
    assert_eq!(req.version, Version::V1_1);
    assert_eq!(req.resource, Resource::Path("/greeting".to_string()));
    assert_eq!(req.headers.len(), 2);
    assert_eq!(req.headers.get("Host"), Some("localhost:3000".to_string()));
    assert_eq!(req.headers.get("Accept"), Some("*/*".to_string()));
    assert_eq!(req.msg_body, "testbody123");
}

#[test]
fn two_token_request_line_is_malformed() {
    assert_eq!(HttpRequest::parse("GET HTTP/1.1").unwrap_err(), ParseError::MalformedRequestLine);
    assert_eq!(
        HttpRequest::parse("GET HTTP/1.1\r\nHost: a\r\n\r\n").unwrap_err(),
        ParseError::MalformedRequestLine
    );
}

#[test]
fn all_methods_classified() {
    let cases = [
        ("GET", Method::Get),
        ("POST", Method::Post),
        ("HEAD", Method::Head),
        ("PUT", Method::Put),
        ("DELETE", Method::Delete),
        ("CONNECT", Method::Connect),
        ("OPTIONS", Method::Options),
        ("TRACE", Method::Trace),
        ("PATCH", Method::Patch),
        ("get", Method::Uninitialized),
        ("", Method::Uninitialized),
    ];
    for (tok, m) in cases {
        assert_eq!(Method::from_token(tok), m);
    }
}

#[test]
fn request_line_fields_follow_tokens() {
    let req = HttpRequest::parse("DELETE /items/7?x=1 HTTP/2.0\n\n").unwrap();
    assert_eq!(req.method, Method::Delete);
    assert_eq!(req.version, Version::V2_0);
    assert_eq!(req.resource, Resource::Path("/items/7?x=1".to_string()));
    let req = HttpRequest::parse("BREW /pot HTTP/9.9").unwrap();
    assert_eq!(req.method, Method::Uninitialized);
    assert_eq!(req.version, Version::Uninitialized);
    assert_eq!(req.resource, Resource::Path("/pot".to_string()));
}

#[test]
fn unique_headers_kept_in_order_left_trimmed() {
    let req = HttpRequest::parse("GET / HTTP/1.1\nA:  one \nB:\ttwo\nC:three:3\n").unwrap();
    assert_eq!(req.headers.len(), 3);
    assert_eq!(req.headers.get("A"), Some("one ".to_string()));
    assert_eq!(req.headers.get("B"), Some("two".to_string()));
    assert_eq!(req.headers.get("C"), Some("three:3".to_string()));
    assert_eq!(req.headers.get("D"), None);
}

#[test]
fn duplicate_header_last_value_wins() {
    let req = HttpRequest::parse("GET / HTTP/1.1\r\nX: 1\r\nY: 2\r\nX: 3\r\n\r\n").unwrap();
    assert_eq!(req.headers.len(), 2);
    assert_eq!(req.headers.get("X"), Some("3".to_string()));
    assert_eq!(req.headers.get("Y"), Some("2".to_string()));
}

#[test]
fn header_keys_are_case_sensitive() {
    let req = HttpRequest::parse("GET / HTTP/1.1\r\nhost: a\r\nHost: b\r\n").unwrap();
    assert_eq!(req.headers.len(), 2);
    assert_eq!(req.headers.get("host"), Some("a".to_string()));
    assert_eq!(req.headers.get("Host"), Some("b".to_string()));
}

#[test]
fn body_lines_joined_and_nuls_stripped() {
    let req = HttpRequest::parse("POST /f HTTP/1.1\r\n\r\nab\r\ncd: e\nHTTP x\0\0").unwrap();
    assert_eq!(req.method, Method::Post);
    assert_eq!(req.headers.len(), 0);
    assert_eq!(req.msg_body, "abcd: eHTTP x");
}

#[test]
fn empty_input_gives_defaults() {
    let req = HttpRequest::parse("").unwrap();
    assert_eq!(req.method, Method::Uninitialized);
    assert_eq!(req.version, Version::V1_1);
    assert_eq!(req.resource, Resource::Path(String::new()));
    assert_eq!(req.headers.len(), 0);
    assert_eq!(req.msg_body, "");
}

#[test]
fn lines_without_colon_are_ignored() {
    let req = HttpRequest::parse("GET /a HTTP/1.1\r\nnonsense\r\nK: v\r\n").unwrap();
    assert_eq!(req.headers.len(), 1);
    assert_eq!(req.headers.get("K"), Some("v".to_string()));
}

#[test]
fn header_map_insert_replaces_in_place() {
    let mut h = HeaderMap::new();
    h.insert("a".to_string(), "1".to_string());
    h.insert("b".to_string(), "2".to_string());
    h.insert("a".to_string(), "3".to_string());
    assert_eq!(h.len(), 2);
    assert_eq!(h.to_lines(), "a:3\r\nb:2\r\n");
}

#[test]
fn method_names_upper_case() {
    assert_eq!(Method::Get.name(), "GET");
    assert_eq!(Method::Patch.name(), "PATCH");
    assert_eq!(Method::Uninitialized.name(), "UNINITIALIZED");
    assert_eq!(Method::from_token(&Method::Connect.name()), Method::Connect);
}
