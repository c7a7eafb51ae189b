use reqwest::header::{HeaderMap, HeaderName, HeaderValue};
use std::str::FromStr;
use webscout::http::HttpResponse;

fn resp_with_content_type(value: &[u8]) -> HttpResponse {
    let mut headers = HeaderMap::new();
    headers.insert(
        HeaderName::from_str("content-type").unwrap(),
        HeaderValue::from_bytes(value).unwrap(),
    );
    HttpResponse { status: 200, final_url: String::new(), headers, body: b"<p>hi</p>".to_vec() }
}

#[test]
fn content_type_and_html_detection() {
    let resp = resp_with_content_type(b"text/html; charset=utf-8");
    assert_eq!(resp.content_type(), Some("text/html; charset=utf-8".to_string()));
    assert!(resp.is_html());
    let resp = resp_with_content_type(b"application/json");
    assert_eq!(resp.content_type(), Some("application/json".to_string()));
    assert!(!resp.is_html());
}

#[test]
fn content_type_missing_or_unreadable() {
    let resp = HttpResponse { status: 200, final_url: String::new(), headers: HeaderMap::new(), body: vec![] };
    assert_eq!(resp.content_type(), None);
    assert!(!resp.is_html());
    let resp = resp_with_content_type(&[b't', b'e', b'x', b't', 0xe9]);
    assert_eq!(resp.content_type(), None);
    assert!(!resp.is_html());
}

#[test]
fn text_decodes_body() {
    let resp = resp_with_content_type(b"text/html");
    assert_eq!(resp.text(), "<p>hi</p>");
}
