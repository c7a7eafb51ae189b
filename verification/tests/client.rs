use webscout::http::transport::{alpn_protocols, cipher_suites, HTTP2_CONNECTION_WINDOW, HTTP2_STREAM_WINDOW};
use webscout::http::client::{build_default_headers, cookie_header_text, identity_header};
use webscout::identity::{Identity, CHROME_SEC_CH_UA, CHROME_WINDOWS_UA, SAFARI_MAC_UA};

#[test]
fn chrome_default_headers() {
    let id = Identity::chrome(CHROME_WINDOWS_UA, CHROME_SEC_CH_UA, "Windows");
    let h = build_default_headers(&id);
    assert_eq!(h.len(), 13);
    assert!(h.get("host").is_none());
    assert_eq!(h.get("user-agent").unwrap(), CHROME_WINDOWS_UA);
    assert_eq!(h.get("sec-ch-ua-platform").unwrap(), "\"Windows\"");
    assert_eq!(h.get("connection").unwrap(), "keep-alive");
    assert_eq!(h.get("accept-encoding").unwrap(), "gzip, deflate, br");
    assert_eq!(h.get("sec-fetch-user").unwrap(), "?1");
}

#[test]
fn safari_default_headers() {
    let id = Identity::safari(SAFARI_MAC_UA, "macOS");
    let h = build_default_headers(&id);
    assert_eq!(h.len(), 5);
    assert!(h.get("sec-ch-ua").is_none());
    assert_eq!(h.get("accept-language").unwrap(), "en-US,en;q=0.9");
}

#[test]
fn unknown_and_invalid_headers_are_skipped() {
    let mut id = Identity::safari(SAFARI_MAC_UA, "macOS");
    id.header_order = vec!["x-custom".to_string(), "user-agent".to_string()];
    id.user_agent = "bad\nagent".to_string();
    let h = build_default_headers(&id);
    assert_eq!(h.len(), 0);
    id.user_agent = "good agent".to_string();
    let h = build_default_headers(&id);
    assert_eq!(h.len(), 1);
    assert_eq!(h.get("user-agent").unwrap(), "good agent");
}

#[test]
fn identity_header_values() {
    let id = Identity::safari(SAFARI_MAC_UA, "macOS");
    assert_eq!(identity_header(&id, "upgrade-insecure-requests"), Some("1".to_string()));
    assert_eq!(identity_header(&id, "sec-ch-ua"), None);
    assert_eq!(identity_header(&id, "host"), None);
    assert_eq!(identity_header(&id, "User-Agent"), None);
}

#[test]
fn cookie_header_joins_pairs() {
    assert_eq!(cookie_header_text(&vec![]), None);
    assert_eq!(cookie_header_text(&vec![("a".to_string(), "1".to_string())]), Some("a=1".to_string()));
    assert_eq!(
        cookie_header_text(&vec![("a".to_string(), "1".to_string()), ("b".to_string(), "".to_string())]),
        Some("a=1; b=".to_string())
    );
}

#[test]
fn default_headers_follow_identity_order() {
    let id = Identity::chrome(CHROME_WINDOWS_UA, CHROME_SEC_CH_UA, "Windows");
    let h = build_default_headers(&id);
    let names: Vec<&str> = h.keys().map(|k| k.as_str()).collect();
    let expected: Vec<&str> = id.header_order[1..].iter().map(|s| s.as_str()).collect();
    assert_eq!(names, expected);
}

#[test]
fn repeated_header_keeps_its_first_place() {
    let mut id = Identity::safari(SAFARI_MAC_UA, "macOS");
    id.header_order = vec!["accept".to_string(), "connection".to_string(), "accept".to_string()];
    let h = build_default_headers(&id);
    let names: Vec<&str> = h.keys().map(|k| k.as_str()).collect();
    assert_eq!(names, vec!["accept", "connection"]);
}

#[test]
fn transport_settings_follow_chrome() {
    assert_eq!(cipher_suites(), vec![0x1301, 0x1302, 0x1303, 0xc02b, 0xc02f, 0xc02c, 0xc030, 0xcca9, 0xcca8]);
    assert_eq!(alpn_protocols(), vec![b"h2".to_vec(), b"http/1.1".to_vec()]);
    assert_eq!(HTTP2_STREAM_WINDOW, 6_291_456);
    assert_eq!(HTTP2_CONNECTION_WINDOW, 15_663_105);
}
