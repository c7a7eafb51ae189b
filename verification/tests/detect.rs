use reqwest::header::{HeaderMap, HeaderName, HeaderValue};
use std::str::FromStr;
use webscout::http::detect::{classify, classify_lowered, retry_after, ChallengeHint, PageState};
use webscout::http::HttpResponse;

fn make_resp(status: u16, headers: HeaderMap, body: &str) -> HttpResponse {
    HttpResponse {
        status,
        final_url: "https://example.com".into(),
        headers,
        body: body.as_bytes().to_vec(),
    }
}

fn with_header(name: &str, value: &str) -> HeaderMap {
    let mut headers = HeaderMap::new();
    headers.insert(
        HeaderName::from_str(name).unwrap(),
        HeaderValue::from_str(value).unwrap(),
    );
    headers
}

#[test]
fn test_classify_normal() {
    let resp = make_resp(200, HeaderMap::new(), "Hello World");
    assert_eq!(classify(&resp), PageState::Normal);
}

#[test]
fn test_classify_rate_limit_default() {
    let resp = make_resp(429, HeaderMap::new(), "Too Many Requests");
    assert_eq!(classify(&resp), PageState::RateLimit(60));
}

#[test]
fn test_classify_rate_limit_with_retry_after() {
    let headers = with_header("retry-after", "120");
    let resp = make_resp(429, headers, "Too Many Requests");
    assert_eq!(classify(&resp), PageState::RateLimit(120));
}

#[test]
fn test_classify_cloudflare_via_header() {
    let headers = with_header("cf-ray", "abc123-LAX");
    let resp = make_resp(403, headers, "");
    assert_eq!(classify(&resp), PageState::Challenge(ChallengeHint::Cloudflare));
}

#[test]
fn test_classify_blocked() {
    let resp = make_resp(403, HeaderMap::new(), "Forbidden");
    assert_eq!(classify(&resp), PageState::Blocked);
}

#[test]
fn test_classify_hcaptcha() {
    let resp = make_resp(200, HeaderMap::new(), "<html>please complete hcaptcha</html>");
    assert_eq!(classify(&resp), PageState::Challenge(ChallengeHint::HCaptcha));
}

#[test]
fn test_classify_recaptcha() {
    let resp = make_resp(200, HeaderMap::new(), "<script src='https://www.google.com/recaptcha/api.js'></script>");
    assert_eq!(classify(&resp), PageState::Challenge(ChallengeHint::Recaptcha));
}

#[test]
fn test_classify_datadome_header() {
    let headers = with_header("x-datadome-cid", "some-cid-value");
    let resp = make_resp(403, headers, "");
    assert_eq!(classify(&resp), PageState::Challenge(ChallengeHint::DataDome));
}

#[test]
fn test_classify_datadome_body() {
    let resp = make_resp(403, HeaderMap::new(), "<html>Protected by DataDome</html>");
    assert_eq!(classify(&resp), PageState::Challenge(ChallengeHint::DataDome));
}

#[test]
fn test_classify_perimeterx_header() {
    let headers = with_header("x-px-enforcer-telemetry", "1");
    let resp = make_resp(403, headers, "");
    assert_eq!(classify(&resp), PageState::Challenge(ChallengeHint::PerimeterX));
}

#[test]
fn test_classify_perimeterx_body() {
    let resp = make_resp(403, HeaderMap::new(), "<div id='px-captcha'>complete the challenge</div>");
    assert_eq!(classify(&resp), PageState::Challenge(ChallengeHint::PerimeterX));
}

#[test]
fn test_classify_imperva_header() {
    let headers = with_header("x-iinfo", "12-345678901-0");
    let resp = make_resp(403, headers, "");
    assert_eq!(classify(&resp), PageState::Challenge(ChallengeHint::Imperva));
}

#[test]
fn test_classify_imperva_body() {
    let resp = make_resp(403, HeaderMap::new(), "<!-- Incapsula Resource ID -->");
    assert_eq!(classify(&resp), PageState::Challenge(ChallengeHint::Imperva));
}

#[test]
fn test_classify_js_required() {
    let resp = make_resp(200, HeaderMap::new(), "Checking your browser before accessing...");
    assert_eq!(classify(&resp), PageState::JsRequired);
}

#[test]
fn rate_limit_wins_over_body_and_headers() {
    let headers = with_header("x-datadome-cid", "cid");
    let resp = make_resp(429, headers, "hcaptcha datadome");
    assert_eq!(classify(&resp), PageState::RateLimit(60));
}

#[test]
fn datadome_header_wins_over_body() {
    let headers = with_header("x-datadome-cid", "cid");
    let resp = make_resp(200, headers, "recaptcha");
    assert_eq!(classify(&resp), PageState::Challenge(ChallengeHint::DataDome));
}

#[test]
fn cloudflare_header_needs_403_or_503() {
    let resp = make_resp(503, with_header("cf-ray", "x"), "");
    assert_eq!(classify(&resp), PageState::Challenge(ChallengeHint::Cloudflare));
    let resp = make_resp(200, with_header("cf-ray", "x"), "");
    assert_eq!(classify(&resp), PageState::Normal);
}

#[test]
fn retry_after_that_is_not_a_number_gives_default() {
    assert_eq!(retry_after(&with_header("retry-after", "soon")), 60);
    assert_eq!(retry_after(&with_header("retry-after", "+30")), 30);
    assert_eq!(retry_after(&with_header("retry-after", " 30")), 60);
    assert_eq!(retry_after(&with_header("retry-after", "99999999999999999999")), 60);
    assert_eq!(retry_after(&HeaderMap::new()), 60);
}

#[test]
fn retry_after_with_non_ascii_value_gives_default() {
    let mut headers = HeaderMap::new();
    headers.insert(
        HeaderName::from_str("retry-after").unwrap(),
        HeaderValue::from_bytes(&[0x31, 0xe9]).unwrap(),
    );
    assert_eq!(retry_after(&headers), 60);
}

#[test]
fn body_markers_are_matched_case_insensitively() {
    let resp = make_resp(200, HeaderMap::new(), "Please ENABLE JavaScript");
    assert_eq!(classify(&resp), PageState::JsRequired);
    let resp = make_resp(200, HeaderMap::new(), "CF-Browser-Verification");
    assert_eq!(classify(&resp), PageState::JsRequired);
}

#[test]
fn classify_lowered_reads_the_given_text() {
    let resp = make_resp(200, HeaderMap::new(), "hcaptcha");
    assert_eq!(classify_lowered(&resp, "nothing here"), PageState::Normal);
    assert_eq!(classify_lowered(&resp, "_incapsula_resource"), PageState::Challenge(ChallengeHint::Imperva));
}

#[test]
fn invalid_utf8_body_is_decoded_lossily() {
    let mut resp = make_resp(200, HeaderMap::new(), "");
    resp.body = vec![0xff, b'h', b'c', b'a', b'p', b't', b'c', b'h', b'a'];
    assert_eq!(resp.text(), "\u{fffd}hcaptcha");
    assert_eq!(classify(&resp), PageState::Challenge(ChallengeHint::HCaptcha));
}

#[test]
fn response_method_matches_free_function() {
    let resp = make_resp(403, HeaderMap::new(), "Forbidden");
    assert_eq!(resp.classify(), classify(&resp));
}

#[test]
fn perimeterx_cookie_alone_is_a_challenge() {
    let headers = with_header("set-cookie", "_px3=abc; Path=/");
    let resp = make_resp(200, headers, "Hello World");
    assert_eq!(classify(&resp), PageState::Challenge(ChallengeHint::PerimeterX));
}

#[test]
fn perimeterx_cookie_among_several_set_cookie_values() {
    let mut headers = HeaderMap::new();
    headers.append(
        HeaderName::from_str("set-cookie").unwrap(),
        HeaderValue::from_str("session=1; Path=/").unwrap(),
    );
    headers.append(
        HeaderName::from_str("set-cookie").unwrap(),
        HeaderValue::from_str(" _pxvid=xyz").unwrap(),
    );
    let resp = make_resp(200, headers, "Hello World");
    assert_eq!(classify(&resp), PageState::Challenge(ChallengeHint::PerimeterX));
}

#[test]
fn px_in_a_cookie_value_is_not_a_challenge() {
    let headers = with_header("set-cookie", "a=_px3; Path=/");
    let resp = make_resp(200, headers, "Hello World");
    assert_eq!(classify(&resp), PageState::Normal);
}

#[test]
fn upper_casing_an_ascii_body_keeps_the_state() {
    let bodies = ["<html>DataDome</html>", "px-captcha", "Incapsula incident", "hCaptcha", "ReCaptcha", "Checking your browser", "plain page"];
    for body in bodies {
        for status in [200u16, 403, 503] {
            let lower = make_resp(status, HeaderMap::new(), body);
            let upper = make_resp(status, HeaderMap::new(), &body.to_ascii_uppercase());
            assert_eq!(classify(&lower), classify(&upper));
        }
    }
}

#[test]
fn upper_casing_ascii_letters_of_any_body_keeps_the_state() {
    let bodies: [&[u8]; 4] = [
        "Ünïcode page — please complete hcaptcha".as_bytes(),
        b"\xff\xfe checking your browser \xc3",
        "Σίγμα datadome".as_bytes(),
        "nothing to see ∑".as_bytes(),
    ];
    for body in bodies {
        let mut lower = make_resp(200, HeaderMap::new(), "");
        lower.body = body.to_vec();
        let mut upper = make_resp(200, HeaderMap::new(), "");
        upper.body = body.to_ascii_uppercase();
        assert_eq!(classify(&lower), classify(&upper));
    }
}
