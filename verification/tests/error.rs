use webscout::error::ScoutError;

#[test]
fn error_messages() {
    assert_eq!(ScoutError::Tls("bad cert".into()).message(), "TLS error: bad cert");
    assert_eq!(ScoutError::Session("x".into()).message(), "Session error: x");
    assert_eq!(ScoutError::InvalidUrl("u".into()).message(), "Invalid URL: u");
    assert_eq!(ScoutError::Cookie("c".into()).message(), "Cookie store error: c");
    assert_eq!(ScoutError::Unsupported("".into()).message(), "Unsupported error: ");
}
