use webscout::identity::{identity_for, Identity, CHROME_MAC_UA, CHROME_SEC_CH_UA, CHROME_WINDOWS_UA, FIREFOX_MAC_UA, FIREFOX_WINDOWS_UA, SAFARI_MAC_UA};

#[test]
fn test_identity_coherence() {
    let ident = Identity::generate();
    if ident.user_agent.contains("Chrome") {
        assert!(ident.sec_ch_ua.is_some());
    } else {
        assert!(ident.sec_ch_ua.is_none());
    }
}

#[test]
fn generated_identities_are_always_coherent() {
    for _ in 0..200 {
        let ident = Identity::generate();
        assert_eq!(ident.user_agent.contains("Chrome"), ident.sec_ch_ua.is_some());
        assert_eq!(ident.viewport, "1920x1080");
    }
}

#[test]
fn chrome_profile_fields() {
    let id = Identity::chrome(CHROME_MAC_UA, CHROME_SEC_CH_UA, "macOS");
    assert_eq!(id.user_agent, CHROME_MAC_UA);
    assert_eq!(id.sec_ch_ua.as_deref(), Some(CHROME_SEC_CH_UA));
    assert_eq!(id.sec_ch_ua_mobile.as_deref(), Some("?0"));
    assert_eq!(id.sec_ch_ua_platform.as_deref(), Some("\"macOS\""));
    assert_eq!(id.platform, "macOS");
    assert_eq!(id.accept_language, "en-US,en;q=0.9");
    assert_eq!(id.header_order.len(), 14);
    assert_eq!(id.header_order[0], "host");
    assert_eq!(id.header_order[13], "accept-language");
}

#[test]
fn firefox_and_safari_profiles_have_no_client_hints() {
    let f = Identity::firefox(FIREFOX_WINDOWS_UA, "Windows");
    assert!(f.sec_ch_ua.is_none() && f.sec_ch_ua_mobile.is_none() && f.sec_ch_ua_platform.is_none());
    assert_eq!(f.accept_language, "en-US,en;q=0.5");
    assert_eq!(f.header_order.len(), 11);
    let s = Identity::safari(SAFARI_MAC_UA, "macOS");
    assert!(s.sec_ch_ua.is_none());
    assert_eq!(s.header_order, vec!["host", "accept", "user-agent", "accept-language", "accept-encoding", "connection"]);
}

#[test]
fn draw_modulo_three_selects_the_browser() {
    let chrome = identity_for(0, 0);
    assert_eq!(chrome.user_agent, CHROME_WINDOWS_UA);
    assert_eq!(chrome.platform, "Windows");
    assert_eq!(chrome.sec_ch_ua.as_deref(), Some(CHROME_SEC_CH_UA));
    assert_eq!(chrome.sec_ch_ua_platform.as_deref(), Some("\"Windows\""));

    let chrome_mac = identity_for(3, 1);
    assert_eq!(chrome_mac.user_agent, CHROME_MAC_UA);
    assert_eq!(chrome_mac.platform, "macOS");

    let firefox = identity_for(1, 0);
    assert_eq!(firefox.user_agent, FIREFOX_WINDOWS_UA);
    assert_eq!(firefox.accept_language, "en-US,en;q=0.5");
    assert!(firefox.sec_ch_ua.is_none());

    let firefox_mac = identity_for(253, 1);
    assert_eq!(firefox_mac.user_agent, FIREFOX_MAC_UA);
    assert_eq!(firefox_mac.platform, "macOS");

    let safari = identity_for(254, 0);
    assert_eq!(safari.user_agent, SAFARI_MAC_UA);
    assert_eq!(safari.header_order.len(), 6);
    assert!(safari.sec_ch_ua.is_none());
}

#[test]
fn every_browser_is_generated() {
    let mut seen = [false; 3];
    for _ in 0..500 {
        let ident = Identity::generate();
        if ident.user_agent.contains("Chrome") {
            seen[0] = true;
        } else if ident.user_agent.contains("Firefox") {
            seen[1] = true;
        } else {
            seen[2] = true;
        }
    }
    assert_eq!(seen, [true, true, true]);
}
