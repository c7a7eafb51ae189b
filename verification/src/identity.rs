//! Browser identities: a coherent user agent, client hints, accepted
//! content and the order in which the browser sends its headers.
use vstd::prelude::*;
use crate::random::{choose_from, random_u8, thread_rng};
use crate::text::{lemma_absent_first_char, seq_contains};

verus! {

pub const CHROME_WINDOWS_UA: &'static str = "Mozilla/5.0 (Windows NT 10.0; Win64; x64) AppleWebKit/537.36 (KHTML, like Gecko) Chrome/120.0.0.0 Safari/537.36";
pub const CHROME_MAC_UA: &'static str = "Mozilla/5.0 (Macintosh; Intel Mac OS X 10_15_7) AppleWebKit/537.36 (KHTML, like Gecko) Chrome/120.0.0.0 Safari/537.36";
pub const CHROME_SEC_CH_UA: &'static str = "\"Not_A Brand\";v=\"8\", \"Chromium\";v=\"120\", \"Google Chrome\";v=\"120\"";
pub const FIREFOX_WINDOWS_UA: &'static str = "Mozilla/5.0 (Windows NT 10.0; Win64; x64; rv:121.0) Gecko/20100101 Firefox/121.0";
pub const FIREFOX_MAC_UA: &'static str = "Mozilla/5.0 (Macintosh; Intel Mac OS X 10.15; rv:121.0) Gecko/20100101 Firefox/121.0";
pub const SAFARI_MAC_UA: &'static str = "Mozilla/5.0 (Macintosh; Intel Mac OS X 10_15_7) AppleWebKit/605.1.15 (KHTML, like Gecko) Version/17.2 Safari/605.1.15";

/// A browser profile: everything the client sends that identifies it.
#[derive(Debug, Clone)]
pub struct Identity {
    pub user_agent: String,
    pub accept_language: String,
    pub accept: String,
    pub viewport: String,
    /// Header names, in the order the browser sends them.
    pub header_order: Vec<String>,
    pub sec_ch_ua: Option<String>,
    pub sec_ch_ua_mobile: Option<String>,
    pub sec_ch_ua_platform: Option<String>,
    pub platform: String,
}

pub open spec fn opt_view(o: Option<String>) -> Option<Seq<char>> {
    match o {
        Some(s) => Some(s@),
        None => None,
    }
}

pub open spec fn names_view(v: Seq<String>) -> Seq<Seq<char>> {
    v.map_values(|s: String| s@)
}

pub open spec fn chrome_header_order() -> Seq<Seq<char>> {
    seq!["host"@, "connection"@, "sec-ch-ua"@, "sec-ch-ua-mobile"@, "sec-ch-ua-platform"@,
        "upgrade-insecure-requests"@, "user-agent"@, "accept"@, "sec-fetch-site"@, "sec-fetch-mode"@,
        "sec-fetch-user"@, "sec-fetch-dest"@, "accept-encoding"@, "accept-language"@]
}

pub open spec fn firefox_header_order() -> Seq<Seq<char>> {
    seq!["host"@, "user-agent"@, "accept"@, "accept-language"@, "accept-encoding"@, "connection"@,
        "upgrade-insecure-requests"@, "sec-fetch-dest"@, "sec-fetch-mode"@, "sec-fetch-site"@,
        "sec-fetch-user"@]
}

pub open spec fn safari_header_order() -> Seq<Seq<char>> {
    seq!["host"@, "accept"@, "user-agent"@, "accept-language"@, "accept-encoding"@, "connection"@]
}

/// `id` is the Chrome profile for the given user agent, client-hint brand
/// list and platform.
pub open spec fn is_chrome_identity(id: Identity, ua: Seq<char>, sec_ch: Seq<char>, platform: Seq<char>) -> bool {
    &&& id.user_agent@ == ua
    &&& id.accept_language@ == "en-US,en;q=0.9"@
    &&& id.accept@ == "text/html,application/xhtml+xml,application/xml;q=0.9,image/avif,image/webp,image/apng,*/*;q=0.8"@
    &&& id.viewport@ == "1920x1080"@
    &&& names_view(id.header_order@) == chrome_header_order()
    &&& opt_view(id.sec_ch_ua) == Some(sec_ch)
    &&& opt_view(id.sec_ch_ua_mobile) == Some("?0"@)
    &&& opt_view(id.sec_ch_ua_platform) == Some("\""@ + platform + "\""@)
    &&& id.platform@ == platform
}

/// `id` is the Firefox profile for the given user agent and platform.
pub open spec fn is_firefox_identity(id: Identity, ua: Seq<char>, platform: Seq<char>) -> bool {
    &&& id.user_agent@ == ua
    &&& id.accept_language@ == "en-US,en;q=0.5"@
    &&& id.accept@ == "text/html,application/xhtml+xml,application/xml;q=0.9,image/avif,image/webp,*/*;q=0.8"@
    &&& id.viewport@ == "1920x1080"@
    &&& names_view(id.header_order@) == firefox_header_order()
    &&& id.sec_ch_ua is None
    &&& id.sec_ch_ua_mobile is None
    &&& id.sec_ch_ua_platform is None
    &&& id.platform@ == platform
}

/// `id` is the Safari profile for the given user agent and platform.
pub open spec fn is_safari_identity(id: Identity, ua: Seq<char>, platform: Seq<char>) -> bool {
    &&& id.user_agent@ == ua
    &&& id.accept_language@ == "en-US,en;q=0.9"@
    &&& id.accept@ == "text/html,application/xhtml+xml,application/xml;q=0.9,*/*;q=0.8"@
    &&& id.viewport@ == "1920x1080"@
    &&& names_view(id.header_order@) == safari_header_order()
    &&& id.sec_ch_ua is None
    &&& id.sec_ch_ua_mobile is None
    &&& id.sec_ch_ua_platform is None
    &&& id.platform@ == platform
}

/// One of the five profiles that the generator offers.
pub open spec fn is_known_identity(id: Identity) -> bool {
    ||| is_chrome_identity(id, CHROME_WINDOWS_UA@, CHROME_SEC_CH_UA@, "Windows"@)
    ||| is_chrome_identity(id, CHROME_MAC_UA@, CHROME_SEC_CH_UA@, "macOS"@)
    ||| is_firefox_identity(id, FIREFOX_WINDOWS_UA@, "Windows"@)
    ||| is_firefox_identity(id, FIREFOX_MAC_UA@, "macOS"@)
    ||| is_safari_identity(id, SAFARI_MAC_UA@, "macOS"@)
}

/// Client hints are sent exactly by identities that claim to be Chrome.
pub open spec fn is_coherent(id: Identity) -> bool {
    id.sec_ch_ua is Some <==> seq_contains(id.user_agent@, "Chrome"@)
}

fn strings_of(names: &[&str]) -> (r: Vec<String>)
    ensures
        r@.len() == names@.len(),
        forall|i: int| 0 <= i < names@.len() ==> #[trigger] r@[i]@ == names@[i]@,
{
    let mut r: Vec<String> = Vec::new();
    let mut i: usize = 0;
    while i < names.len()
        invariant
            i <= names@.len(),
            r@.len() == i,
            forall|k: int| 0 <= k < i ==> #[trigger] r@[k]@ == names@[k]@,
        decreases names@.len() - i,
    {
        r.push(names[i].to_string());
        i = i + 1;
    }
    r
}

impl Identity {
    /// The Chrome profile for a user agent, its brand list and platform.
    pub fn chrome(ua: &str, sec_ch: &str, platform: &str) -> (r: Identity)
        ensures
            is_chrome_identity(r, ua@, sec_ch@, platform@),
    {
        let order = strings_of(&["host", "connection", "sec-ch-ua", "sec-ch-ua-mobile", "sec-ch-ua-platform",
            "upgrade-insecure-requests", "user-agent", "accept", "sec-fetch-site", "sec-fetch-mode",
            "sec-fetch-user", "sec-fetch-dest", "accept-encoding", "accept-language"]);
        assert(names_view(order@) =~= chrome_header_order());
        let mut quoted = "\"".to_string();
        quoted.append(platform);
        quoted.append("\"");
        Identity {
            user_agent: ua.to_string(),
            accept_language: "en-US,en;q=0.9".to_string(),
            accept: "text/html,application/xhtml+xml,application/xml;q=0.9,image/avif,image/webp,image/apng,*/*;q=0.8".to_string(),
            viewport: "1920x1080".to_string(),
            header_order: order,
            sec_ch_ua: Some(sec_ch.to_string()),
            sec_ch_ua_mobile: Some("?0".to_string()),
            sec_ch_ua_platform: Some(quoted),
            platform: platform.to_string(),
        }
    }

    /// The Firefox profile for a user agent and platform.
    pub fn firefox(ua: &str, platform: &str) -> (r: Identity)
        ensures
            is_firefox_identity(r, ua@, platform@),
    {
        let order = strings_of(&["host", "user-agent", "accept", "accept-language", "accept-encoding", "connection",
            "upgrade-insecure-requests", "sec-fetch-dest", "sec-fetch-mode", "sec-fetch-site",
            "sec-fetch-user"]);
        assert(names_view(order@) =~= firefox_header_order());
        Identity {
            user_agent: ua.to_string(),
            accept_language: "en-US,en;q=0.5".to_string(),
            accept: "text/html,application/xhtml+xml,application/xml;q=0.9,image/avif,image/webp,*/*;q=0.8".to_string(),
            viewport: "1920x1080".to_string(),
            header_order: order,
            sec_ch_ua: None,
            sec_ch_ua_mobile: None,
            sec_ch_ua_platform: None,
            platform: platform.to_string(),
        }
    }

    /// The Safari profile for a user agent and platform.
    pub fn safari(ua: &str, platform: &str) -> (r: Identity)
        ensures
            is_safari_identity(r, ua@, platform@),
    {
        let order = strings_of(&["host", "accept", "user-agent", "accept-language", "accept-encoding", "connection"]);
        assert(names_view(order@) =~= safari_header_order());
        Identity {
            user_agent: ua.to_string(),
            accept_language: "en-US,en;q=0.9".to_string(),
            accept: "text/html,application/xhtml+xml,application/xml;q=0.9,*/*;q=0.8".to_string(),
            viewport: "1920x1080".to_string(),
            header_order: order,
            sec_ch_ua: None,
            sec_ch_ua_mobile: None,
            sec_ch_ua_platform: None,
            platform: platform.to_string(),
        }
    }

    /// A random identity: Chrome, Firefox or Safari by a random byte taken
    /// modulo three, then one of that browser's user agents at random.
    pub fn generate() -> (r: Identity)
        ensures
            exists|draw: u8, pick: usize| pick < profile_count(draw) && is_identity_for(r, draw, pick),
            is_known_identity(r),
            is_coherent(r),
    {
        let mut rng = thread_rng();
        let draw: u8 = random_u8();
        let picks: Vec<usize> = if draw % 3 == 2 { vec![0] } else { vec![0, 1] };
        let pick: usize = *choose_from(picks.as_slice(), &mut rng).unwrap();
        assert(pick < profile_count(draw));
        identity_for(draw, pick)
    }
}

/// How many user agents the browser that `draw` selects offers.
pub open spec fn profile_count(draw: u8) -> int {
    if draw % 3 == 2 { 1 } else { 2 }
}

/// `id` is the profile that a draw and a pick select: the draw modulo three
/// names the browser (Chrome, Firefox, then Safari), the pick one of its
/// user agents (Windows first, then macOS).
pub open spec fn is_identity_for(id: Identity, draw: u8, pick: usize) -> bool {
    if draw % 3 == 0 {
        if pick == 0 {
            is_chrome_identity(id, CHROME_WINDOWS_UA@, CHROME_SEC_CH_UA@, "Windows"@)
        } else {
            is_chrome_identity(id, CHROME_MAC_UA@, CHROME_SEC_CH_UA@, "macOS"@)
        }
    } else if draw % 3 == 1 {
        if pick == 0 {
            is_firefox_identity(id, FIREFOX_WINDOWS_UA@, "Windows"@)
        } else {
            is_firefox_identity(id, FIREFOX_MAC_UA@, "macOS"@)
        }
    } else {
        is_safari_identity(id, SAFARI_MAC_UA@, "macOS"@)
    }
}

/// The identity that a random byte `draw` and a random index `pick` select.
pub fn identity_for(draw: u8, pick: usize) -> (r: Identity)
    requires
        pick < profile_count(draw),
    ensures
        is_identity_for(r, draw, pick),
        is_known_identity(r),
        is_coherent(r),
{
    let chrome_uas = vec![
        (CHROME_WINDOWS_UA, CHROME_SEC_CH_UA, "Windows"),
        (CHROME_MAC_UA, CHROME_SEC_CH_UA, "macOS"),
    ];
    let firefox_uas = vec![(FIREFOX_WINDOWS_UA, "Windows"), (FIREFOX_MAC_UA, "macOS")];
    let safari_uas = vec![(SAFARI_MAC_UA, "macOS")];
    let browser_type: u8 = draw % 3;
    let r = if browser_type == 0 {
        let (ua, sec_ch, platform) = chrome_uas[pick];
        Identity::chrome(ua, sec_ch, platform)
    } else if browser_type == 1 {
        let (ua, platform) = firefox_uas[pick];
        Identity::firefox(ua, platform)
    } else {
        let (ua, platform) = safari_uas[pick];
        Identity::safari(ua, platform)
    };
    proof {
        lemma_known_identity_coherent(r);
    }
    r
}

/// Every identity the generator offers is coherent: it sends client hints
/// exactly when its user agent names Chrome.
pub proof fn lemma_known_identity_coherent(id: Identity)
    requires
        is_known_identity(id),
    ensures
        is_coherent(id),
{
    reveal_strlit("Chrome");
    reveal_strlit("Mozilla/5.0 (Windows NT 10.0; Win64; x64) AppleWebKit/537.36 (KHTML, like Gecko) Chrome/120.0.0.0 Safari/537.36");
    reveal_strlit("Mozilla/5.0 (Macintosh; Intel Mac OS X 10_15_7) AppleWebKit/537.36 (KHTML, like Gecko) Chrome/120.0.0.0 Safari/537.36");
    reveal_strlit("Mozilla/5.0 (Windows NT 10.0; Win64; x64; rv:121.0) Gecko/20100101 Firefox/121.0");
    reveal_strlit("Mozilla/5.0 (Macintosh; Intel Mac OS X 10.15; rv:121.0) Gecko/20100101 Firefox/121.0");
    reveal_strlit("Mozilla/5.0 (Macintosh; Intel Mac OS X 10_15_7) AppleWebKit/605.1.15 (KHTML, like Gecko) Version/17.2 Safari/605.1.15");
    let needle = "Chrome"@;
    if is_chrome_identity(id, CHROME_WINDOWS_UA@, CHROME_SEC_CH_UA@, "Windows"@) {
        assert(CHROME_WINDOWS_UA@.subrange(81, 81int + needle.len()) =~= needle);
    } else if is_chrome_identity(id, CHROME_MAC_UA@, CHROME_SEC_CH_UA@, "macOS"@) {
        assert(CHROME_MAC_UA@.subrange(87, 87int + needle.len()) =~= needle);
    } else {
        let ua = id.user_agent@;
        assert forall|i: int| 0 <= i < ua.len() implies ua[i] != needle[0] by {}
        lemma_absent_first_char(ua, needle);
    }
}

} // verus!
