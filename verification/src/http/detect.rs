//! Recognising what kind of page a response is: a normal page, a rate
//! limit, a block, a JavaScript check or one of the known bot challenges.
use vstd::prelude::*;
use reqwest::header::HeaderMap;
use crate::http::headers::{
    ascii_chars, ascii_lower, has_header, header_lookup, header_map_contains, header_map_contents,
    header_map_get, header_map_get_all, header_map_names, header_values, visible_ascii, visible_ascii_byte,
    entry_names,
};
use crate::http::response::{ascii_bytes, is_visible_ascii, lemma_ascii_decode, HttpResponse};
use crate::text::{
    chars_of, contains, decimal, is_digit, lemma_contains_inner, lemma_parse_decimal, parse_u64_in, parse_u64_spec, seq_contains, starts_with, starts_with_in,
};
use crate::unicode::{same_chars_up_to_ascii_case, same_up_to_ascii_case, to_lowercase, unicode_lowercase, utf8_lossy};

verus! {

/// The page state a response is in.
#[derive(Debug, PartialEq, Eq, Clone, Structural)]
pub enum PageState {
    Normal,
    JsRequired,
    Challenge(ChallengeHint),
    Blocked,
    /// Rate limited; the seconds to wait before retrying.
    RateLimit(u64),
}

/// Which anti-bot product a challenge page comes from.
#[derive(Debug, PartialEq, Eq, Clone, Structural)]
pub enum ChallengeHint {
    Cloudflare,
    HCaptcha,
    Recaptcha,
    DataDome,
    PerimeterX,
    Imperva,
    Unknown,
}

/// The seconds that a `Retry-After` header asks for: its value read as an
/// unsigned integer, or 60 when it is missing or is not one.
pub open spec fn retry_after_secs(h: Seq<(Seq<char>, Seq<Seq<u8>>)>) -> u64 {
    match header_lookup(h, "retry-after"@) {
        Some(v) => if visible_ascii(v) {
            match parse_u64_spec(ascii_chars(v)) {
                Some(n) => n,
                None => 60,
            }
        } else {
            60
        },
        None => 60,
    }
}

/// A `Retry-After` header holding a number in decimal asks for that many
/// seconds, whatever the number; without the header the wait is 60 seconds.
pub proof fn lemma_retry_after_reads_seconds(h: Seq<(Seq<char>, Seq<Seq<u8>>)>, v: Seq<u8>, n: u64)
    ensures
        header_lookup(h, "retry-after"@) == Some(v) && ascii_chars(v) == decimal(n as nat)
            ==> retry_after_secs(h) == n,
        header_lookup(h, "retry-after"@) is None ==> retry_after_secs(h) == 60,
{
    if header_lookup(h, "retry-after"@) == Some(v) && ascii_chars(v) == decimal(n as nat) {
        lemma_parse_decimal(n);
        assert forall|i: int| 0 <= i < v.len() implies visible_ascii_byte(#[trigger] v[i]) by {
            assert(ascii_chars(v)[i] == v[i] as char);
            assert(is_digit(decimal(n as nat)[i]));
        }
    }
}

/// Some header name begins with `x-px-` (PerimeterX).
pub open spec fn has_px_header(h: Seq<(Seq<char>, Seq<Seq<u8>>)>) -> bool {
    exists|i: int| 0 <= i < h.len() && starts_with(#[trigger] h[i].0, "x-px-"@)
}

/// A `Set-Cookie` value whose cookie name (the part before the first `=`,
/// after leading spaces and tabs) begins with `_px` (PerimeterX).
pub open spec fn px_cookie(v: Seq<u8>) -> bool {
    exists|e: int, s: int|
        #![trigger v[e], v[s]]
        0 <= s && s + 3 <= e < v.len() && v[e] == 61
        && (forall|j: int| 0 <= j < e ==> v[j] != 61)
        && (forall|j: int| 0 <= j < s ==> v[j] == 32 || v[j] == 9)
        && v[s] == 95 && v[s + 1] == 112 && v[s + 2] == 120
}

/// Some `Set-Cookie` header sets a `_px` cookie.
pub open spec fn has_px_cookie(h: Seq<(Seq<char>, Seq<Seq<u8>>)>) -> bool {
    let cookies = header_values(h, "set-cookie"@);
    exists|i: int| 0 <= i < cookies.len() && px_cookie(#[trigger] cookies[i])
}

/// The page state of a response with the given status and headers, whose
/// body, decoded and lower-cased, is `body`. Definitive header signals come
/// first, then body markers, then the plain status.
pub open spec fn page_state_of(status: u16, h: Seq<(Seq<char>, Seq<Seq<u8>>)>, body: Seq<char>) -> PageState {
    if status == 429 {
        PageState::RateLimit(retry_after_secs(h))
    } else if has_header(h, "x-datadome-cid"@) {
        PageState::Challenge(ChallengeHint::DataDome)
    } else if has_px_header(h) || has_px_cookie(h) {
        PageState::Challenge(ChallengeHint::PerimeterX)
    } else if has_header(h, "x-iinfo"@) {
        PageState::Challenge(ChallengeHint::Imperva)
    } else if (status == 403 || status == 503) && has_header(h, "cf-ray"@) {
        PageState::Challenge(ChallengeHint::Cloudflare)
    } else if seq_contains(body, "datadome"@) {
        PageState::Challenge(ChallengeHint::DataDome)
    } else if seq_contains(body, "px-captcha"@) || seq_contains(body, "perimeterx"@) {
        PageState::Challenge(ChallengeHint::PerimeterX)
    } else if seq_contains(body, "incapsula"@) || seq_contains(body, "_incapsula_resource"@) {
        PageState::Challenge(ChallengeHint::Imperva)
    } else if seq_contains(body, "hcaptcha"@) {
        PageState::Challenge(ChallengeHint::HCaptcha)
    } else if seq_contains(body, "recaptcha"@) {
        PageState::Challenge(ChallengeHint::Recaptcha)
    } else if seq_contains(body, "checking your browser"@) || seq_contains(body, "enable javascript"@)
        || seq_contains(body, "cf-browser-verification"@) {
        PageState::JsRequired
    } else if status == 403 {
        PageState::Blocked
    } else {
        PageState::Normal
    }
}

/// The characters of ASCII bytes.
pub fn ascii_char_vec(v: &Vec<u8>) -> (r: Vec<char>)
    ensures
        r@ == ascii_chars(v@),
{
    let mut r: Vec<char> = Vec::new();
    let mut i: usize = 0;
    while i < v.len()
        invariant
            i <= v.len(),
            r@ == ascii_chars(v@.subrange(0, i as int)),
        decreases v.len() - i,
    {
        r.push(v[i] as char);
        assert(ascii_chars(v@.subrange(0, i + 1)) =~= ascii_chars(v@.subrange(0, i as int)).push(v@[i as int] as char));
        i = i + 1;
    }
    assert(v@.subrange(0, v@.len() as int) =~= v@);
    r
}

/// The `Retry-After` delay in seconds, 60 when absent or unreadable.
pub fn retry_after(headers: &HeaderMap) -> (r: u64)
    ensures
        r == retry_after_secs(header_map_contents(*headers)),
{
    match header_map_get(headers, "retry-after") {
        Some(v) => {
            if is_visible_ascii(&v) {
                let cs = ascii_char_vec(&v);
                assert(cs@.subrange(0, cs@.len() as int) =~= cs@);
                match parse_u64_in(&cs, 0, cs.len()) {
                    Some(n) => n,
                    None => 60,
                }
            } else {
                60
            }
        },
        None => 60,
    }
}

/// Whether some header name begins with `x-px-`.
pub fn has_px_header_in(headers: &HeaderMap) -> (r: bool)
    ensures
        r == has_px_header(header_map_contents(*headers)),
{
    let ghost h = header_map_contents(*headers);
    let names = header_map_names(headers);
    let prefix = chars_of("x-px-");
    let mut i: usize = 0;
    assert(names@.map_values(|s: String| s@).len() == entry_names(h).len());
    while i < names.len()
        invariant
            i <= names.len(),
            prefix@ == "x-px-"@,
            h == header_map_contents(*headers),
            names@.map_values(|s: String| s@) == entry_names(h),
            names.len() == h.len(),
            forall|k: int| 0 <= k < i ==> !starts_with(#[trigger] h[k].0, prefix@),
        decreases names.len() - i,
    {
        let name = chars_of(names[i].as_str());
        proof {
            assert(name@.subrange(0, name@.len() as int) =~= name@);
            assert(names@.map_values(|s: String| s@)[i as int] == names@[i as int]@);
            assert(entry_names(h)[i as int] == h[i as int].0);
        }
        if starts_with_in(&name, 0, name.len(), &prefix) {
            return true;
        }
        i = i + 1;
    }
    false
}

/// Whether a `Set-Cookie` value sets a cookie whose name begins with `_px`.
pub fn is_px_cookie(v: &Vec<u8>) -> (r: bool)
    ensures
        r == px_cookie(v@),
{
    let mut e: usize = 0;
    while e < v.len() && v[e] != 61
        invariant
            e <= v.len(),
            forall|j: int| 0 <= j < e ==> v@[j] != 61,
        decreases v.len() - e,
    {
        e = e + 1;
    }
    if e == v.len() {
        return false;
    }
    let mut s: usize = 0;
    while s < e && (v[s] == 32 || v[s] == 9)
        invariant
            s <= e < v.len(),
            forall|j: int| 0 <= j < s ==> v@[j] == 32 || v@[j] == 9,
        decreases e - s,
    {
        s = s + 1;
    }
    let r = e - s >= 3 && v[s] == 95 && v[s + 1] == 112 && v[s + 2] == 120;
    proof {
        if r {
            assert(v@[e as int] == 61 && v@[s as int] == 95);
        } else if px_cookie(v@) {
            let (e2, s2) = choose|e2: int, s2: int|
                #![trigger v@[e2], v@[s2]]
                0 <= s2 && s2 + 3 <= e2 < v@.len() && v@[e2] == 61
                && (forall|j: int| 0 <= j < e2 ==> v@[j] != 61)
                && (forall|j: int| 0 <= j < s2 ==> v@[j] == 32 || v@[j] == 9)
                && v@[s2] == 95 && v@[s2 + 1] == 112 && v@[s2 + 2] == 120;
            assert(e2 == e);
            if s2 < s {
                assert(v@[s2] == 32 || v@[s2] == 9);
            } else if s2 > s {
                assert(v@[s as int] == 32 || v@[s as int] == 9);
            }
        }
    }
    r
}

/// Whether some `Set-Cookie` header sets a `_px` cookie.
pub fn has_px_cookie_in(headers: &HeaderMap) -> (r: bool)
    ensures
        r == has_px_cookie(header_map_contents(*headers)),
{
    let ghost cookies = header_values(header_map_contents(*headers), "set-cookie"@);
    let values = header_map_get_all(headers, "set-cookie");
    let mut i: usize = 0;
    assert(values@.map_values(|v: Vec<u8>| v@).len() == cookies.len());
    while i < values.len()
        invariant
            i <= values.len(),
            cookies == header_values(header_map_contents(*headers), "set-cookie"@),
            values@.map_values(|v: Vec<u8>| v@) == cookies,
            values.len() == cookies.len(),
            forall|k: int| 0 <= k < i ==> !px_cookie(#[trigger] cookies[k]),
        decreases values.len() - i,
    {
        assert(values@.map_values(|v: Vec<u8>| v@)[i as int] == values@[i as int]@);
        if is_px_cookie(&values[i]) {
            return true;
        }
        i = i + 1;
    }
    false
}

fn body_has(body: &Vec<char>, needle: &str) -> (r: bool)
    ensures
        r == seq_contains(body@, needle@),
{
    let n = chars_of(needle);
    contains(body, &n)
}

/// The page state of `response`, given its body already decoded and
/// lower-cased as `body_lower`.
pub fn classify_lowered(response: &HttpResponse, body_lower: &str) -> (r: PageState)
    ensures
        r == page_state_of(response.status, header_map_contents(response.headers), body_lower@),
{
    if response.status == 429 {
        return PageState::RateLimit(retry_after(&response.headers));
    }
    if header_map_contains(&response.headers, "x-datadome-cid") {
        return PageState::Challenge(ChallengeHint::DataDome);
    }
    if has_px_header_in(&response.headers) || has_px_cookie_in(&response.headers) {
        return PageState::Challenge(ChallengeHint::PerimeterX);
    }
    if header_map_contains(&response.headers, "x-iinfo") {
        return PageState::Challenge(ChallengeHint::Imperva);
    }
    let has_cf_ray = header_map_contains(&response.headers, "cf-ray");
    if (response.status == 403 || response.status == 503) && has_cf_ray {
        return PageState::Challenge(ChallengeHint::Cloudflare);
    }
    let body = chars_of(body_lower);
    if body_has(&body, "datadome") {
        return PageState::Challenge(ChallengeHint::DataDome);
    }
    if body_has(&body, "px-captcha") || body_has(&body, "perimeterx") {
        return PageState::Challenge(ChallengeHint::PerimeterX);
    }
    if body_has(&body, "incapsula") || body_has(&body, "_incapsula_resource") {
        return PageState::Challenge(ChallengeHint::Imperva);
    }
    if body_has(&body, "hcaptcha") {
        return PageState::Challenge(ChallengeHint::HCaptcha);
    }
    if body_has(&body, "recaptcha") {
        return PageState::Challenge(ChallengeHint::Recaptcha);
    }
    if body_has(&body, "checking your browser") || body_has(&body, "enable javascript")
        || body_has(&body, "cf-browser-verification") {
        return PageState::JsRequired;
    }
    if response.status == 403 {
        return PageState::Blocked;
    }
    PageState::Normal
}

/// Classifies a response: its body is decoded (lossily) as UTF-8 and
/// lower-cased, then `page_state_of` decides.
pub fn classify(response: &HttpResponse) -> (r: PageState)
    ensures
        r == page_state_of(
            response.status,
            header_map_contents(response.headers),
            unicode_lowercase(utf8_lossy(response.body@)),
        ),
        ascii_bytes(response.body@) ==> r == page_state_of(
            response.status,
            header_map_contents(response.headers),
            ascii_lowered(response.body@),
        ),
        forall|b2: Seq<u8>| same_up_to_ascii_case(response.body@, b2) ==> r == page_state_of(
            response.status,
            header_map_contents(response.headers),
            #[trigger] unicode_lowercase(utf8_lossy(b2)),
        ),
{
    let text = response.text();
    proof {
        if ascii_bytes(response.body@) {
            lemma_ascii_decode(response.body@);
            assert(text@.map_values(|c: char| ascii_lower(c)) =~= ascii_lowered(response.body@));
        }
    }
    let lowered = to_lowercase(text.as_str());
    assert forall|b2: Seq<u8>| same_up_to_ascii_case(response.body@, b2)
        implies #[trigger] unicode_lowercase(utf8_lossy(b2)) == lowered@ by {
        assert(same_chars_up_to_ascii_case(text@, utf8_lossy(b2)));
    }
    classify_lowered(response, lowered.as_str())
}

/// ASCII bytes as text, with `A` to `Z` lower-cased.
pub open spec fn ascii_lowered(b: Seq<u8>) -> Seq<char> {
    b.map_values(|x: u8| ascii_lower(x as char))
}

/// Body markers are matched whatever the case of their ASCII letters: two
/// ASCII bodies that differ only in letter case give the same page state
/// for the same status and headers.
pub proof fn lemma_body_case_ignored(status: u16, h: Seq<(Seq<char>, Seq<Seq<u8>>)>, b1: Seq<u8>, b2: Seq<u8>)
    requires
        ascii_bytes(b1),
        ascii_bytes(b2),
        same_up_to_ascii_case(b1, b2),
    ensures
        page_state_of(status, h, ascii_lowered(b1)) == page_state_of(status, h, ascii_lowered(b2)),
{
    assert(ascii_lowered(b1) =~= ascii_lowered(b2));
}

/// A 429 response is a rate limit whatever its headers and body say.
pub proof fn lemma_too_many_requests_is_rate_limit(h: Seq<(Seq<char>, Seq<Seq<u8>>)>, body: Seq<char>)
    ensures
        page_state_of(429, h, body) == PageState::RateLimit(retry_after_secs(h)),
{
}

/// A DataDome header decides the page state before anything in the body
/// (short of a rate limit).
pub proof fn lemma_datadome_header_decides(status: u16, h: Seq<(Seq<char>, Seq<Seq<u8>>)>, body: Seq<char>)
    requires
        status != 429,
        has_header(h, "x-datadome-cid"@),
    ensures
        page_state_of(status, h, body) == PageState::Challenge(ChallengeHint::DataDome),
{
}

/// A page with no bot signal in its headers or body is blocked when its
/// status is 403 and normal otherwise.
pub proof fn lemma_no_signal(status: u16, h: Seq<(Seq<char>, Seq<Seq<u8>>)>, body: Seq<char>)
    requires
        status != 429,
        !has_header(h, "x-datadome-cid"@),
        !has_px_header(h),
        !has_px_cookie(h),
        !has_header(h, "x-iinfo"@),
        !has_header(h, "cf-ray"@),
        !seq_contains(body, "datadome"@),
        !seq_contains(body, "px-captcha"@),
        !seq_contains(body, "perimeterx"@),
        !seq_contains(body, "incapsula"@),
        !seq_contains(body, "_incapsula_resource"@),
        !seq_contains(body, "hcaptcha"@),
        !seq_contains(body, "recaptcha"@),
        !seq_contains(body, "checking your browser"@),
        !seq_contains(body, "enable javascript"@),
        !seq_contains(body, "cf-browser-verification"@),
    ensures
        page_state_of(status, h, body) == if status == 403 { PageState::Blocked } else { PageState::Normal },
{
}

/// No signal in the headers: no DataDome, PerimeterX or Imperva header, no
/// PerimeterX cookie, and no Cloudflare header on a 403 or 503.
pub open spec fn no_header_signal(status: u16, h: Seq<(Seq<char>, Seq<Seq<u8>>)>) -> bool {
    &&& !has_header(h, "x-datadome-cid"@)
    &&& !has_px_header(h)
    &&& !has_px_cookie(h)
    &&& !has_header(h, "x-iinfo"@)
    &&& !((status == 403 || status == 503) && has_header(h, "cf-ray"@))
}

/// Header signals decide before anything in the body, short of a rate
/// limit: a PerimeterX header or cookie means PerimeterX unless a DataDome
/// header came first; an `x-iinfo` header means Imperva unless one of those
/// did; a `cf-ray` header on a 403 or 503 means Cloudflare unless one of
/// those did.
pub proof fn lemma_header_signals_decide(status: u16, h: Seq<(Seq<char>, Seq<Seq<u8>>)>, body: Seq<char>)
    requires
        status != 429,
    ensures
        !has_header(h, "x-datadome-cid"@) && (has_px_header(h) || has_px_cookie(h))
            ==> page_state_of(status, h, body) == PageState::Challenge(ChallengeHint::PerimeterX),
        !has_header(h, "x-datadome-cid"@) && !has_px_header(h) && !has_px_cookie(h) && has_header(h, "x-iinfo"@)
            ==> page_state_of(status, h, body) == PageState::Challenge(ChallengeHint::Imperva),
        !has_header(h, "x-datadome-cid"@) && !has_px_header(h) && !has_px_cookie(h) && !has_header(h, "x-iinfo"@)
            && (status == 403 || status == 503) && has_header(h, "cf-ray"@)
            ==> page_state_of(status, h, body) == PageState::Challenge(ChallengeHint::Cloudflare),
{
}

/// With no header signal, the body's markers decide, each only when none
/// before it occurs: `datadome` means DataDome; `px-captcha` or `perimeterx`
/// means PerimeterX; `incapsula` (which `_incapsula_resource` contains)
/// means Imperva; `hcaptcha` means hCaptcha; `recaptcha` means reCAPTCHA;
/// `checking your browser`, `enable javascript` or
/// `cf-browser-verification` means a JavaScript check.
pub proof fn lemma_body_markers_decide(status: u16, h: Seq<(Seq<char>, Seq<Seq<u8>>)>, body: Seq<char>)
    requires
        status != 429,
        no_header_signal(status, h),
    ensures
        seq_contains(body, "datadome"@)
            ==> page_state_of(status, h, body) == PageState::Challenge(ChallengeHint::DataDome),
        !seq_contains(body, "datadome"@) && seq_contains(body, "perimeterx"@)
            ==> page_state_of(status, h, body) == PageState::Challenge(ChallengeHint::PerimeterX),
        !seq_contains(body, "datadome"@) && seq_contains(body, "px-captcha"@)
            ==> page_state_of(status, h, body) == PageState::Challenge(ChallengeHint::PerimeterX),
        !seq_contains(body, "datadome"@) && !seq_contains(body, "px-captcha"@) && !seq_contains(body, "perimeterx"@)
            && seq_contains(body, "incapsula"@)
            ==> page_state_of(status, h, body) == PageState::Challenge(ChallengeHint::Imperva),
        !seq_contains(body, "datadome"@) && !seq_contains(body, "px-captcha"@) && !seq_contains(body, "perimeterx"@)
            && !seq_contains(body, "incapsula"@) && seq_contains(body, "hcaptcha"@)
            ==> page_state_of(status, h, body) == PageState::Challenge(ChallengeHint::HCaptcha),
        !seq_contains(body, "datadome"@) && !seq_contains(body, "px-captcha"@) && !seq_contains(body, "perimeterx"@)
            && !seq_contains(body, "incapsula"@) && !seq_contains(body, "hcaptcha"@) && seq_contains(body, "recaptcha"@)
            ==> page_state_of(status, h, body) == PageState::Challenge(ChallengeHint::Recaptcha),
        !seq_contains(body, "datadome"@) && !seq_contains(body, "px-captcha"@) && !seq_contains(body, "perimeterx"@)
            && !seq_contains(body, "incapsula"@) && !seq_contains(body, "hcaptcha"@) && !seq_contains(body, "recaptcha"@)
            && (seq_contains(body, "checking your browser"@) || seq_contains(body, "enable javascript"@)
                || seq_contains(body, "cf-browser-verification"@))
            ==> page_state_of(status, h, body) == PageState::JsRequired,
{
    if !seq_contains(body, "incapsula"@) && seq_contains(body, "_incapsula_resource"@) {
        reveal_strlit("_incapsula_resource");
        reveal_strlit("incapsula");
        assert("_incapsula_resource"@.subrange(1, 10) =~= "incapsula"@);
        lemma_contains_inner(body, "_incapsula_resource"@, "incapsula"@, 1);
    }
}

} // verus!
