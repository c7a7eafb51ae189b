//! A fetched HTTP response and what can be read off it.
use vstd::prelude::*;
use reqwest::header::HeaderMap;
use vstd::utf8::{decode_utf8, encode_utf8, is_ascii_chars, valid_utf8};
use crate::http::detect::{self, page_state_of, PageState};
use crate::http::headers::{
    ascii_chars, header_lookup, header_map_contents, header_map_get, visible_ascii,
    visible_ascii_byte,
};
use crate::text::{chars_of, contains, seq_contains};
use crate::unicode::{
    decode_utf8_lossy, same_chars_up_to_ascii_case, same_up_to_ascii_case, unicode_lowercase, utf8_lossy,
};

verus! {

/// A response as the client received it: status code, the URL reached after
/// redirects, the headers and the raw body.
#[derive(Debug)]
pub struct HttpResponse {
    pub status: u16,
    pub final_url: String,
    pub headers: HeaderMap,
    pub body: Vec<u8>,
}

/// The `Content-Type` header, when present and made of visible ASCII.
pub open spec fn content_type_of(h: Seq<(Seq<char>, Seq<Seq<u8>>)>) -> Option<Seq<char>> {
    match header_lookup(h, "content-type"@) {
        Some(v) => if visible_ascii(v) { Some(ascii_chars(v)) } else { None },
        None => None,
    }
}

/// Whether the content type announces HTML.
pub open spec fn is_html_type(h: Seq<(Seq<char>, Seq<Seq<u8>>)>) -> bool {
    match content_type_of(h) {
        Some(ct) => seq_contains(ct, "text/html"@),
        None => false,
    }
}

/// Bytes below 128.
pub open spec fn ascii_bytes(v: Seq<u8>) -> bool {
    forall|i: int| 0 <= i < v.len() ==> #[trigger] v[i] < 128
}

/// ASCII bytes decode, as UTF-8, to the characters they code.
pub proof fn lemma_ascii_decode(v: Seq<u8>)
    requires
        ascii_bytes(v),
    ensures
        valid_utf8(v),
        decode_utf8(v) == ascii_chars(v),
        is_ascii_chars(ascii_chars(v)),
{
    let chars = ascii_chars(v);
    assert forall|i: int| 0 <= i < chars.len() implies '\0' <= #[trigger] chars[i] <= '\u{7f}' by {
        assert(v[i] < 128);
    }
    assert(is_ascii_chars(chars));
    vstd::utf8::is_ascii_chars_encode_utf8(chars);
    assert forall|i: int| 0 <= i < v.len() implies #[trigger] encode_utf8(chars)[i] == v[i] by {
        assert(chars[i] as u8 == encode_utf8(chars)[i]);
        assert(v[i] < 128);
    }
    assert(encode_utf8(chars) =~= v);
    vstd::utf8::encode_utf8_valid_utf8(chars);
    vstd::utf8::encode_utf8_decode_utf8(chars);
}

/// The text of ASCII bytes, as a `String`.
pub fn ascii_string(v: &Vec<u8>) -> (r: String)
    requires
        visible_ascii(v@),
    ensures
        r@ == ascii_chars(v@),
{
    proof {
        assert forall|i: int| 0 <= i < v@.len() implies #[trigger] v@[i] < 128 by {
            assert(visible_ascii_byte(v@[i]));
        }
        lemma_ascii_decode(v@);
    }
    decode_utf8_lossy(v.as_slice())
}

/// Whether every byte is visible ASCII (what `HeaderValue::to_str` checks).
pub fn is_visible_ascii(v: &Vec<u8>) -> (r: bool)
    ensures
        r == visible_ascii(v@),
{
    let mut i: usize = 0;
    while i < v.len()
        invariant
            i <= v.len(),
            forall|k: int| 0 <= k < i ==> visible_ascii_byte(#[trigger] v@[k]),
        decreases v.len() - i,
    {
        let b = v[i];
        if !((32 <= b && b < 127) || b == 9) {
            return false;
        }
        i = i + 1;
    }
    true
}

impl HttpResponse {
    /// The body as text, invalid UTF-8 replaced by U+FFFD.
    pub fn text(&self) -> (r: String)
        ensures
            r@ == utf8_lossy(self.body@),
            valid_utf8(self.body@) ==> r@ == decode_utf8(self.body@),
            forall|b2: Seq<u8>| same_up_to_ascii_case(self.body@, b2)
                ==> same_chars_up_to_ascii_case(r@, #[trigger] utf8_lossy(b2)),
    {
        decode_utf8_lossy(self.body.as_slice())
    }

    /// Whether the `Content-Type` header contains `text/html`.
    pub fn is_html(&self) -> (r: bool)
        ensures
            r == is_html_type(header_map_contents(self.headers)),
    {
        match self.content_type() {
            Some(ct) => {
                let ct_chars = chars_of(ct.as_str());
                let needle = chars_of("text/html");
                contains(&ct_chars, &needle)
            },
            None => false,
        }
    }

    /// The `Content-Type` header, when present and readable as visible ASCII.
    pub fn content_type(&self) -> (r: Option<String>)
        ensures
            match r {
                Some(s) => content_type_of(header_map_contents(self.headers)) == Some(s@),
                None => content_type_of(header_map_contents(self.headers)) is None,
            },
    {
        match header_map_get(&self.headers, "content-type") {
            Some(v) => {
                if is_visible_ascii(&v) {
                    Some(ascii_string(&v))
                } else {
                    None
                }
            },
            None => None,
        }
    }

    /// The page state that the response shows (see `detect::classify`).
    pub fn classify(&self) -> (r: PageState)
        ensures
            r == page_state_of(
                self.status,
                header_map_contents(self.headers),
                unicode_lowercase(utf8_lossy(self.body@)),
            ),
    {
        detect::classify(self)
    }
}

} // verus!
