//! Header maps of the `http` crate (re-exported by `reqwest`), seen through
//! what they hold: their header names in the map's order, each with the
//! bytes of the values stored under it, in the order they were added.
use vstd::prelude::*;
use reqwest::header::{HeaderMap, HeaderName, HeaderValue};
use vstd::utf8::encode_utf8;

verus! {

/// `http`'s multimap from header names to header values.
#[verifier::external_type_specification]
#[verifier::external_body]
#[verifier::reject_recursive_types(T)]
pub struct ExHeaderMap<T>(HeaderMap<T>);

/// `http`'s header value, the element type of a header map.
#[verifier::external_type_specification]
#[verifier::external_body]
pub struct ExHeaderValue(HeaderValue);

/// What a header map holds: its (lower-case) header names in the map's
/// order, which is the order of first insertion, each paired with the bytes
/// of the values stored under it (one or more), in the order they were added.
pub uninterp spec fn header_map_contents(m: HeaderMap) -> Seq<(Seq<char>, Seq<Seq<u8>>)>;

/// Where the entry for `name` stands, if there is one.
pub open spec fn name_index(entries: Seq<(Seq<char>, Seq<Seq<u8>>)>, name: Seq<char>) -> Option<int>
    decreases entries.len(),
{
    if entries.len() == 0 {
        None
    } else if entries[0].0 == name {
        Some(0)
    } else {
        match name_index(entries.drop_first(), name) {
            Some(i) => Some(i + 1),
            None => None,
        }
    }
}

/// `name_index` finds the first entry with the name, and only misses when
/// no entry has it.
pub proof fn lemma_name_index(entries: Seq<(Seq<char>, Seq<Seq<u8>>)>, name: Seq<char>)
    ensures
        match name_index(entries, name) {
            Some(i) => 0 <= i < entries.len() && entries[i].0 == name
                && forall|j: int| 0 <= j < i ==> (#[trigger] entries[j]).0 != name,
            None => forall|j: int| 0 <= j < entries.len() ==> (#[trigger] entries[j]).0 != name,
        },
    decreases entries.len(),
{
    if entries.len() > 0 {
        lemma_name_index(entries.drop_first(), name);
        match name_index(entries.drop_first(), name) {
            Some(i) => {
                assert forall|j: int| 0 <= j < i + 1 implies (#[trigger] entries[j]).0 != name || entries[0].0 == name by {
                    if j > 0 {
                        assert(entries[j] == entries.drop_first()[j - 1]);
                    }
                }
            },
            None => {
                assert forall|j: int| 0 <= j < entries.len() implies (#[trigger] entries[j]).0 != name || entries[0].0 == name by {
                    if j > 0 {
                        assert(entries[j] == entries.drop_first()[j - 1]);
                    }
                }
            },
        }
    }
}

/// Storing a value keeps the names distinct and adds its name.
pub proof fn lemma_entries_insert(entries: Seq<(Seq<char>, Seq<Seq<u8>>)>, name: Seq<char>, value: Seq<u8>)
    requires
        entry_names(entries).no_duplicates(),
    ensures
        entry_names(entries_insert(entries, name, value)).no_duplicates(),
        entry_names(entries_insert(entries, name, value)).to_set() == entry_names(entries).to_set().insert(name),
{
    lemma_name_index(entries, name);
    let r = entries_insert(entries, name, value);
    let before = entry_names(entries);
    match name_index(entries, name) {
        Some(i) => {
            assert(entry_names(r) =~= before);
            assert(before[i] == name);
            assert(before.to_set().contains(name));
            assert(entry_names(r).to_set() =~= before.to_set().insert(name));
        },
        None => {
            let after = before.push(name);
            assert(entry_names(r) =~= after);
            assert forall|x: Seq<char>| after.contains(x) <==> before.contains(x) || x == name by {
                if after.contains(x) {
                    let k = choose|k: int| 0 <= k < after.len() && after[k] == x;
                    if k < before.len() {
                        assert(before[k] == x);
                    }
                }
                if before.contains(x) {
                    let k = choose|k: int| 0 <= k < before.len() && before[k] == x;
                    assert(after[k] == x);
                }
                if x == name {
                    assert(after[before.len() as int] == x);
                }
            }
            assert(entry_names(r).to_set() =~= before.to_set().insert(name));
        },
    }
}

/// The entries with `name` now holding `value` alone: replaced in place when
/// the name is present, appended otherwise.
pub open spec fn entries_insert(entries: Seq<(Seq<char>, Seq<Seq<u8>>)>, name: Seq<char>, value: Seq<u8>) -> Seq<(Seq<char>, Seq<Seq<u8>>)> {
    match name_index(entries, name) {
        Some(i) => entries.update(i, (name, seq![value])),
        None => entries.push((name, seq![value])),
    }
}

/// After storing `value` under `name`, the entry found for `name` holds
/// exactly that value, and the entry found for any other name is the one
/// found before.
pub proof fn lemma_entries_insert_lookup(
    entries: Seq<(Seq<char>, Seq<Seq<u8>>)>,
    name: Seq<char>,
    value: Seq<u8>,
    other: Seq<char>,
)
    ensures
        match name_index(entries_insert(entries, name, value), name) {
            Some(i) => entries_insert(entries, name, value)[i] == (name, seq![value]),
            None => false,
        },
        other != name ==> match (name_index(entries_insert(entries, name, value), other), name_index(entries, other)) {
            (Some(i), Some(j)) => entries_insert(entries, name, value)[i] == entries[j],
            (None, None) => true,
            _ => false,
        },
{
    let r = entries_insert(entries, name, value);
    lemma_name_index(entries, name);
    lemma_name_index(r, name);
    lemma_name_index(entries, other);
    lemma_name_index(r, other);
    // `r` has the names of `entries`, plus `name` at the end when it was new.
    let at = match name_index(entries, name) {
        Some(i) => i,
        None => entries.len() as int,
    };
    assert(r.len() == entries.len() || r.len() == entries.len() + 1);
    assert(0 <= at < r.len() && r[at] == (name, seq![value]));
    assert forall|j: int| 0 <= j < r.len() && j != at implies #[trigger] r[j] == entries[j] by {}
    assert forall|j: int| 0 <= j < at implies (#[trigger] r[j]).0 != name by {
        assert(r[j] == entries[j]);
    }
    match name_index(r, name) {
        Some(i) => {
            if i < at {
                assert(r[i].0 != name);
            } else if i > at {
                assert(r[at].0 == name);
            }
        },
        None => {
            assert(r[at].0 == name);
        },
    }
    if other != name {
        match (name_index(r, other), name_index(entries, other)) {
            (Some(i), Some(j)) => {
                assert(i != at);
                assert(r[i] == entries[i]);
                assert(j != at || name_index(entries, name) is None);
                if j < entries.len() && j != at {
                    assert(r[j] == entries[j]);
                }
                if i < j {
                    assert(entries[i].0 == other);
                } else if j < i {
                    assert(r[j].0 == other);
                }
            },
            (Some(i), None) => {
                assert(i != at);
                assert(r[i] == entries[i]);
            },
            (None, Some(j)) => {
                if name_index(entries, name) is Some {
                    assert(j != at);
                }
                assert(r[j] == entries[j]);
            },
            (None, None) => {},
        }
    }
}

/// The header names, in order.
pub open spec fn entry_names(entries: Seq<(Seq<char>, Seq<Seq<u8>>)>) -> Seq<Seq<char>> {
    entries.map_values(|e: (Seq<char>, Seq<Seq<u8>>)| e.0)
}

/// A character allowed in an HTTP token (RFC 7230 `tchar`).
pub open spec fn is_tchar(c: char) -> bool {
    ||| ('a' <= c && c <= 'z')
    ||| ('A' <= c && c <= 'Z')
    ||| ('0' <= c && c <= '9')
    ||| c == '!' || c == '#' || c == '$' || c == '%' || c == '&' || c == '\''
    ||| c == '*' || c == '+' || c == '-' || c == '.' || c == '^' || c == '_'
    ||| c == '`' || c == '|' || c == '~'
}

/// A name that `HeaderName::from_bytes` accepts: one to 65535 token characters.
pub open spec fn valid_header_name(s: Seq<char>) -> bool {
    &&& 0 < s.len() <= 65535
    &&& forall|i: int| 0 <= i < s.len() ==> is_tchar(#[trigger] s[i])
}

pub open spec fn ascii_lower(c: char) -> char {
    if 'A' <= c && c <= 'Z' {
        ((c as u32) + 32) as char
    } else {
        c
    }
}

/// The normalised form under which a header map stores a name.
pub open spec fn lowercase_name(s: Seq<char>) -> Seq<char> {
    s.map_values(|c: char| ascii_lower(c))
}

/// A byte that `HeaderValue::from_str` accepts.
pub open spec fn valid_value_byte(b: u8) -> bool {
    (b >= 32 && b != 127) || b == 9
}

pub open spec fn valid_header_value(bytes: Seq<u8>) -> bool {
    forall|i: int| 0 <= i < bytes.len() ==> valid_value_byte(#[trigger] bytes[i])
}

/// A byte that `HeaderValue::to_str` accepts: visible ASCII or a tab.
pub open spec fn visible_ascii_byte(b: u8) -> bool {
    (32 <= b && b < 127) || b == 9
}

pub open spec fn visible_ascii(bytes: Seq<u8>) -> bool {
    forall|i: int| 0 <= i < bytes.len() ==> visible_ascii_byte(#[trigger] bytes[i])
}

/// The characters of an ASCII byte string.
pub open spec fn ascii_chars(bytes: Seq<u8>) -> Seq<char> {
    bytes.map_values(|b: u8| b as char)
}

/// What `HeaderMap::get_all(name)` finds: every value stored under the name,
/// in order; the name is parsed (and lower-cased) first, and an unparsable
/// name finds nothing.
pub open spec fn header_values(h: Seq<(Seq<char>, Seq<Seq<u8>>)>, name: Seq<char>) -> Seq<Seq<u8>> {
    if valid_header_name(name) {
        match name_index(h, lowercase_name(name)) {
            Some(i) => h[i].1,
            None => Seq::empty(),
        }
    } else {
        Seq::empty()
    }
}

/// What `HeaderMap::get(name)` finds: the first value stored under the name;
/// the name is parsed (and lower-cased) first, and an unparsable name finds
/// nothing.
pub open spec fn header_lookup(h: Seq<(Seq<char>, Seq<Seq<u8>>)>, name: Seq<char>) -> Option<Seq<u8>> {
    if valid_header_name(name) {
        match name_index(h, lowercase_name(name)) {
            Some(i) => Some(h[i].1[0]),
            None => None,
        }
    } else {
        None
    }
}

/// What `HeaderMap::contains_key(name)` answers.
pub open spec fn has_header(h: Seq<(Seq<char>, Seq<Seq<u8>>)>, name: Seq<char>) -> bool {
    header_lookup(h, name) is Some
}

/// `HeaderMap::new`: an empty map.
#[verifier::external_body]
pub(crate) fn header_map_new() -> (r: HeaderMap)
    ensures
        header_map_contents(r).len() == 0,
{
    HeaderMap::new()
}

/// `HeaderMap::clone`: a map that holds the same entries.
#[verifier::external_body]
pub(crate) fn header_map_clone(m: &HeaderMap) -> (r: HeaderMap)
    ensures
        header_map_contents(r) == header_map_contents(*m),
{
    m.clone()
}

/// `HeaderMap::get` with a `&str` name, the value handed out as its bytes
/// (`HeaderValue::as_bytes`).
#[verifier::external_body]
pub(crate) fn header_map_get(m: &HeaderMap, name: &str) -> (r: Option<Vec<u8>>)
    ensures
        match r {
            Some(v) => header_lookup(header_map_contents(*m), name@) == Some(v@),
            None => header_lookup(header_map_contents(*m), name@) is None,
        },
{
    m.get(name).map(|v| v.as_bytes().to_vec())
}

/// `HeaderMap::get_all` with a `&str` name, each value handed out as its
/// bytes (`HeaderValue::as_bytes`): all values under the name, in order.
#[verifier::external_body]
pub(crate) fn header_map_get_all(m: &HeaderMap, name: &str) -> (r: Vec<Vec<u8>>)
    ensures
        r@.map_values(|v: Vec<u8>| v@) == header_values(header_map_contents(*m), name@),
{
    m.get_all(name).iter().map(|v| v.as_bytes().to_vec()).collect()
}

/// `HeaderMap::contains_key` with a `&str` name.
#[verifier::external_body]
pub(crate) fn header_map_contains(m: &HeaderMap, name: &str) -> (r: bool)
    ensures
        r == has_header(header_map_contents(*m), name@),
{
    m.contains_key(name)
}

/// `HeaderMap::keys`, each name handed out as its text (`HeaderName::as_str`):
/// the names in the map's order.
#[verifier::external_body]
pub(crate) fn header_map_names(m: &HeaderMap) -> (r: Vec<String>)
    ensures
        r@.map_values(|s: String| s@) == entry_names(header_map_contents(*m)),
{
    m.keys().map(|k| k.as_str().to_string()).collect()
}

/// `HeaderName::from_bytes` on the name's bytes, asked only whether it
/// accepts them: a non-empty token of at most 64 KiB (upper-case letters are
/// accepted and lower-cased).
#[verifier::external_body]
pub(crate) fn header_name_valid(name: &str) -> (r: bool)
    ensures
        r == valid_header_name(name@),
{
    HeaderName::from_bytes(name.as_bytes()).is_ok()
}

/// `HeaderValue::from_str`, asked only whether it accepts the text: every
/// byte visible ASCII, a tab or at least 128, none of them DEL.
#[verifier::external_body]
pub(crate) fn header_value_valid(value: &str) -> (r: bool)
    ensures
        r == valid_header_value(encode_utf8(value@)),
{
    HeaderValue::from_str(value).is_ok()
}

/// `HeaderMap::insert` of the header that `HeaderName::from_bytes` and
/// `HeaderValue::from_str` make of the two texts, which must both parse: it
/// replaces every value the name held. The map must be far from `http`'s
/// size limit (2^15 index slots), past which `insert` panics.
#[verifier::external_body]
pub(crate) fn header_map_insert(m: &mut HeaderMap, name: &str, value: &str)
    requires
        header_map_contents(*old(m)).len() < 3000,
        valid_header_name(name@),
        valid_header_value(encode_utf8(value@)),
    ensures
        header_map_contents(*final(m))
            == entries_insert(header_map_contents(*old(m)), lowercase_name(name@), encode_utf8(value@)),
{
    let n = HeaderName::from_bytes(name.as_bytes()).expect("checked header name");
    let v = HeaderValue::from_str(value).expect("checked header value");
    m.insert(n, v);
}

} // verus!
