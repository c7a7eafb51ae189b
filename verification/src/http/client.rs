//! What the client sends: the default headers that an identity implies,
//! and the `Cookie` header line built from stored cookies.
use vstd::prelude::*;
use reqwest::header::HeaderMap;
use vstd::utf8::encode_utf8;
use crate::http::headers::{
    entries_insert, entry_names, header_lookup, lemma_entries_insert, lemma_entries_insert_lookup, lemma_name_index, name_index, header_map_contents, header_map_insert, header_map_new, header_name_valid, header_value_valid, lowercase_name, valid_header_name,
    valid_header_value,
};
use crate::identity::{names_view, opt_view, Identity};
use crate::text::same_text;

verus! {

broadcast use vstd::set::group_set_axioms;

/// The value an identity gives to the header `name`, for the headers it knows.
pub open spec fn identity_header_value(id: Identity, name: Seq<char>) -> Option<Seq<char>> {
    if name == "user-agent"@ {
        Some(id.user_agent@)
    } else if name == "accept"@ {
        Some(id.accept@)
    } else if name == "accept-language"@ {
        Some(id.accept_language@)
    } else if name == "sec-ch-ua"@ {
        opt_view(id.sec_ch_ua)
    } else if name == "sec-ch-ua-mobile"@ {
        opt_view(id.sec_ch_ua_mobile)
    } else if name == "sec-ch-ua-platform"@ {
        opt_view(id.sec_ch_ua_platform)
    } else if name == "connection"@ {
        Some("keep-alive"@)
    } else if name == "upgrade-insecure-requests"@ {
        Some("1"@)
    } else if name == "sec-fetch-dest"@ {
        Some("document"@)
    } else if name == "sec-fetch-mode"@ {
        Some("navigate"@)
    } else if name == "sec-fetch-site"@ {
        Some("none"@)
    } else if name == "sec-fetch-user"@ {
        Some("?1"@)
    } else if name == "accept-encoding"@ {
        Some("gzip, deflate, br"@)
    } else {
        None
    }
}

/// The header map that results from going through `names` in order and
/// storing, for each name the identity gives a value, that value — when the
/// name and value are valid HTTP; a later name replaces an earlier one.
pub open spec fn identity_headers(id: Identity, names: Seq<Seq<char>>) -> Seq<(Seq<char>, Seq<Seq<u8>>)>
    decreases names.len(),
{
    if names.len() == 0 {
        Seq::empty()
    } else {
        let prev = identity_headers(id, names.drop_last());
        let n = names.last();
        match identity_header_value(id, n) {
            Some(v) => if valid_header_name(n) && valid_header_value(encode_utf8(v)) {
                entries_insert(prev, lowercase_name(n), encode_utf8(v))
            } else {
                prev
            },
            None => prev,
        }
    }
}

/// Each header the identity knows carries the identity field of that name:
/// `user-agent`, `accept` and `accept-language` their fields, the three
/// client hints theirs (when the identity has them), and the fixed fetch
/// headers their fixed values; any other name gets nothing.
pub proof fn lemma_identity_header_fields(id: Identity)
    ensures
        identity_header_value(id, "user-agent"@) == Some(id.user_agent@),
        identity_header_value(id, "accept"@) == Some(id.accept@),
        identity_header_value(id, "accept-language"@) == Some(id.accept_language@),
        identity_header_value(id, "sec-ch-ua"@) == opt_view(id.sec_ch_ua),
        identity_header_value(id, "sec-ch-ua-mobile"@) == opt_view(id.sec_ch_ua_mobile),
        identity_header_value(id, "sec-ch-ua-platform"@) == opt_view(id.sec_ch_ua_platform),
        identity_header_value(id, "connection"@) == Some("keep-alive"@),
        identity_header_value(id, "upgrade-insecure-requests"@) == Some("1"@),
        identity_header_value(id, "sec-fetch-dest"@) == Some("document"@),
        identity_header_value(id, "sec-fetch-mode"@) == Some("navigate"@),
        identity_header_value(id, "sec-fetch-site"@) == Some("none"@),
        identity_header_value(id, "sec-fetch-user"@) == Some("?1"@),
        identity_header_value(id, "accept-encoding"@) == Some("gzip, deflate, br"@),
        identity_header_value(id, "host"@) is None,
{
    reveal_strlit("user-agent");
    reveal_strlit("accept");
    reveal_strlit("accept-language");
    reveal_strlit("sec-ch-ua");
    reveal_strlit("sec-ch-ua-mobile");
    reveal_strlit("sec-ch-ua-platform");
    reveal_strlit("connection");
    reveal_strlit("upgrade-insecure-requests");
    reveal_strlit("sec-fetch-dest");
    reveal_strlit("sec-fetch-mode");
    reveal_strlit("sec-fetch-site");
    reveal_strlit("sec-fetch-user");
    reveal_strlit("accept-encoding");
    reveal_strlit("host");
    assert("accept"@.len() != "user-agent"@.len());
    assert("accept-language"@.len() != "user-agent"@.len());
    assert("accept-language"@.len() != "accept"@.len());
    assert("sec-ch-ua"@.len() != "user-agent"@.len());
    assert("sec-ch-ua"@.len() != "accept"@.len());
    assert("sec-ch-ua"@.len() != "accept-language"@.len());
    assert("sec-ch-ua-mobile"@.len() != "user-agent"@.len());
    assert("sec-ch-ua-mobile"@.len() != "accept"@.len());
    assert("sec-ch-ua-mobile"@.len() != "accept-language"@.len());
    assert("sec-ch-ua-mobile"@.len() != "sec-ch-ua"@.len());
    assert("sec-ch-ua-platform"@.len() != "user-agent"@.len());
    assert("sec-ch-ua-platform"@.len() != "accept"@.len());
    assert("sec-ch-ua-platform"@.len() != "accept-language"@.len());
    assert("sec-ch-ua-platform"@.len() != "sec-ch-ua"@.len());
    assert("sec-ch-ua-platform"@.len() != "sec-ch-ua-mobile"@.len());
    assert("connection"@[0] != "user-agent"@[0]);
    assert("connection"@.len() != "accept"@.len());
    assert("connection"@.len() != "accept-language"@.len());
    assert("connection"@.len() != "sec-ch-ua"@.len());
    assert("connection"@.len() != "sec-ch-ua-mobile"@.len());
    assert("connection"@.len() != "sec-ch-ua-platform"@.len());
    assert("upgrade-insecure-requests"@.len() != "user-agent"@.len());
    assert("upgrade-insecure-requests"@.len() != "accept"@.len());
    assert("upgrade-insecure-requests"@.len() != "accept-language"@.len());
    assert("upgrade-insecure-requests"@.len() != "sec-ch-ua"@.len());
    assert("upgrade-insecure-requests"@.len() != "sec-ch-ua-mobile"@.len());
    assert("upgrade-insecure-requests"@.len() != "sec-ch-ua-platform"@.len());
    assert("upgrade-insecure-requests"@.len() != "connection"@.len());
    assert("sec-fetch-dest"@.len() != "user-agent"@.len());
    assert("sec-fetch-dest"@.len() != "accept"@.len());
    assert("sec-fetch-dest"@.len() != "accept-language"@.len());
    assert("sec-fetch-dest"@.len() != "sec-ch-ua"@.len());
    assert("sec-fetch-dest"@.len() != "sec-ch-ua-mobile"@.len());
    assert("sec-fetch-dest"@.len() != "sec-ch-ua-platform"@.len());
    assert("sec-fetch-dest"@.len() != "connection"@.len());
    assert("sec-fetch-dest"@.len() != "upgrade-insecure-requests"@.len());
    assert("sec-fetch-mode"@.len() != "user-agent"@.len());
    assert("sec-fetch-mode"@.len() != "accept"@.len());
    assert("sec-fetch-mode"@.len() != "accept-language"@.len());
    assert("sec-fetch-mode"@.len() != "sec-ch-ua"@.len());
    assert("sec-fetch-mode"@.len() != "sec-ch-ua-mobile"@.len());
    assert("sec-fetch-mode"@.len() != "sec-ch-ua-platform"@.len());
    assert("sec-fetch-mode"@.len() != "connection"@.len());
    assert("sec-fetch-mode"@.len() != "upgrade-insecure-requests"@.len());
    assert("sec-fetch-mode"@[10] != "sec-fetch-dest"@[10]);
    assert("sec-fetch-site"@.len() != "user-agent"@.len());
    assert("sec-fetch-site"@.len() != "accept"@.len());
    assert("sec-fetch-site"@.len() != "accept-language"@.len());
    assert("sec-fetch-site"@.len() != "sec-ch-ua"@.len());
    assert("sec-fetch-site"@.len() != "sec-ch-ua-mobile"@.len());
    assert("sec-fetch-site"@.len() != "sec-ch-ua-platform"@.len());
    assert("sec-fetch-site"@.len() != "connection"@.len());
    assert("sec-fetch-site"@.len() != "upgrade-insecure-requests"@.len());
    assert("sec-fetch-site"@[10] != "sec-fetch-dest"@[10]);
    assert("sec-fetch-site"@[10] != "sec-fetch-mode"@[10]);
    assert("sec-fetch-user"@.len() != "user-agent"@.len());
    assert("sec-fetch-user"@.len() != "accept"@.len());
    assert("sec-fetch-user"@.len() != "accept-language"@.len());
    assert("sec-fetch-user"@.len() != "sec-ch-ua"@.len());
    assert("sec-fetch-user"@.len() != "sec-ch-ua-mobile"@.len());
    assert("sec-fetch-user"@.len() != "sec-ch-ua-platform"@.len());
    assert("sec-fetch-user"@.len() != "connection"@.len());
    assert("sec-fetch-user"@.len() != "upgrade-insecure-requests"@.len());
    assert("sec-fetch-user"@[10] != "sec-fetch-dest"@[10]);
    assert("sec-fetch-user"@[10] != "sec-fetch-mode"@[10]);
    assert("sec-fetch-user"@[10] != "sec-fetch-site"@[10]);
    assert("accept-encoding"@.len() != "user-agent"@.len());
    assert("accept-encoding"@.len() != "accept"@.len());
    assert("accept-encoding"@[7] != "accept-language"@[7]);
    assert("accept-encoding"@.len() != "sec-ch-ua"@.len());
    assert("accept-encoding"@.len() != "sec-ch-ua-mobile"@.len());
    assert("accept-encoding"@.len() != "sec-ch-ua-platform"@.len());
    assert("accept-encoding"@.len() != "connection"@.len());
    assert("accept-encoding"@.len() != "upgrade-insecure-requests"@.len());
    assert("accept-encoding"@.len() != "sec-fetch-dest"@.len());
    assert("accept-encoding"@.len() != "sec-fetch-mode"@.len());
    assert("accept-encoding"@.len() != "sec-fetch-site"@.len());
    assert("accept-encoding"@.len() != "sec-fetch-user"@.len());
    assert("host"@.len() != "user-agent"@.len());
    assert("host"@.len() != "accept"@.len());
    assert("host"@.len() != "accept-language"@.len());
    assert("host"@.len() != "sec-ch-ua"@.len());
    assert("host"@.len() != "sec-ch-ua-mobile"@.len());
    assert("host"@.len() != "sec-ch-ua-platform"@.len());
    assert("host"@.len() != "connection"@.len());
    assert("host"@.len() != "upgrade-insecure-requests"@.len());
    assert("host"@.len() != "sec-fetch-dest"@.len());
    assert("host"@.len() != "sec-fetch-mode"@.len());
    assert("host"@.len() != "sec-fetch-site"@.len());
    assert("host"@.len() != "sec-fetch-user"@.len());
    assert("host"@.len() != "accept-encoding"@.len());
}

/// Reading a header back from the default headers gives what the identity
/// says for it: for a lower-case name the identity lists, with a valid value,
/// and not listed again later (in any case), the map's value for it is the
/// identity's value, as bytes.
pub proof fn lemma_default_header_read_back(id: Identity, names: Seq<Seq<char>>, k: int)
    requires
        0 <= k < names.len(),
        stored_header(id, names[k]),
        lowercase_name(names[k]) == names[k],
        forall|j: int| k < j < names.len() ==> lowercase_name(#[trigger] names[j]) != names[k],
    ensures
        header_lookup(identity_headers(id, names), names[k])
            == Some(encode_utf8(identity_header_value(id, names[k])->0)),
    decreases names.len(),
{
    let last = names.len() - 1;
    let init = names.drop_last();
    let prev = identity_headers(id, init);
    let n = names[last];
    if k == last {
        let w = encode_utf8(identity_header_value(id, n)->0);
        lemma_entries_insert_lookup(prev, n, w, n);
    } else {
        assert(init[k] == names[k]);
        assert forall|j: int| k < j < init.len() implies lowercase_name(#[trigger] init[j]) != init[k] by {
            assert(init[j] == names[j]);
        }
        lemma_default_header_read_back(id, init, k);
        if stored_header(id, n) {
            let w = encode_utf8(identity_header_value(id, n)->0);
            assert(lowercase_name(names[last]) != names[k]);
            lemma_entries_insert_lookup(prev, lowercase_name(n), w, names[k]);
        }
    }
}

/// Whether the identity's header `name` gets stored: the identity gives it
/// a value and both name and value are valid HTTP.
pub open spec fn stored_header(id: Identity, name: Seq<char>) -> bool {
    match identity_header_value(id, name) {
        Some(v) => valid_header_name(name) && valid_header_value(encode_utf8(v)),
        None => false,
    }
}

/// The (lower-cased) names that get stored, in the order listed.
pub open spec fn stored_names(id: Identity, names: Seq<Seq<char>>) -> Seq<Seq<char>>
    decreases names.len(),
{
    if names.len() == 0 {
        Seq::empty()
    } else if stored_header(id, names.last()) {
        stored_names(id, names.drop_last()).push(lowercase_name(names.last()))
    } else {
        stored_names(id, names.drop_last())
    }
}

/// When an identity lists each header once, its default headers are held in
/// the order the identity lists them, leaving out those it has no valid
/// value for.
pub proof fn lemma_headers_follow_identity_order(id: Identity, names: Seq<Seq<char>>)
    requires
        names.map_values(|n: Seq<char>| lowercase_name(n)).no_duplicates(),
    ensures
        entry_names(identity_headers(id, names)) == stored_names(id, names),
        forall|k: int| 0 <= k < entry_names(identity_headers(id, names)).len() ==> exists|j: int|
            0 <= j < names.len() && #[trigger] entry_names(identity_headers(id, names))[k] == lowercase_name(names[j]),
    decreases names.len(),
{
    if names.len() > 0 {
        let init = names.drop_last();
        let lowered = names.map_values(|n: Seq<char>| lowercase_name(n));
        assert(init.map_values(|n: Seq<char>| lowercase_name(n)) =~= lowered.drop_last());
        lemma_headers_follow_identity_order(id, init);
        let prev = identity_headers(id, init);
        let last = names.last();
        lemma_name_index(prev, lowercase_name(last));
        if stored_header(id, last) {
            let v = identity_header_value(id, last)->0;
            if let Some(i) = name_index(prev, lowercase_name(last)) {
                let j = choose|j: int| 0 <= j < init.len() && entry_names(prev)[i] == lowercase_name(init[j]);
                assert(lowered[j] == lowered[names.len() - 1]);
            }
            assert(entry_names(entries_insert(prev, lowercase_name(last), encode_utf8(v)))
                =~= entry_names(prev).push(lowercase_name(last)));
            let after = entry_names(identity_headers(id, names));
            assert forall|k: int| 0 <= k < after.len() implies exists|j: int|
                0 <= j < names.len() && #[trigger] after[k] == lowercase_name(names[j]) by {
                if k < after.len() - 1 {
                    let j = choose|j: int| 0 <= j < init.len() && entry_names(prev)[k] == lowercase_name(init[j]);
                    assert(names[j] == init[j]);
                } else {
                    assert(after[k] == lowercase_name(names[names.len() - 1]));
                }
            }
        } else {
            let after = entry_names(identity_headers(id, names));
            assert forall|k: int| 0 <= k < after.len() implies exists|j: int|
                0 <= j < names.len() && #[trigger] after[k] == lowercase_name(names[j]) by {
                let j = choose|j: int| 0 <= j < init.len() && entry_names(prev)[k] == lowercase_name(init[j]);
                assert(names[j] == init[j]);
            }
        }
    }
}

/// The names under which identity headers can be stored.
pub open spec fn identity_header_keys() -> Set<Seq<char>> {
    set![lowercase_name("user-agent"@), lowercase_name("accept"@), lowercase_name("accept-language"@),
        lowercase_name("sec-ch-ua"@), lowercase_name("sec-ch-ua-mobile"@),
        lowercase_name("sec-ch-ua-platform"@), lowercase_name("connection"@),
        lowercase_name("upgrade-insecure-requests"@), lowercase_name("sec-fetch-dest"@),
        lowercase_name("sec-fetch-mode"@), lowercase_name("sec-fetch-site"@),
        lowercase_name("sec-fetch-user"@), lowercase_name("accept-encoding"@)]
}

fn copy_opt(o: &Option<String>) -> (r: Option<String>)
    ensures
        opt_view(r) == opt_view(*o),
{
    match o {
        Some(s) => Some(s.clone()),
        None => None,
    }
}

/// The value the identity gives to the header `name`, if it is one it knows.
pub fn identity_header(identity: &Identity, name: &str) -> (r: Option<String>)
    ensures
        opt_view(r) == identity_header_value(*identity, name@),
{
    if same_text(name, "user-agent") {
        Some(identity.user_agent.clone())
    } else if same_text(name, "accept") {
        Some(identity.accept.clone())
    } else if same_text(name, "accept-language") {
        Some(identity.accept_language.clone())
    } else if same_text(name, "sec-ch-ua") {
        copy_opt(&identity.sec_ch_ua)
    } else if same_text(name, "sec-ch-ua-mobile") {
        copy_opt(&identity.sec_ch_ua_mobile)
    } else if same_text(name, "sec-ch-ua-platform") {
        copy_opt(&identity.sec_ch_ua_platform)
    } else if same_text(name, "connection") {
        Some("keep-alive".to_string())
    } else if same_text(name, "upgrade-insecure-requests") {
        Some("1".to_string())
    } else if same_text(name, "sec-fetch-dest") {
        Some("document".to_string())
    } else if same_text(name, "sec-fetch-mode") {
        Some("navigate".to_string())
    } else if same_text(name, "sec-fetch-site") {
        Some("none".to_string())
    } else if same_text(name, "sec-fetch-user") {
        Some("?1".to_string())
    } else if same_text(name, "accept-encoding") {
        Some("gzip, deflate, br".to_string())
    } else {
        None
    }
}

/// The default headers a client with this identity sends, filled in the
/// identity's header order.
pub fn build_default_headers(identity: &Identity) -> (r: HeaderMap)
    ensures
        header_map_contents(r) == identity_headers(*identity, names_view(identity.header_order@)),
{
    let mut headers = header_map_new();
    let ghost names = names_view(identity.header_order@);
    let mut i: usize = 0;
    assert(names.take(0) =~= Seq::<Seq<char>>::empty());
    while i < identity.header_order.len()
        invariant
            i <= identity.header_order.len(),
            names == names_view(identity.header_order@),
            header_map_contents(headers) == identity_headers(*identity, names.take(i as int)),
            entry_names(header_map_contents(headers)).no_duplicates(),
            entry_names(header_map_contents(headers)).to_set().subset_of(identity_header_keys()),
        decreases identity.header_order.len() - i,
    {
        let name = identity.header_order[i].as_str();
        assert(names.take(i + 1).drop_last() =~= names.take(i as int));
        assert(names.take(i + 1).last() == name@);
        match identity_header(identity, name) {
            Some(v) => {
                let ghost before = header_map_contents(headers);
                proof {
                    entry_names(before).unique_seq_to_set();
                    vstd::set_lib::lemma_len_subset(entry_names(before).to_set(), identity_header_keys());
                    lemma_entries_insert(before, lowercase_name(name@), encode_utf8(v@));
                }
                if header_name_valid(name) && header_value_valid(v.as_str()) {
                    header_map_insert(&mut headers, name, v.as_str());
                }
            },
            None => {},
        }
        i = i + 1;
    }
    assert(names.take(names.len() as int) =~= names);
    headers
}

/// One cookie as the `Cookie` header carries it: `name=value`.
pub open spec fn cookie_pair_text(name: Seq<char>, value: Seq<char>) -> Seq<char> {
    name + "="@ + value
}

/// The cookies' `name=value` texts joined by `"; "`.
pub open spec fn joined_cookies(pairs: Seq<(Seq<char>, Seq<char>)>) -> Seq<char>
    decreases pairs.len(),
{
    if pairs.len() == 0 {
        Seq::empty()
    } else if pairs.len() == 1 {
        cookie_pair_text(pairs[0].0, pairs[0].1)
    } else {
        joined_cookies(pairs.drop_last()) + "; "@ + cookie_pair_text(pairs.last().0, pairs.last().1)
    }
}

/// One cookie makes the text `name=value`; joining two non-empty runs of
/// cookies puts `"; "` between their texts. Together these fix the text of
/// every run: each cookie's `name=value`, in order, with `"; "` between
/// every two neighbours.
pub proof fn lemma_joined_cookies_concat(p: Seq<(Seq<char>, Seq<char>)>, q: Seq<(Seq<char>, Seq<char>)>)
    requires
        p.len() > 0,
        q.len() > 0,
    ensures
        joined_cookies(p + q) == joined_cookies(p) + "; "@ + joined_cookies(q),
        joined_cookies(seq![p[0]]) == p[0].0 + "="@ + p[0].1,
    decreases q.len(),
{
    if q.len() == 1 {
        assert((p + q).drop_last() =~= p);
        assert((p + q).last() == q[0]);
    } else {
        let q0 = q.drop_last();
        lemma_joined_cookies_concat(p, q0);
        assert((p + q).drop_last() =~= p + q0);
        assert((p + q).last() == q.last());
        assert(joined_cookies(p + q) == joined_cookies(p + q0) + "; "@ + cookie_pair_text(q.last().0, q.last().1));
        assert(joined_cookies(q) == joined_cookies(q0) + "; "@ + cookie_pair_text(q.last().0, q.last().1));
        assert(joined_cookies(p) + "; "@ + joined_cookies(q0) + "; "@ + cookie_pair_text(q.last().0, q.last().1)
            =~= joined_cookies(p) + "; "@ + (joined_cookies(q0) + "; "@ + cookie_pair_text(q.last().0, q.last().1)));
    }
}

pub open spec fn pairs_view(pairs: Seq<(String, String)>) -> Seq<(Seq<char>, Seq<char>)> {
    pairs.map_values(|p: (String, String)| (p.0@, p.1@))
}

/// The text of the `Cookie` header for the given (name, value) cookies, or
/// `None` when that text would be empty.
pub fn cookie_header_text(pairs: &Vec<(String, String)>) -> (r: Option<String>)
    ensures
        match r {
            Some(s) => s@ == joined_cookies(pairs_view(pairs@)) && s@.len() > 0,
            None => joined_cookies(pairs_view(pairs@)).len() == 0,
        },
{
    let ghost pv = pairs_view(pairs@);
    let mut out = String::new();
    let mut i: usize = 0;
    assert(pv.take(0) =~= Seq::<(Seq<char>, Seq<char>)>::empty());
    while i < pairs.len()
        invariant
            i <= pairs.len(),
            pv == pairs_view(pairs@),
            out@ == joined_cookies(pv.take(i as int)),
        decreases pairs.len() - i,
    {
        assert(pv.take(i + 1).drop_last() =~= pv.take(i as int));
        assert(pv[i as int] == (pairs@[i as int].0@, pairs@[i as int].1@));
        if i > 0 {
            out.append("; ");
        }
        out.append(pairs[i].0.as_str());
        out.append("=");
        out.append(pairs[i].1.as_str());
        i = i + 1;
    }
    assert(pv.take(pairs.len() as int) =~= pv);
    if out.as_str().is_empty() {
        None
    } else {
        Some(out)
    }
}

} // verus!
