//! A response cache keyed by request, with lifetimes taken from the
//! `Cache-Control` header.
use vstd::prelude::*;
use reqwest::header::HeaderMap;
use std::collections::hash_map::DefaultHasher;
use std::collections::HashMap;
use std::hash::Hasher;
use std::time::Instant;
use vstd::std_specs::hash::DefaultHasherAdditionalSpecFns;
use vstd::utf8::encode_utf8;
use crate::http::headers::{header_map_clone, header_map_contents};
use crate::http::response::HttpResponse;
use crate::text::{
    chars_of, contains, decimal, is_digit, lemma_absent_first_char, lemma_decimal, lemma_parse_decimal,
    lemma_split_none, lemma_split_pair, lemma_trim_plain, parse_u64_in, parse_u64_spec, seq_contains, split_on, split_ranges,
    starts_with, starts_with_in, trim, trim_range,
};

verus! {

broadcast use vstd::std_specs::hash::group_hash_axioms;

/// A point on the monotonic clock.
#[verifier::external_type_specification]
#[verifier::external_body]
pub struct ExInstant(Instant);

/// `Instant::now`: the current moment; nothing is claimed of it.
#[verifier::external_body]
pub(crate) fn instant_now() -> Instant {
    Instant::now()
}

/// `Instant::elapsed`, in nanoseconds (`Duration::as_nanos`): time since
/// `earlier`; nothing is claimed of it.
#[verifier::external_body]
pub(crate) fn nanos_since(earlier: &Instant) -> u128 {
    earlier.elapsed().as_nanos()
}

/// The lifetime given to responses whose `Cache-Control` sets none: five minutes.
pub const DEFAULT_TTL_SECS: u64 = 300;

/// A cached response.
#[derive(Debug)]
pub struct CachedEntry {
    pub status: u16,
    pub headers: HeaderMap,
    pub body: Vec<u8>,
    /// When the response was stored.
    pub cached_at: Instant,
    /// How long, in whole seconds, the entry may be served.
    pub ttl_secs: u64,
}

/// An entry stored `age_nanos` nanoseconds ago with a lifetime of
/// `ttl_secs` seconds may still be served.
pub open spec fn fresh(ttl_secs: u64, age_nanos: u128) -> bool {
    age_nanos <= ttl_secs * 1_000_000_000
}

/// Two entries hold the same response, stored at the same moment, for the same time.
pub open spec fn same_entry(a: CachedEntry, b: CachedEntry) -> bool {
    &&& a.status == b.status
    &&& header_map_contents(a.headers) == header_map_contents(b.headers)
    &&& a.body@ == b.body@
    &&& a.cached_at == b.cached_at
    &&& a.ttl_secs == b.ttl_secs
}

impl CachedEntry {
    /// Whether the entry may still be served `age_nanos` nanoseconds after
    /// it was stored.
    pub fn is_fresh_after(&self, age_nanos: u128) -> (r: bool)
        ensures
            r == fresh(self.ttl_secs, age_nanos),
    {
        age_nanos <= (self.ttl_secs as u128) * 1_000_000_000
    }

    /// A copy of the entry.
    pub fn duplicate(&self) -> (r: CachedEntry)
        ensures
            same_entry(r, *self),
    {
        let body = self.body.clone();
        assert(body@ =~= self.body@);
        CachedEntry {
            status: self.status,
            headers: header_map_clone(&self.headers),
            body,
            cached_at: self.cached_at,
            ttl_secs: self.ttl_secs,
        }
    }
}

/// The first `Cache-Control` directive that, once trimmed, begins with
/// `max-age=`.
pub open spec fn max_age_directive(segs: Seq<Seq<char>>) -> Option<Seq<char>>
    decreases segs.len(),
{
    if segs.len() == 0 {
        None
    } else if starts_with(trim(segs[0]), "max-age="@) {
        Some(segs[0])
    } else {
        max_age_directive(segs.drop_first())
    }
}

/// The lifetime a `max-age` directive sets: the trimmed text after its first
/// `=`, read as seconds; the default when that is not a number.
pub open spec fn directive_ttl(seg: Seq<char>) -> u64 {
    let pieces = split_on(seg, '=');
    if pieces.len() >= 2 {
        match parse_u64_spec(trim(pieces[1])) {
            Some(n) => n,
            None => DEFAULT_TTL_SECS,
        }
    } else {
        DEFAULT_TTL_SECS
    }
}

/// How long a response may be cached, given its `Cache-Control` header:
/// `None` when it must not be stored (`no-store` or `no-cache` anywhere in
/// the header), else the first `max-age` directive's value or five minutes.
pub open spec fn cache_ttl_secs(cache_control: Option<Seq<char>>) -> Option<u64> {
    match cache_control {
        None => Some(DEFAULT_TTL_SECS),
        Some(cc) => if seq_contains(cc, "no-store"@) || seq_contains(cc, "no-cache"@) {
            None
        } else {
            match max_age_directive(split_on(cc, ',')) {
                Some(seg) => Some(directive_ttl(seg)),
                None => Some(DEFAULT_TTL_SECS),
            }
        },
    }
}

/// The lifetime to give a response, or `None` when it must not be cached.
pub fn cache_ttl(cache_control: Option<&str>) -> (r: Option<u64>)
    ensures
        r == cache_ttl_secs(match cache_control {
            Some(cc) => Some(cc@),
            None => None,
        }),
{
    let cc = match cache_control {
        Some(cc) => cc,
        None => {
            return Some(DEFAULT_TTL_SECS);
        },
    };
    let c = chars_of(cc);
    if contains(&c, &chars_of("no-store")) || contains(&c, &chars_of("no-cache")) {
        return None;
    }
    let ghost whole = c@;
    assert(c@.subrange(0, c@.len() as int) =~= whole);
    let segs = split_ranges(&c, 0, c.len(), ',');
    let ghost pieces = split_on(whole, ',');
    let prefix = chars_of("max-age=");
    let mut i: usize = 0;
    assert(pieces.subrange(0, pieces.len() as int) =~= pieces);
    while i < segs.len()
        invariant
            i <= segs.len(),
            c@ == cc@,
            cache_control == Some(cc),
            whole == c@,
            !seq_contains(c@, "no-store"@),
            !seq_contains(c@, "no-cache"@),
            segs.len() == pieces.len(),
            pieces == split_on(c@, ','),
            prefix@ == "max-age="@,
            forall|k: int| 0 <= k < segs.len() ==> 0 <= (#[trigger] segs[k]).0 <= segs[k].1 <= c.len(),
            forall|k: int| 0 <= k < segs.len() ==> c@.subrange((#[trigger] segs[k]).0 as int, segs[k].1 as int) == pieces[k],
            max_age_directive(pieces) == max_age_directive(pieces.subrange(i as int, pieces.len() as int)),
        decreases segs.len() - i,
    {
        let (a, b) = segs[i];
        let (ta, tb) = trim_range(&c, a, b);
        let ghost rest = pieces.subrange(i as int, pieces.len() as int);
        assert(rest[0] == pieces[i as int]);
        if starts_with_in(&c, ta, tb, &prefix) {
            assert(c@.subrange(a as int, b as int) == pieces[i as int]);
            assert(max_age_directive(rest) == Some(pieces[i as int]));
            let ghost seg_pieces = split_on(pieces[i as int], '=');
            let parts = split_ranges(&c, a, b, '=');
            if parts.len() >= 2 {
                let (pa, pb) = parts[1];
                let (qa, qb) = trim_range(&c, pa, pb);
                assert(c@.subrange(pa as int, pb as int) == seg_pieces[1]);
                match parse_u64_in(&c, qa, qb) {
                    Some(n) => {
                        return Some(n);
                    },
                    None => {
                        return Some(DEFAULT_TTL_SECS);
                    },
                }
            }
            return Some(DEFAULT_TTL_SECS);
        }
        assert(rest.drop_first() =~= pieces.subrange(i + 1, pieces.len() as int));
        i = i + 1;
    }
    Some(DEFAULT_TTL_SECS)
}

/// A header that forbids storing (`no-store` or `no-cache` anywhere in it)
/// gives no lifetime; no header gives five minutes.
pub proof fn lemma_ttl_refusal_and_default(cc: Seq<char>)
    ensures
        seq_contains(cc, "no-store"@) ==> cache_ttl_secs(Some(cc)) is None,
        seq_contains(cc, "no-cache"@) ==> cache_ttl_secs(Some(cc)) is None,
        cache_ttl_secs(None) == Some(DEFAULT_TTL_SECS),
{
}

/// When the header allows storing, the first `max-age` directive whose
/// value (after `=`, trimmed) reads as the number `n` sets the lifetime to
/// exactly `n` seconds, whatever `n` is, zero included.
pub proof fn lemma_max_age_sets_ttl(cc: Seq<char>, seg: Seq<char>, n: u64)
    requires
        !seq_contains(cc, "no-store"@),
        !seq_contains(cc, "no-cache"@),
        max_age_directive(split_on(cc, ',')) == Some(seg),
        split_on(seg, '=').len() >= 2,
        parse_u64_spec(trim(split_on(seg, '=')[1])) == Some(n),
    ensures
        cache_ttl_secs(Some(cc)) == Some(n),
{
}

/// The header `max-age=N`, with `N` written in decimal, keeps a response
/// for `N` seconds, for every `N`.
pub proof fn lemma_max_age_round_trip(n: u64)
    ensures
        cache_ttl_secs(Some("max-age="@ + decimal(n as nat))) == Some(n),
{
    reveal_strlit("max-age=");
    reveal_strlit("max-age");
    reveal_strlit("no-store");
    reveal_strlit("no-cache");
    let d = decimal(n as nat);
    let cc = "max-age="@ + d;
    lemma_parse_decimal(n);
    lemma_decimal(n as nat);
    assert forall|i: int| 0 <= i < cc.len() implies cc[i] != 'n' && cc[i] != ',' by {
        if i >= 8 {
            assert(cc[i] == d[i - 8]);
            assert(is_digit(d[i - 8]));
        }
    }
    lemma_absent_first_char(cc, "no-store"@);
    lemma_absent_first_char(cc, "no-cache"@);
    lemma_split_none(cc, ',');
    assert(cc[0] == 'm');
    assert(is_digit(cc.last()));
    lemma_trim_plain(cc);
    assert(cc.subrange(0, 8) =~= "max-age="@);
    assert(starts_with(trim(cc), "max-age="@));
    assert(split_on(cc, ',').drop_first() =~= Seq::<Seq<char>>::empty());
    assert(max_age_directive(split_on(cc, ',')) == Some(cc));
    assert forall|i: int| 0 <= i < d.len() implies d[i] != '=' by {
        assert(is_digit(d[i]));
    }
    assert(cc =~= "max-age"@ + seq!['='] + d);
    lemma_split_pair("max-age"@, d, '=');
    assert(is_digit(d[0]) && is_digit(d.last()));
    lemma_trim_plain(d);
}

/// A stored entry is served for exactly its lifetime: at any age up to
/// `ttl_secs` seconds (in nanoseconds) it comes back unchanged, at any later
/// age it does not; and an entry that is served at some age is served at
/// every younger age. A key with nothing stored is never served.
pub proof fn lemma_served_for_its_lifetime(m: Map<u64, CachedEntry>, key: u64, age: u128, younger: u128)
    ensures
        m.contains_key(key) && age <= m[key].ttl_secs as int * 1_000_000_000
            ==> served(m, key, age) == Some(m[key]),
        m.contains_key(key) && age > m[key].ttl_secs as int * 1_000_000_000 ==> served(m, key, age) is None,
        served(m, key, age) is Some && younger <= age ==> served(m, key, younger) == served(m, key, age),
        !m.contains_key(key) ==> served(m, key, age) is None,
{
}

/// The bytes a string contributes when it is hashed with `Hash`: its UTF-8
/// bytes, then the terminator `0xff`.
pub open spec fn str_hash_writes(s: Seq<char>) -> Seq<Seq<u8>> {
    seq![encode_utf8(s), seq![0xffu8]]
}

/// The writes that hashing a request's method, URL and optional `Accept`
/// value makes, in that order.
pub open spec fn cache_key_writes(method: Seq<char>, url: Seq<char>, accept: Option<Seq<char>>) -> Seq<Seq<u8>> {
    str_hash_writes(method) + str_hash_writes(url) + match accept {
        Some(a) => str_hash_writes(a),
        None => Seq::<Seq<u8>>::empty(),
    }
}

/// Feeds `s` to the hasher as `<str as Hash>::hash` does.
fn hash_str(hasher: &mut DefaultHasher, s: &str)
    ensures
        final(hasher)@ == old(hasher)@ + str_hash_writes(s@),
{
    hasher.write(s.as_bytes());
    let end: [u8; 1] = [0xff];
    hasher.write(end.as_slice());
    assert(end@ =~= seq![0xffu8]);
    assert(hasher@ =~= old(hasher)@ + str_hash_writes(s@));
}

/// A response cache: for each request key, the response last stored under it.
#[derive(Debug, Default)]
pub struct RequestCache {
    entries: HashMap<u64, CachedEntry>,
}

impl View for RequestCache {
    type V = Map<u64, CachedEntry>;

    closed spec fn view(&self) -> Map<u64, CachedEntry> {
        self.entries@
    }
}

/// `after` is `before` with the response (`status`, `headers`, `body`)
/// stored under `key` for `ttl` seconds.
pub open spec fn stores_response(
    before: Map<u64, CachedEntry>,
    after: Map<u64, CachedEntry>,
    key: u64,
    status: u16,
    headers: Seq<(Seq<char>, Seq<Seq<u8>>)>,
    body: Seq<u8>,
    ttl: u64,
) -> bool {
    &&& after.dom() == before.dom().insert(key)
    &&& forall|k: u64| k != key && #[trigger] before.contains_key(k) ==> after[k] == before[k]
    &&& after[key].status == status
    &&& header_map_contents(after[key].headers) == headers
    &&& after[key].body@ == body
    &&& after[key].ttl_secs == ttl
}

/// What a cache holding `m` serves for `key`, the entry under it having
/// been stored `age_nanos` nanoseconds ago.
pub open spec fn served(m: Map<u64, CachedEntry>, key: u64, age_nanos: u128) -> Option<CachedEntry> {
    if m.contains_key(key) && fresh(m[key].ttl_secs, age_nanos) {
        Some(m[key])
    } else {
        None
    }
}

impl RequestCache {
    /// An empty cache.
    pub fn new() -> (r: RequestCache)
        ensures
            r@ == Map::<u64, CachedEntry>::empty(),
    {
        RequestCache { entries: HashMap::new() }
    }

    /// The key under which a request is cached: the default hasher's digest
    /// of its method, URL and, when given, `Accept` value.
    pub fn generate_cache_key(method: &str, url: &str, accept: Option<&str>) -> (r: u64)
        ensures
            r == DefaultHasher::spec_finish(cache_key_writes(method@, url@, match accept {
                Some(a) => Some(a@),
                None => None,
            })),
    {
        let mut hasher = DefaultHasher::new();
        hash_str(&mut hasher, method);
        hash_str(&mut hasher, url);
        if let Some(a) = accept {
            hash_str(&mut hasher, a);
        }
        let ghost accept_view = match accept {
            Some(a) => Some(a@),
            None => None,
        };
        assert(hasher@ =~= cache_key_writes(method@, url@, accept_view));
        hasher.finish()
    }

    /// The entry stored under `key`, however old.
    pub fn entry(&self, key: u64) -> (r: Option<&CachedEntry>)
        ensures
            match r {
                Some(e) => self@.contains_key(key) && *e == self@[key],
                None => !self@.contains_key(key),
            },
    {
        self.entries.get(&key)
    }

    /// The entry under `key`, copied, when it was stored at most its lifetime
    /// before `age_nanos` says.
    pub fn serve(&self, key: u64, age_nanos: u128) -> (r: Option<CachedEntry>)
        ensures
            match served(self@, key, age_nanos) {
                Some(e) => r matches Some(c) && same_entry(c, e),
                None => r is None,
            },
    {
        match self.entries.get(&key) {
            Some(entry) => {
                if entry.is_fresh_after(age_nanos) {
                    Some(entry.duplicate())
                } else {
                    None
                }
            },
            None => None,
        }
    }

    /// The cached response for `key`, if one is stored and its lifetime has
    /// not run out by the clock.
    pub fn get(&self, key: u64) -> (r: Option<CachedEntry>)
        ensures
            !self@.contains_key(key) ==> r is None,
            r matches Some(c) ==> self@.contains_key(key) && same_entry(c, self@[key]),
    {
        match self.entry(key) {
            Some(entry) => {
                let age = nanos_since(&entry.cached_at);
                self.serve(key, age)
            },
            None => None,
        }
    }

    /// Stores `response` under `key` for the lifetime that its
    /// `Cache-Control` header allows; stores nothing when it forbids caching.
    pub fn insert(&mut self, key: u64, response: &HttpResponse, cache_control_header: Option<&str>)
        ensures
            match cache_ttl_secs(match cache_control_header {
                Some(cc) => Some(cc@),
                None => None,
            }) {
                None => final(self)@ == old(self)@,
                Some(ttl) => stores_response(old(self)@, final(self)@, key, response.status,
                    header_map_contents(response.headers), response.body@, ttl),
            },
    {
        let ttl = match cache_ttl(cache_control_header) {
            Some(t) => t,
            None => {
                return;
            },
        };
        let body = response.body.clone();
        assert(body@ =~= response.body@);
        let entry = CachedEntry {
            status: response.status,
            headers: header_map_clone(&response.headers),
            body,
            cached_at: instant_now(),
            ttl_secs: ttl,
        };
        self.entries.insert(key, entry);
        assert(self@.dom() =~= old(self)@.dom().insert(key));
    }
}

/// A stored response is served back, with the status, headers and body it
/// was stored with, exactly while its lifetime lasts; every other key is
/// served as before.
pub proof fn lemma_read_after_write(
    before: Map<u64, CachedEntry>,
    after: Map<u64, CachedEntry>,
    key: u64,
    status: u16,
    headers: Seq<(Seq<char>, Seq<Seq<u8>>)>,
    body: Seq<u8>,
    ttl: u64,
    age_nanos: u128,
)
    requires
        stores_response(before, after, key, status, headers, body, ttl),
    ensures
        served(after, key, age_nanos) is Some <==> age_nanos <= ttl * 1_000_000_000,
        served(after, key, age_nanos) matches Some(e) ==> e.status == status
            && header_map_contents(e.headers) == headers && e.body@ == body,
        forall|k: u64| k != key ==> #[trigger] served(after, k, age_nanos) == served(before, k, age_nanos),
{
    assert(after.dom().contains(key));
    assert forall|k: u64| k != key implies #[trigger] served(after, k, age_nanos) == served(before, k, age_nanos) by {
        assert(after.dom().contains(k) == before.dom().contains(k));
    }
}

/// A response is refused by the cache exactly when its `Cache-Control`
/// header mentions `no-store` or `no-cache`.
pub proof fn lemma_uncacheable(cc: Seq<char>)
    ensures
        cache_ttl_secs(Some(cc)) is None <==> (seq_contains(cc, "no-store"@) || seq_contains(cc, "no-cache"@)),
{
}

} // verus!
