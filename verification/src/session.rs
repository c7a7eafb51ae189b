//! Sessions: a browser identity with its own cookie jar, and a store that
//! hands out the same session for the same id.
use vstd::prelude::*;
use cookie_store::CookieStore;
use serde::Deserialize;
use std::sync::{Arc, PoisonError, RwLock, RwLockReadGuard, RwLockWriteGuard};
use uuid::Uuid;
use crate::error::{Result, ScoutError};
use crate::identity::{is_coherent, is_known_identity, Identity};
use vstd::hash_map::StringHashMap;

verus! {

/// A session's random identifier.
#[verifier::external_type_specification]
#[verifier::external_body]
pub struct ExUuid(Uuid);

/// `cookie_store`'s cookie jar.
#[verifier::external_type_specification]
#[verifier::external_body]
pub struct ExCookieStore(CookieStore);

/// std's reader-writer lock.
#[verifier::external_type_specification]
#[verifier::external_body]
#[verifier::reject_recursive_types(T)]
pub struct ExRwLock<T: ?Sized>(RwLock<T>);

/// Shared access to a value behind a `RwLock`.
#[verifier::external_type_specification]
#[verifier::external_body]
#[verifier::reject_recursive_types(T)]
pub struct ExRwLockReadGuard<'a, T: ?Sized>(RwLockReadGuard<'a, T>);

/// Exclusive access to a value behind a `RwLock`.
#[verifier::external_type_specification]
#[verifier::external_body]
#[verifier::reject_recursive_types(T)]
pub struct ExRwLockWriteGuard<'a, T: ?Sized + 'a>(RwLockWriteGuard<'a, T>);

/// The error of a lock that a panic left poisoned; it still holds the guard.
#[verifier::external_type_specification]
#[verifier::external_body]
#[verifier::reject_recursive_types(T)]
pub struct ExPoisonError<T>(PoisonError<T>);

/// `Uuid::new_v4`: a random identifier; nothing is claimed of it.
#[verifier::external_body]
pub(crate) fn new_v4_uuid() -> Uuid {
    Uuid::new_v4()
}

/// `CookieStore::default`: an empty jar. The jar then sits behind a lock
/// shared with the HTTP client, so nothing is claimed of its contents.
#[verifier::external_body]
pub(crate) fn empty_cookie_store() -> CookieStore {
    CookieStore::default()
}

/// `RwLock::new`: a lock around `store`.
#[verifier::external_body]
pub(crate) fn lock_store(store: CookieStore) -> RwLock<CookieStore> {
    RwLock::new(store)
}

/// `Arc::clone`: another handle on the same session.
#[verifier::external_body]
pub(crate) fn share_session(s: &Arc<Session>) -> (r: Arc<Session>)
    ensures
        r == *s,
{
    Arc::clone(s)
}

/// Text framed as a JSON array: it opens with `[` and closes with `]`.
pub open spec fn json_array_text(s: Seq<char>) -> bool {
    s.len() >= 2 && s[0] == '[' && s.last() == ']'
}

/// Whether `<CookieStore as Deserialize>::deserialize`, reading JSON text
/// from its start, accepts `json`: a JSON array of well-formed cookies.
pub uninterp spec fn cookie_json_accepted(json: Seq<char>) -> bool;

/// The text of the error (its `Display`: message, line and column) that
/// `<CookieStore as Deserialize>::deserialize` gives for `json`.
pub uninterp spec fn cookie_json_error(json: Seq<char>) -> Seq<char>;

/// JSON whitespace: space, line feed, tab, carriage return.
pub open spec fn json_space(c: char) -> bool {
    c == ' ' || c == '\n' || c == '\t' || c == '\r'
}

/// The text's first character other than JSON whitespace is `[`.
pub open spec fn opens_json_array(s: Seq<char>) -> bool {
    exists|i: int| 0 <= i < s.len() && #[trigger] s[i] == '[' && forall|j: int| 0 <= j < i ==> json_space(s[j])
}

/// `RwLock::read`: waits for shared access to the jar. It fails when a
/// thread panicked while it held the lock; the error still holds the guard.
/// Which of the two comes back depends on other threads, so nothing is
/// claimed.
#[verifier::external_body]
pub(crate) fn read_jar<'a>(jar: &'a RwLock<CookieStore>)
    -> std::result::Result<RwLockReadGuard<'a, CookieStore>, PoisonError<RwLockReadGuard<'a, CookieStore>>>
{
    jar.read()
}

/// `PoisonError::into_inner`: the guard that a poisoned `read` holds.
#[verifier::external_body]
pub(crate) fn read_guard_of<'a>(e: PoisonError<RwLockReadGuard<'a, CookieStore>>) -> RwLockReadGuard<'a, CookieStore> {
    e.into_inner()
}

/// `RwLock::write`: waits for exclusive access to the jar; as `read_jar`,
/// it fails, still holding the guard, when the lock was poisoned.
#[verifier::external_body]
pub(crate) fn write_jar<'a>(jar: &'a RwLock<CookieStore>)
    -> std::result::Result<RwLockWriteGuard<'a, CookieStore>, PoisonError<RwLockWriteGuard<'a, CookieStore>>>
{
    jar.write()
}

/// `PoisonError::into_inner`: the guard that a poisoned `write` holds.
#[verifier::external_body]
pub(crate) fn write_guard_of<'a>(e: PoisonError<RwLockWriteGuard<'a, CookieStore>>) -> RwLockWriteGuard<'a, CookieStore> {
    e.into_inner()
}

/// `serde_json::to_string` on the guarded jar (its `Serialize` impl, writing
/// JSON bytes that are then taken as a `String`); an error comes back as its
/// text. Claimed: a text that comes back is a JSON array (the jar serializes
/// as a sequence, which `serde_json` writes between `[` and `]`). Not
/// claimed: which cookies it lists (that depends on the jar, which the
/// client fills, and on the clock, as expired cookies are left out); when
/// serializing fails (an expiry time that cannot be formatted); and that
/// `cookie_json_accepted` holds of the text. The last holds for cookies that
/// came from parsed `Set-Cookie` headers, but not for every jar: a cookie put
/// in with `CookieStore::insert_raw` and an empty name is written as `"=v"`,
/// which the deserializer refuses.
#[verifier::external_body]
pub(crate) fn cookies_to_json(store: &RwLockReadGuard<'_, CookieStore>) -> (r: std::result::Result<String, String>)
    ensures
        r matches Ok(s) ==> json_array_text(s@),
{
    serde_json::to_string(&**store).map_err(|e| e.to_string())
}

/// `<CookieStore as Deserialize>::deserialize` from a
/// `serde_json::Deserializer` over the text's bytes; an error comes back as
/// its text. Claimed: it succeeds exactly on the texts that the name
/// `cookie_json_accepted` holds of, which depends on the text alone (the
/// clock only decides which accepted cookies are kept); the empty array
/// `[]` is one of them; a text whose first character other than JSON
/// whitespace is not `[`, or that has none, is refused (`deserialize_seq`
/// errs unless it finds `[` there); and the error's text is the one the
/// name `cookie_json_error` gives for the input, which depends on the text
/// alone. Which cookies the jar then holds is not claimed.
#[verifier::external_body]
pub(crate) fn cookies_from_json(json: &str) -> (r: std::result::Result<CookieStore, String>)
    ensures
        r is Ok <==> cookie_json_accepted(json@),
        json@ == "[]"@ ==> r is Ok,
        !opens_json_array(json@) ==> r is Err,
        r matches Err(m) ==> m@ == cookie_json_error(json@),
{
    let mut de = serde_json::Deserializer::from_slice(json.as_bytes());
    CookieStore::deserialize(&mut de).map_err(|e| e.to_string())
}

/// Assignment through the write guard: the jar becomes `store`.
#[verifier::external_body]
pub(crate) fn replace_cookies(guard: &mut RwLockWriteGuard<'_, CookieStore>, store: CookieStore) {
    **guard = store;
}

/// `CookieStore::clear` through the write guard.
#[verifier::external_body]
pub(crate) fn clear_cookie_store(guard: &mut RwLockWriteGuard<'_, CookieStore>) {
    guard.clear();
}

/// Shared access to a jar. A lock poisoned by a panic elsewhere is used as
/// it stands: the jar is only ever replaced whole, cleared or added to, so
/// a panic cannot have left it half-changed, and this library does not
/// panic.
fn jar_for_reading<'a>(jar: &'a RwLock<CookieStore>) -> RwLockReadGuard<'a, CookieStore> {
    match read_jar(jar) {
        Ok(guard) => guard,
        Err(poisoned) => read_guard_of(poisoned),
    }
}

/// Exclusive access to a jar, a poisoned lock used as it stands (see
/// `jar_for_reading`).
fn jar_for_writing<'a>(jar: &'a RwLock<CookieStore>) -> RwLockWriteGuard<'a, CookieStore> {
    match write_jar(jar) {
        Ok(guard) => guard,
        Err(poisoned) => write_guard_of(poisoned),
    }
}

/// A browsing session: an id, a browser identity and a cookie jar shared
/// with the HTTP client that the session drives.
#[derive(Debug)]
pub struct Session {
    pub id: Uuid,
    pub identity: Identity,
    pub cookies: Arc<RwLock<CookieStore>>,
}

impl Session {
    /// A session with a random id, a random identity and an empty jar.
    pub fn new() -> (r: Session)
        ensures
            is_known_identity(r.identity),
            is_coherent(r.identity),
    {
        Session {
            id: new_v4_uuid(),
            identity: Identity::generate(),
            cookies: Arc::new(lock_store(empty_cookie_store())),
        }
    }

    /// The jar's persistent, unexpired cookies as a JSON array; a failure
    /// becomes a session error carrying its text.
    pub fn export_cookies(&self) -> (r: Result<String>)
        ensures
            r matches Ok(s) ==> json_array_text(s@),
            r matches Err(e) ==> e is Session,
    {
        let guard = jar_for_reading(&self.cookies);
        match cookies_to_json(&guard) {
            Ok(json) => Ok(json),
            Err(msg) => Err(ScoutError::Session(msg)),
        }
    }

    /// Replaces the jar's contents by the cookies in `json`; on a parse
    /// failure the jar is left alone and a session error carries the text.
    pub fn import_cookies(&self, json: &str) -> (r: Result<()>)
        ensures
            r is Ok <==> cookie_json_accepted(json@),
            json@ == "[]"@ ==> r is Ok,
            !opens_json_array(json@) ==> r is Err,
            r is Err ==> (r matches Err(ScoutError::Session(m)) && m@ == cookie_json_error(json@)),
    {
        match cookies_from_json(json) {
            Ok(store) => {
                let mut guard = jar_for_writing(&self.cookies);
                replace_cookies(&mut guard, store);
                Ok(())
            },
            Err(msg) => Err(ScoutError::Session(msg)),
        }
    }

    /// Empties the jar.
    pub fn clear_cookies(&self) {
        let mut guard = jar_for_writing(&self.cookies);
        clear_cookie_store(&mut guard);
    }
}

impl Default for Session {
    fn default() -> (r: Session)
        ensures
            is_known_identity(r.identity),
    {
        Session::new()
    }
}

/// What a session store with sessions `before` holds and hands out when
/// asked for `id`: the session stored under `id` if there is one, else a
/// fresh session `r`, stored under `id` when an id was given.
pub open spec fn get_or_create_step(
    before: Map<Seq<char>, Arc<Session>>,
    id: Option<Seq<char>>,
    r: Arc<Session>,
    after: Map<Seq<char>, Arc<Session>>,
) -> bool {
    match id {
        Some(k) => if before.contains_key(k) {
            r == before[k] && after == before
        } else {
            after == before.insert(k, r) && is_known_identity(r.identity)
        },
        None => after == before && is_known_identity(r.identity),
    }
}

/// Sessions by id.
pub struct SessionStore {
    sessions: StringHashMap<Arc<Session>>,
}

impl View for SessionStore {
    type V = Map<Seq<char>, Arc<Session>>;

    closed spec fn view(&self) -> Map<Seq<char>, Arc<Session>> {
        self.sessions@
    }
}

impl SessionStore {
    /// A store with no sessions.
    pub fn new() -> (r: SessionStore)
        ensures
            r@ == Map::<Seq<char>, Arc<Session>>::empty(),
    {
        SessionStore { sessions: StringHashMap::new() }
    }

    /// The session stored under `id`; when there is none, a new session,
    /// stored under `id` if an id was given.
    pub fn get_or_create(&mut self, id: Option<&str>) -> (r: Arc<Session>)
        ensures
            get_or_create_step(old(self)@, match id {
                Some(s) => Some(s@),
                None => None,
            }, r, final(self)@),
    {
        match id {
            Some(id_str) => {
                if let Some(session) = self.sessions.get(id_str) {
                    return share_session(session);
                }
                let session = Arc::new(Session::new());
                self.sessions.insert(id_str.to_string(), share_session(&session));
                session
            },
            None => Arc::new(Session::new()),
        }
    }
}

impl Default for SessionStore {
    fn default() -> (r: SessionStore)
        ensures
            r@ == Map::<Seq<char>, Arc<Session>>::empty(),
    {
        SessionStore::new()
    }
}

/// Asking a store twice for the same id hands out the same session, and
/// the second request changes nothing.
pub proof fn lemma_same_id_same_session(
    m0: Map<Seq<char>, Arc<Session>>,
    id: Seq<char>,
    r1: Arc<Session>,
    m1: Map<Seq<char>, Arc<Session>>,
    r2: Arc<Session>,
    m2: Map<Seq<char>, Arc<Session>>,
)
    requires
        get_or_create_step(m0, Some(id), r1, m1),
        get_or_create_step(m1, Some(id), r2, m2),
    ensures
        r2 == r1,
        m2 == m1,
        m1.contains_key(id) && m1[id] == r1,
{
}

} // verus!
