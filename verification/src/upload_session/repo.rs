//! Where upload sessions are kept.
use super::dto::{SessionModel, UploadSession};
use crate::error::AppError;
use crate::text::{decimal, decimal_is_unambiguous, id_text, join3};
use vstd::hash_map::StringHashMap;
use vstd::prelude::*;
use vstd::string::*;

verus! {

/// The key of the session of a user and scope.
pub open spec fn session_key(user_id: i64, scope: Seq<char>) -> Seq<char> {
    "upload_session:"@ + decimal(user_id as int) + ":"@ + scope
}

/// The key of the session of a user and scope.
pub fn key_for(user_id: i64, scope: &str) -> (r: String)
    ensures
        r@ == session_key(user_id, scope@),
{
    let mut out = join3("upload_session:", id_text(user_id).as_str(), ":");
    out.append(scope);
    out
}

/// A store of upload sessions, one per user and scope.
pub trait UploadSessionRepo {
    /// The session of a user and scope, where there is one.
    fn get(&self, user_id: i64, scope: &str) -> Result<Option<UploadSession>, AppError>;

    /// Stores a session in place of the one before, for so many seconds.
    fn put(&mut self, session: &UploadSession, ttl_seconds: u64) -> Result<(), AppError>;

    /// Keeps a session for so many seconds more; whether there is one.
    fn touch(&mut self, user_id: i64, scope: &str, ttl_seconds: u64) -> Result<bool, AppError>;

    /// Forgets a session; whether there was one.
    fn delete(&mut self, user_id: i64, scope: &str) -> Result<bool, AppError>;
}

/// A store that keeps nothing.
pub struct NoopUploadSessionRepo;

impl UploadSessionRepo for NoopUploadSessionRepo {
    fn get(&self, user_id: i64, scope: &str) -> (r: Result<Option<UploadSession>, AppError>)
        ensures
            r matches Ok(s) && s is None,
    {
        Ok(None)
    }

    fn put(&mut self, session: &UploadSession, ttl_seconds: u64) -> (r: Result<(), AppError>)
        ensures
            r is Ok,
    {
        Ok(())
    }

    fn touch(&mut self, user_id: i64, scope: &str, ttl_seconds: u64) -> (r: Result<
        bool,
        AppError,
    >)
        ensures
            r matches Ok(b) && !b,
    {
        Ok(false)
    }

    fn delete(&mut self, user_id: i64, scope: &str) -> (r: Result<bool, AppError>)
        ensures
            r matches Ok(b) && !b,
    {
        Ok(false)
    }
}

/// A store in memory. Sessions do not expire in it, so there is nothing that a
/// touch could fail to keep.
pub struct InMemoryUploadSessionRepo {
    entries: StringHashMap<UploadSession>,
}

impl View for InMemoryUploadSessionRepo {
    type V = Map<Seq<char>, SessionModel>;

    /// The sessions by key.
    closed spec fn view(&self) -> Map<Seq<char>, SessionModel> {
        self.entries@.map_values(|s: UploadSession| s@)
    }
}

impl InMemoryUploadSessionRepo {
    /// An empty store.
    pub fn new() -> (r: Self)
        ensures
            r@ == Map::<Seq<char>, SessionModel>::empty(),
    {
        let r = InMemoryUploadSessionRepo { entries: StringHashMap::new() };
        assert(r@ =~= Map::<Seq<char>, SessionModel>::empty());
        r
    }
}

impl Default for InMemoryUploadSessionRepo {
    fn default() -> (r: Self)
        ensures
            r@ == Map::<Seq<char>, SessionModel>::empty(),
    {
        InMemoryUploadSessionRepo::new()
    }
}

/// A read gives what is stored under the key of the user and scope.
pub open spec fn reads(
    sessions: Map<Seq<char>, SessionModel>,
    user_id: i64,
    scope: Seq<char>,
    r: Result<Option<UploadSession>, AppError>,
) -> bool {
    &&& r is Ok
    &&& match looked_up(sessions, session_key(user_id, scope)) {
        Some(m) => r->Ok_0 matches Some(s) && s@ == m,
        None => r->Ok_0 is None,
    }
}

/// The sessions once this one is stored.
pub open spec fn with_stored(
    sessions: Map<Seq<char>, SessionModel>,
    session: SessionModel,
) -> Map<Seq<char>, SessionModel> {
    sessions.insert(session_key(session.user_id, session.scope), session)
}

/// A deletion forgets what is stored under the key of the user and scope, and
/// tells whether there was anything.
pub open spec fn forgets(
    before: Map<Seq<char>, SessionModel>,
    user_id: i64,
    scope: Seq<char>,
    after: Map<Seq<char>, SessionModel>,
    r: Result<bool, AppError>,
) -> bool {
    &&& r matches Ok(b) && b == before.dom().contains(session_key(user_id, scope))
    &&& after == before.remove(session_key(user_id, scope))
}

/// The session under a key, where there is one.
pub open spec fn looked_up(
    sessions: Map<Seq<char>, SessionModel>,
    key: Seq<char>,
) -> Option<SessionModel> {
    if sessions.dom().contains(key) {
        Some(sessions[key])
    } else {
        None
    }
}

impl UploadSessionRepo for InMemoryUploadSessionRepo {
    fn get(&self, user_id: i64, scope: &str) -> (r: Result<Option<UploadSession>, AppError>)
        ensures
            reads(self@, user_id, scope@, r),
    {
        match self.entries.get(key_for(user_id, scope).as_str()) {
            Some(s) => Ok(Some(s.clone())),
            None => Ok(None),
        }
    }

    fn put(&mut self, session: &UploadSession, ttl_seconds: u64) -> (r: Result<(), AppError>)
        ensures
            r is Ok,
            final(self)@ == with_stored(old(self)@, session@),
    {
        let key = key_for(session.user_id, session.scope.as_str());
        let ghost wanted = self@.insert(key@, session@);
        self.entries.insert(key, session.clone());
        assert(self@ =~= wanted);
        Ok(())
    }

    fn touch(&mut self, user_id: i64, scope: &str, ttl_seconds: u64) -> (r: Result<
        bool,
        AppError,
    >)
        ensures
            r matches Ok(b) && b,
            final(self)@ == old(self)@,
    {
        Ok(true)
    }

    fn delete(&mut self, user_id: i64, scope: &str) -> (r: Result<bool, AppError>)
        ensures
            forgets(old(self)@, user_id, scope@, final(self)@, r),
    {
        let key = key_for(user_id, scope);
        let ghost wanted = self@.remove(key@);
        let known = self.entries.contains_key(key.as_str());
        self.entries.remove(key.as_str());
        assert(self@ =~= wanted);
        Ok(known)
    }
}

// ---------------------------------------------------------------------------
// Laws
// ---------------------------------------------------------------------------

/// Two sessions share a key exactly where they share the user and the scope, so
/// no user or scope can reach the session of another.
pub proof fn keys_separate_users_and_scopes(
    user_a: i64,
    scope_a: Seq<char>,
    user_b: i64,
    scope_b: Seq<char>,
)
    ensures
        session_key(user_a, scope_a) == session_key(user_b, scope_b) <==> user_a == user_b
            && scope_a == scope_b,
{
    reveal_strlit("upload_session:");
    reveal_strlit(":");
    let head = "upload_session:"@;
    let da = decimal(user_a as int);
    let db = decimal(user_b as int);
    let ka = session_key(user_a, scope_a);
    let kb = session_key(user_b, scope_b);
    decimal_is_unambiguous(user_a, user_b);
    decimal_is_unambiguous(user_b, user_a);
    if ka == kb {
        let n = head.len() as int;
        assert(ka.subrange(n, n + da.len()) =~= da);
        assert(kb.subrange(n, n + db.len()) =~= db);
        assert(ka[n + da.len()] == ':');
        assert(kb[n + db.len()] == ':');
        if da.len() < db.len() {
            assert(kb[n + da.len()] == db[da.len() as int]);
            assert(db.contains(':'));
        } else if db.len() < da.len() {
            assert(ka[n + db.len()] == da[db.len() as int]);
            assert(da.contains(':'));
        }
        assert(da =~= db);
        assert(ka.subrange(n + da.len() + 1, ka.len() as int) =~= scope_a);
        assert(kb.subrange(n + db.len() + 1, kb.len() as int) =~= scope_b);
    }
}

/// What is stored is read back, and storing a session of one user and scope
/// leaves those of all others alone.
pub proof fn stored_session_is_read_back(
    sessions: Map<Seq<char>, SessionModel>,
    session: SessionModel,
    user_id: i64,
    scope: Seq<char>,
)
    ensures
        ({
            let after = sessions.insert(session_key(session.user_id, session.scope), session);
            looked_up(after, session_key(user_id, scope)) == if user_id == session.user_id && scope
                == session.scope {
                Some(session)
            } else {
                looked_up(sessions, session_key(user_id, scope))
            }
        }),
{
    keys_separate_users_and_scopes(session.user_id, session.scope, user_id, scope);
}

/// A store reads back what was stored last for a user and scope, and nothing once
/// that was deleted; whatever is done for one user and scope leaves all others
/// alone. A deletion tells whether there was a session.
pub proof fn store_keeps_the_last_session(
    sessions: Map<Seq<char>, SessionModel>,
    session: SessionModel,
    after: Map<Seq<char>, SessionModel>,
    told: Result<bool, AppError>,
    user_id: i64,
    scope: Seq<char>,
    once_stored: Result<Option<UploadSession>, AppError>,
    later: Result<Option<UploadSession>, AppError>,
    before: Result<Option<UploadSession>, AppError>,
)
    requires
        reads(sessions, user_id, scope, before),
        reads(with_stored(sessions, session), user_id, scope, once_stored),
        forgets(sessions, session.user_id, session.scope, after, told),
        reads(after, user_id, scope, later),
    ensures
        before is Ok && once_stored is Ok && later is Ok && told is Ok,
        user_id == session.user_id && scope == session.scope ==> {
            &&& once_stored->Ok_0 is Some && once_stored->Ok_0->0@ == session
            &&& later->Ok_0 is None
            &&& told->Ok_0 <==> before->Ok_0 is Some
        },
        user_id != session.user_id || scope != session.scope ==> {
            &&& once_stored->Ok_0 is Some <==> before->Ok_0 is Some
            &&& once_stored->Ok_0 is Some ==> once_stored->Ok_0->0@ == before->Ok_0->0@
            &&& later->Ok_0 is Some <==> before->Ok_0 is Some
            &&& later->Ok_0 is Some ==> later->Ok_0->0@ == before->Ok_0->0@
        },
{
    keys_separate_users_and_scopes(session.user_id, session.scope, user_id, scope);
}

/// A forgotten session is not found any more, and forgetting it again changes
/// nothing.
pub proof fn deleted_session_is_gone(
    sessions: Map<Seq<char>, SessionModel>,
    user_id: i64,
    scope: Seq<char>,
)
    ensures
        looked_up(sessions.remove(session_key(user_id, scope)), session_key(user_id, scope)) is None,
        sessions.remove(session_key(user_id, scope)).remove(session_key(user_id, scope))
            == sessions.remove(session_key(user_id, scope)),
{
    let key = session_key(user_id, scope);
    assert(sessions.remove(key).remove(key) =~= sessions.remove(key));
}

} // verus!
