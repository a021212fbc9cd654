//! What the endpoints of upload sessions do, told by what goes in and what comes
//! out.
use super::dto::{
    allowed_kind, allowed_scope, files_view, is_sha256, safe_filename, shown_credentials,
    shown_file, AllocateFileItemIn, AllocateFilesIn, AllocateFilesOut, CompleteFileIn,
    CompleteFileOut, ConsumeFilesIn, ConsumeFilesOut, DiscardIn, DiscardOut, FileModel,
    GetOrCreateIn, GetOrCreateOut, RemoveFilesIn, RemoveFilesOut, RenewIn, RenewOut,
    SessionCredentials, SessionFile, UploadSession,
};
use super::files::{
    allocated, allocation_only_appends, answers, distinct_refs, item_problem, lemma_position_of,
    lemma_sha_head, lemma_unnamed_members, pending_file, position_of, removal,
    removal_leaves_the_unnamed, texts, unnamed,
};
use super::service::{
    allocates, completes, consumes, discards, is_fresh_identity, keys_of, opens, refs_of, removes,
    renews, CompleteFacts, DiscardFacts, EditFacts, OpenFacts, RenewFacts, SessionAsk,
    SessionIdentity, StsCredential, UploadSessionConfig,
};
use crate::auth::{CurrentUser, Role};
use crate::error::ErrorCode;
use crate::flow::{absent, present, Next};
use crate::text::{ascii_uppercase, debug_quoted, decimal};
use vstd::prelude::*;

verus! {

// ---------------------------------------------------------------------------
// Models and small rules
// ---------------------------------------------------------------------------

/// The models of a file and of a session have every field of them, under its own
/// name.
pub proof fn models_have_every_field(f: SessionFile, s: UploadSession)
    ensures
        f@.client_ref == f.client_ref@ && f@.kind == f.kind@ && f@.original_filename
            == f.original_filename@ && f@.file_size == f.file_size,
        f@.content_type == f.content_type@ && f@.content_sha256 == f.content_sha256@ && f@.tmp_key
            == f.tmp_key@ && f@.status == f.status@,
        f@.etag is Some <==> f.etag is Some,
        f.etag matches Some(t) ==> f@.etag == Some(t@),
        f@.uploaded_at is Some <==> f.uploaded_at is Some,
        f.uploaded_at matches Some(t) ==> f@.uploaded_at == Some(t@),
        s@.session_id == s.session_id@ && s@.user_id == s.user_id && s@.scope == s.scope@
            && s@.tmp_prefix == s.tmp_prefix@ && s@.bucket == s.bucket@ && s@.region == s.region@,
        s@.credentials == s.credentials && s@.expires_in == s.expires_in && s@.created_at
            == s.created_at && s@.updated_at == s.updated_at,
        s@.files.len() == s.files@.len(),
        forall|i: int| 0 <= i < s.files@.len() ==> #[trigger] s@.files[i] == s.files@[i]@,
{
}

/// What a client sees of a file and of credentials is all of it.
pub proof fn clients_see_every_field(f: SessionFile, c: SessionCredentials)
    ensures
        ({
            let o = shown_file(f);
            &&& o.client_ref == f.client_ref && o.kind == f.kind && o.original_filename
                == f.original_filename && o.file_size == f.file_size
            &&& o.content_type == f.content_type && o.content_sha256 == f.content_sha256
                && o.tmp_key == f.tmp_key && o.status == f.status
            &&& o.etag == f.etag && o.uploaded_at == f.uploaded_at
        }),
        ({
            let o = shown_credentials(c);
            &&& o.tmp_secret_id == c.tmp_secret_id && o.tmp_secret_key == c.tmp_secret_key
                && o.session_token == c.session_token
            &&& o.start_time == c.start_time && o.expired_time == c.expired_time
        }),
{
}

/// The letters are the same, whether large or small; `b` has large ones.
pub open spec fn same_letters(a: Seq<char>, b: Seq<char>) -> bool {
    &&& a.len() == b.len()
    &&& forall|i: int|
        0 <= i < b.len() ==> #[trigger] a[i] == b[i] || ('A' <= b[i] <= 'Z' && a[i] as u32
            == b[i] as u32 + 32)
}

/// One scope and two kinds are allowed; letters of a kind may be large or small.
pub proof fn one_scope_and_two_kinds_are_allowed(scope: Seq<char>, kind: Seq<char>)
    ensures
        allowed_scope(scope) <==> scope == "parts_new"@,
        allowed_kind(kind) <==> same_letters(kind, "DRAWING"@) || same_letters(
            kind,
            "3D_MODEL"@,
        ),
{
    reveal_strlit("DRAWING");
    reveal_strlit("3D_MODEL");
    lemma_letters(kind, "DRAWING"@);
    lemma_letters(kind, "3D_MODEL"@);
}

proof fn lemma_letters(a: Seq<char>, b: Seq<char>)
    requires
        forall|i: int| 0 <= i < b.len() ==> !('a' <= #[trigger] b[i] <= 'z'),
    ensures
        ascii_uppercase(a) == b <==> same_letters(a, b),
{
    if ascii_uppercase(a) == b {
        assert forall|i: int| 0 <= i < b.len() implies #[trigger] a[i] == b[i] || ('A' <= b[i]
            <= 'Z' && a[i] as u32 == b[i] as u32 + 32) by {
            assert(ascii_uppercase(a)[i] == b[i]);
        }
    }
    if same_letters(a, b) {
        assert forall|i: int| 0 <= i < b.len() implies #[trigger] ascii_uppercase(a)[i] == b[i] by {
            assert(!('a' <= b[i] <= 'z'));
            assert(a[i] == b[i] || ('A' <= b[i] <= 'Z' && a[i] as u32 == b[i] as u32 + 32));
        }
        assert(ascii_uppercase(a) =~= b);
    }
}

/// A safe file name is the name itself, cut to 80 characters, with an underscore
/// for every character but letters and digits of ASCII, dots, dashes and
/// underscores. No name at all becomes `file`.
pub proof fn safe_names_keep_safe_characters(name: Seq<char>)
    ensures
        name.len() == 0 ==> safe_filename(name) == "file"@,
        0 < name.len() <= 80 ==> safe_filename(name).len() == name.len(),
        name.len() > 80 ==> safe_filename(name).len() == 80,
        forall|i: int|
            0 <= i < name.len() && i < safe_filename(name).len() && name.len() > 0 ==> {
                let c = name[i];
                let safe = '0' <= c <= '9' || 'a' <= c <= 'z' || 'A' <= c <= 'Z' || c == '.' || c
                    == '-' || c == '_';
                #[trigger] safe_filename(name)[i] == if safe {
                    c
                } else {
                    '_'
                }
            },
{
}

/// A digest is 64 hexadecimal digits, large or small.
pub proof fn digests_are_hexadecimal(sha: Seq<char>)
    ensures
        is_sha256(sha) <==> sha.len() == 64 && forall|i: int|
            0 <= i < sha.len() ==> ('0' <= #[trigger] sha[i] <= '9' || 'a' <= sha[i] <= 'f' || 'A'
                <= sha[i] <= 'F'),
{
}

/// An announced file is acceptable: of an allowed kind, with a digest, a name and
/// a size.
pub open spec fn acceptable(item: AllocateFileItemIn) -> bool {
    &&& allowed_kind(item.kind@)
    &&& is_sha256(item.content_sha256@)
    &&& item.original_filename@.len() > 0
    &&& item.file_size > 0
}

/// A new name of a session is a random UUID in its usual form, and its prefix is
/// made of that name.
pub proof fn new_names_are_uuids_with_their_prefix(identity: SessionIdentity)
    requires
        is_fresh_identity(identity),
    ensures
        identity.tmp_prefix@ == "tmp/sess/"@ + identity.session_id@ + "/"@,
        identity.session_id@.len() == 36,
        identity.session_id@[14] == '4',
        identity.session_id@[19] == '8' || identity.session_id@[19] == '9'
            || identity.session_id@[19] == 'a' || identity.session_id@[19] == 'b',
        forall|i: int|
            0 <= i < 36 && i != 8 && i != 13 && i != 18 && i != 23 ==> ('0'
                <= #[trigger] identity.session_id@[i] <= '9' || 'a' <= identity.session_id@[i]
                <= 'f'),
        identity.session_id@[8] == '-' && identity.session_id@[13] == '-'
            && identity.session_id@[18] == '-' && identity.session_id@[23] == '-',
{
}

/// The caller may upload.
pub open spec fn uploads(current: CurrentUser) -> bool {
    current.roles@.contains(Role::Manager) || current.roles@.contains(Role::Clerk)
}

/// What an endpoint on a named session does before it comes to the session: it
/// refuses callers who may not upload, other scopes, sessions that are gone and
/// sessions of another name; it looks for the caller's own session.
pub open spec fn comes_to_the_session<T>(
    n: Next<SessionAsk, T>,
    current: CurrentUser,
    scope: Seq<char>,
    session_id: Seq<char>,
    found: Option<Option<UploadSession>>,
) -> bool {
    &&& !uploads(current) ==> n.is_refused(ErrorCode::Forbidden)
    &&& uploads(current) && scope != "parts_new"@ ==> n.is_refused(
        ErrorCode::BizUploadSessionScopeInvalid,
    )
    &&& uploads(current) && scope == "parts_new"@ ==> {
        &&& found is None ==> (n matches Next::Ask(SessionAsk::Find { user_id, scope: s })
            && user_id == current.id && s@ == scope)
        &&& absent(found) ==> n.is_refused(ErrorCode::BizUploadSessionNotFound)
        &&& present(found) && found->0->0.session_id@ != session_id ==> n.is_refused(
            ErrorCode::BizUploadSessionMismatch,
        )
    }
}

/// The caller may upload, and the stored session is the named one.
pub open spec fn at_the_session(
    current: CurrentUser,
    scope: Seq<char>,
    session_id: Seq<char>,
    found: Option<Option<UploadSession>>,
) -> bool {
    uploads(current) && scope == "parts_new"@ && present(found) && found->0->0.session_id@
        == session_id
}

/// The session is the same but for its files and the time of the last change.
pub open spec fn same_but_files(p: UploadSession, s: UploadSession) -> bool {
    &&& p.session_id@ == s.session_id@ && p.user_id == s.user_id && p.scope@ == s.scope@
    &&& p.tmp_prefix@ == s.tmp_prefix@ && p.bucket@ == s.bucket@ && p.region@ == s.region@
    &&& p.credentials == s.credentials && p.expires_in == s.expires_in && p.created_at
        == s.created_at
}

// ---------------------------------------------------------------------------
// Opening
// ---------------------------------------------------------------------------

/// The answer tells of this session, with all of its files.
pub open spec fn tells_of(out: GetOrCreateOut, s: UploadSession) -> bool {
    &&& out.session_id@ == s.session_id@ && out.scope@ == s.scope@ && out.tmp_prefix@
        == s.tmp_prefix@ && out.bucket@ == s.bucket@ && out.region@ == s.region@
    &&& out.credentials.tmp_secret_id == s.credentials.tmp_secret_id
        && out.credentials.tmp_secret_key == s.credentials.tmp_secret_key
        && out.credentials.session_token == s.credentials.session_token
    &&& out.credentials.start_time == s.credentials.start_time && out.credentials.expired_time
        == s.credentials.expired_time && out.expires_in == s.expires_in
    &&& out.files@.len() == s.files@.len()
    &&& forall|i: int| 0 <= i < s.files@.len() ==> (#[trigger] out.files@[i])@ == s.files@[i]@
}

/// The lifetime of credentials, never less than nothing.
pub open spec fn lives_for(seconds: i64, cred: StsCredential) -> bool {
    let life = cred.credentials.expired_time - cred.credentials.start_time;
    seconds == if life > 0 {
        life
    } else {
        0
    }
}

/// Opening: where there is no session, one is made for the caller and the scope,
/// under the fresh name, with the credentials issued for its prefix and without
/// files. Where there is one and less than the threshold is left of its
/// credentials, they are replaced and all else stays. Else it is kept and told as
/// it is.
pub proof fn opening_makes_renews_or_keeps(
    cfg: UploadSessionConfig,
    req: GetOrCreateIn,
    current: CurrentUser,
    f: OpenFacts,
    n: Next<SessionAsk, GetOrCreateOut>,
)
    requires
        opens(cfg, req, current, f, n),
        f.issued matches Some(Ok(cred)) ==> cred.lifetime_fits(),
    ensures
        !uploads(current) ==> n.is_refused(ErrorCode::Forbidden),
        uploads(current) && req.scope@ != "parts_new"@ ==> n.is_refused(
            ErrorCode::BizUploadSessionScopeInvalid,
        ),
        n matches Next::Done(Err(e)) ==> e.code is Forbidden
            || e.code is BizUploadSessionScopeInvalid || (f.issued matches Some(Err(x)) && e == x),
        n matches Next::Ask(a) ==> uploads(current) && req.scope@ == "parts_new"@ && match a {
            SessionAsk::Now => f.now is None,
            SessionAsk::Find { user_id, scope } => user_id == current.id && scope@ == req.scope@
                && f.found is None,
            SessionAsk::Identify { identity } => absent(f.found) && f.identity is None
                && is_fresh_identity(identity),
            SessionAsk::Issue { tmp_prefix, duration_seconds } => {
                &&& duration_seconds == cfg.sts_duration_seconds && f.issued is None
                &&& absent(f.found) ==> f.identity is Some && tmp_prefix@
                    == f.identity->0.tmp_prefix@
                &&& present(f.found) ==> tmp_prefix@ == f.found->0->0.tmp_prefix@
                    && f.found->0->0.credentials.expired_time - f.now->0
                    < cfg.renew_threshold_seconds
            },
            SessionAsk::IssueTime => f.issued_at is None && (f.issued matches Some(Ok(_))),
            SessionAsk::Put { session, ttl_seconds } => {
                let cred = f.issued->0->Ok_0;
                &&& ttl_seconds == cfg.ttl_seconds && !f.stored && f.issued_at is Some
                &&& f.issued is Some && f.issued->0 is Ok
                &&& session.credentials == cred.credentials && session.bucket@ == cred.bucket@
                    && session.region@ == cred.region@ && lives_for(session.expires_in, cred)
                &&& session.updated_at == f.issued_at->0
                &&& absent(f.found) ==> {
                    &&& session.session_id@ == f.identity->0.session_id@ && session.tmp_prefix@
                        == f.identity->0.tmp_prefix@
                    &&& session.user_id == current.id && session.scope@ == req.scope@
                    &&& session.files@.len() == 0 && session.created_at == f.issued_at->0
                }
                &&& present(f.found) ==> {
                    let s = f.found->0->0;
                    &&& s.credentials.expired_time - f.now->0 < cfg.renew_threshold_seconds
                    &&& session.session_id@ == s.session_id@ && session.tmp_prefix@ == s.tmp_prefix@
                        && session.user_id == s.user_id && session.scope@ == s.scope@
                        && session.created_at == s.created_at
                    &&& session.files@.len() == s.files@.len()
                    &&& forall|i: int|
                        0 <= i < s.files@.len() ==> (#[trigger] session.files@[i])@ == s.files@[i]@
                }
            },
            SessionAsk::Touch { user_id, scope, ttl_seconds } => {
                &&& user_id == current.id && scope@ == req.scope@ && ttl_seconds == cfg.ttl_seconds
                &&& present(f.found) && f.found->0->0.credentials.expired_time - f.now->0
                    >= cfg.renew_threshold_seconds && !f.touched
            },
            _ => false,
        },
        n matches Next::Done(Ok(out)) ==> {
            &&& f.now is Some && f.found is Some
            &&& present(f.found) && f.found->0->0.credentials.expired_time - f.now->0
                >= cfg.renew_threshold_seconds ==> f.touched && tells_of(out, f.found->0->0)
            &&& absent(f.found) ==> {
                &&& f.stored && f.issued is Some && f.issued->0 is Ok
                &&& out.session_id@ == f.identity->0.session_id@ && out.tmp_prefix@
                    == f.identity->0.tmp_prefix@ && out.scope@ == req.scope@ && out.files@.len()
                    == 0
                &&& out.credentials.expired_time == f.issued->0->Ok_0.credentials.expired_time
                    && out.credentials.session_token
                    == f.issued->0->Ok_0.credentials.session_token
                &&& lives_for(out.expires_in, f.issued->0->Ok_0)
            }
            &&& present(f.found) && f.found->0->0.credentials.expired_time - f.now->0
                < cfg.renew_threshold_seconds ==> {
                let s = f.found->0->0;
                &&& f.stored && f.issued is Some && f.issued->0 is Ok
                &&& out.session_id@ == s.session_id@ && out.tmp_prefix@ == s.tmp_prefix@
                    && out.scope@ == s.scope@ && out.files@.len() == s.files@.len()
                &&& out.credentials.expired_time == f.issued->0->Ok_0.credentials.expired_time
                    && out.credentials.session_token
                    == f.issued->0->Ok_0.credentials.session_token
                &&& lives_for(out.expires_in, f.issued->0->Ok_0)
            }
        },
{
    if let Next::Ask(SessionAsk::Put { session, ttl_seconds }) = n {
        models_have_every_field(arbitrary(), session);
        assert(session@.files.len() == session.files@.len());
        if present(f.found) {
            let s = f.found->0->0;
            assert(session@.files == s@.files);
            assert forall|i: int| 0 <= i < s.files@.len() implies (
            #[trigger] session.files@[i])@ == s.files@[i]@ by {
                assert(session@.files[i] == s@.files[i]);
            }
        }
    }
    if let Next::Done(Ok(out)) = n {
        assert(files_view(out.files@).len() == out.files@.len());
        if present(f.found) {
            let s = f.found->0->0;
            assert(s@.files.len() == s.files@.len());
            assert(files_view(out.files@) == s@.files);
            assert forall|i: int| 0 <= i < s.files@.len() implies (
            #[trigger] out.files@[i])@ == s.files@[i]@ by {
                assert(files_view(out.files@)[i] == s@.files[i]);
            }
        }
    }
}

// ---------------------------------------------------------------------------
// Reporting a file as uploaded
// ---------------------------------------------------------------------------

/// The stored object is there, and has the size that was declared, if any was.
pub open spec fn arrived(req: CompleteFileIn, f: CompleteFacts) -> bool {
    &&& f.head is Some && f.head->0 is Ok
    &&& req.file_size matches Some(size) ==> size == f.head->0->Ok_0.size
}

/// Reporting a file: the first file with the reference is looked up in the
/// storage. It is done, with the size and the tag of the stored object, exactly
/// where that is there and has the declared size, if any; else, larger or smaller,
/// it is an error, and the caller is told which. All other files and the rest of
/// the session stay.
pub proof fn completion_goes_by_the_stored_object(
    ttl: u64,
    session_id: Seq<char>,
    client_ref: Seq<char>,
    req: CompleteFileIn,
    current: CurrentUser,
    f: CompleteFacts,
    n: Next<SessionAsk, CompleteFileOut>,
    i: int,
)
    requires
        completes(ttl, session_id, client_ref, req, current, f, n),
        at_the_session(current, req.scope@, session_id, f.found),
        0 <= i < f.found->0->0.files@.len(),
        f.found->0->0.files@[i].client_ref@ == client_ref,
        forall|j: int|
            0 <= j < i ==> (#[trigger] f.found->0->0.files@[j]).client_ref@ != client_ref,
    ensures
        ({
            let s = f.found->0->0;
            let old = s.files@[i];
            &&& f.head is None ==> (n matches Next::Ask(SessionAsk::Head { tmp_key }) && tmp_key@
                == old.tmp_key@)
            &&& f.head is Some && f.now is None ==> (n matches Next::Ask(a) && a is Now)
            &&& f.head is Some && f.now is Some && !f.stored ==> {
                &&& n matches Next::Ask(SessionAsk::Put { session: p, ttl_seconds })
                &&& ttl_seconds == ttl && p.updated_at == f.now->0.unix && same_but_files(p, s)
                &&& p.files@.len() == s.files@.len()
                &&& forall|j: int|
                    0 <= j < s.files@.len() && j != i ==> (#[trigger] p.files@[j])@ == s.files@[j]@
                &&& is_completed(p.files@[i], old, req, f)
            }
            &&& f.head is Some && f.now is Some && f.stored ==> {
                &&& n.is_ok() <==> arrived(req, f)
                &&& n matches Next::Done(Ok(out)) ==> is_completed(out, old, req, f)
                &&& f.head->0 is Err ==> n.is_refused(ErrorCode::BizUploadSessionHeadFailed)
                &&& f.head->0 is Ok && !arrived(req, f) ==> n.is_refused(
                    ErrorCode::BizUploadSessionSizeMismatch,
                )
            }
        }),
{
    let s = f.found->0->0;
    lemma_first_file(s, client_ref, i);
    if let Next::Ask(SessionAsk::Put { session: p, ttl_seconds }) = n {
        assert(p@.files.len() == p.files@.len() && s@.files.len() == s.files@.len());
        assert forall|j: int| 0 <= j < s.files@.len() && j != i implies (
        #[trigger] p.files@[j])@ == s.files@[j]@ by {
            assert(p@.files[j] == s@.files[j]);
        }
        assert(p@.files[i] == p.files@[i]@);
        assert(s@.files[i] == s.files@[i]@);
    }
}

/// The file after it was reported: done or an error, by the stored object, and
/// otherwise as it was.
pub open spec fn is_completed(
    file: SessionFile,
    old: SessionFile,
    req: CompleteFileIn,
    f: CompleteFacts,
) -> bool {
    &&& file.client_ref@ == old.client_ref@ && file.kind@ == old.kind@ && file.original_filename@
        == old.original_filename@
    &&& file.content_type@ == old.content_type@ && file.content_sha256@ == old.content_sha256@
        && file.tmp_key@ == old.tmp_key@
    &&& if arrived(req, f) {
        &&& file.status@ == "done"@ && file.file_size == f.head->0->Ok_0.size
        &&& file.etag is Some && file.etag->0@ == f.head->0->Ok_0.etag@
        &&& file.uploaded_at is Some
    } else {
        &&& file.status@ == "error"@ && file.file_size == old.file_size
        &&& file.etag is None && file.uploaded_at is None
    }
}

proof fn lemma_first_file(s: UploadSession, client_ref: Seq<char>, i: int)
    requires
        0 <= i < s.files@.len(),
        s.files@[i].client_ref@ == client_ref,
        forall|j: int| 0 <= j < i ==> (#[trigger] s.files@[j]).client_ref@ != client_ref,
    ensures
        position_of(s@.files, client_ref) == Some(i),
        s@.files.len() == s.files@.len(),
        s@.files[i] == s.files@[i]@,
{
    lemma_position_of(s@.files, client_ref);
    assert(s@.files[i] == s.files@[i]@);
    if position_of(s@.files, client_ref) is Some {
        let k = position_of(s@.files, client_ref)->0;
        assert(s@.files[k] == s.files@[k]@);
    }
}

/// A report about a file that is not in the session is refused, and a report
/// comes to the session as every endpoint does.
pub proof fn completion_is_of_files_in_the_session(
    ttl: u64,
    session_id: Seq<char>,
    client_ref: Seq<char>,
    req: CompleteFileIn,
    current: CurrentUser,
    f: CompleteFacts,
    n: Next<SessionAsk, CompleteFileOut>,
)
    requires
        completes(ttl, session_id, client_ref, req, current, f, n),
    ensures
        comes_to_the_session(n, current, req.scope@, session_id, f.found),
        at_the_session(current, req.scope@, session_id, f.found) && (forall|j: int|
            0 <= j < f.found->0->0.files@.len() ==> (
            #[trigger] f.found->0->0.files@[j]).client_ref@ != client_ref) ==> n.is_refused(
            ErrorCode::BizUploadSessionFileNotFound,
        ),
{
    if at_the_session(current, req.scope@, session_id, f.found) {
        let s = f.found->0->0;
        lemma_position_of(s@.files, client_ref);
        if position_of(s@.files, client_ref) is Some {
            let k = position_of(s@.files, client_ref)->0;
            assert(s@.files[k] == s.files@[k]@);
            assert(s.files@[k].client_ref@ == client_ref);
        }
    }
}

// ---------------------------------------------------------------------------
// Renewing and discarding
// ---------------------------------------------------------------------------

/// Renewing: credentials are issued for the session's own prefix; those for
/// another are refused. The session gets them, with their bucket, region and
/// lifetime, and stays as it is otherwise; the caller is told them.
pub proof fn renewal_replaces_the_credentials(
    cfg: UploadSessionConfig,
    session_id: Seq<char>,
    req: RenewIn,
    current: CurrentUser,
    f: RenewFacts,
    n: Next<SessionAsk, RenewOut>,
)
    requires
        renews(cfg, session_id, req, current, f, n),
        f.issued matches Some(Ok(cred)) ==> cred.lifetime_fits(),
    ensures
        comes_to_the_session(n, current, req.scope@, session_id, f.found),
        at_the_session(current, req.scope@, session_id, f.found) ==> {
            let s = f.found->0->0;
            let cred = f.issued->0->Ok_0;
            &&& f.issued is None ==> (n matches Next::Ask(SessionAsk::Issue {
                tmp_prefix,
                duration_seconds,
            }) && tmp_prefix@ == s.tmp_prefix@ && duration_seconds == cfg.sts_duration_seconds)
            &&& f.issued is Some && f.issued->0 is Err ==> (n matches Next::Done(Err(e)) && e
                == f.issued->0->Err_0)
            &&& f.issued is Some && f.issued->0 is Ok && cred.tmp_prefix is Some
                && cred.tmp_prefix->0@ != s.tmp_prefix@ ==> n.is_refused(ErrorCode::Internal)
            &&& f.issued is Some && f.issued->0 is Ok && (cred.tmp_prefix is None
                || cred.tmp_prefix->0@ == s.tmp_prefix@) ==> {
                &&& f.now is None ==> (n matches Next::Ask(a) && a is Now)
                &&& f.now is Some && !f.stored ==> {
                    &&& n matches Next::Ask(SessionAsk::Put { session: p, ttl_seconds })
                    &&& ttl_seconds == cfg.ttl_seconds && p.updated_at == f.now->0
                    &&& p.credentials == cred.credentials && p.bucket@ == cred.bucket@ && p.region@
                        == cred.region@ && lives_for(p.expires_in, cred)
                    &&& p.session_id@ == s.session_id@ && p.user_id == s.user_id && p.scope@
                        == s.scope@ && p.tmp_prefix@ == s.tmp_prefix@ && p.created_at
                        == s.created_at
                    &&& p.files@.len() == s.files@.len()
                    &&& forall|i: int|
                        0 <= i < s.files@.len() ==> (#[trigger] p.files@[i])@ == s.files@[i]@
                }
                &&& f.now is Some && f.stored ==> {
                    &&& n matches Next::Done(Ok(out))
                    &&& lives_for(out.expires_in, cred)
                    &&& out.credentials.tmp_secret_id == cred.credentials.tmp_secret_id
                        && out.credentials.tmp_secret_key == cred.credentials.tmp_secret_key
                        && out.credentials.session_token == cred.credentials.session_token
                    &&& out.credentials.start_time == cred.credentials.start_time
                        && out.credentials.expired_time == cred.credentials.expired_time
                }
            }
        },
{
    if let Next::Ask(SessionAsk::Put { session: p, ttl_seconds }) = n {
        let s = f.found->0->0;
        assert(p@.files.len() == p.files@.len() && s@.files.len() == s.files@.len());
        assert forall|j: int| 0 <= j < s.files@.len() implies (#[trigger] p.files@[j])@
            == s.files@[j]@ by {
            assert(p@.files[j] == s@.files[j]);
        }
    }
}

/// Discarding: the caller's own session of the scope is deleted where it is the
/// named one; one that is gone counts as discarded, and another is refused.
pub proof fn discarding_deletes_the_named_session(
    session_id: Seq<char>,
    req: DiscardIn,
    current: CurrentUser,
    f: DiscardFacts,
    n: Next<SessionAsk, DiscardOut>,
)
    requires
        discards(session_id, req, current, f, n),
    ensures
        !uploads(current) ==> n.is_refused(ErrorCode::Forbidden),
        uploads(current) && req.scope@ != "parts_new"@ ==> n.is_refused(
            ErrorCode::BizUploadSessionScopeInvalid,
        ),
        uploads(current) && req.scope@ == "parts_new"@ ==> {
            &&& f.found is None ==> (n matches Next::Ask(SessionAsk::Find { user_id, scope })
                && user_id == current.id && scope@ == req.scope@)
            &&& absent(f.found) ==> n.is_ok()
            &&& present(f.found) && f.found->0->0.session_id@ != session_id ==> n.is_refused(
                ErrorCode::BizUploadSessionMismatch,
            )
            &&& present(f.found) && f.found->0->0.session_id@ == session_id && !f.deleted ==> (
            n matches Next::Ask(SessionAsk::Delete { user_id, scope }) && user_id == current.id
                && scope@ == req.scope@)
            &&& present(f.found) && f.found->0->0.session_id@ == session_id && f.deleted
                ==> n.is_ok()
        },
        n matches Next::Done(Ok(out)) ==> out.session_id@ == session_id,
{
}

// ---------------------------------------------------------------------------
// Announcing files
// ---------------------------------------------------------------------------

/// A reference stands among these files.
pub open spec fn has_ref(files: Seq<SessionFile>, client_ref: Seq<char>) -> bool {
    exists|i: int| 0 <= i < files.len() && (#[trigger] files[i]).client_ref@ == client_ref
}

/// The announcement at `k` is the first of its reference, and the session has no
/// file with it.
pub open spec fn is_new(files: Seq<SessionFile>, items: Seq<AllocateFileItemIn>, k: int) -> bool {
    &&& 0 <= k < items.len()
    &&& !has_ref(files, items[k].client_ref@)
    &&& forall|j: int| 0 <= j < k ==> (#[trigger] items[j]).client_ref@ != items[k].client_ref@
}

/// The key under which a file is uploaded: below the prefix of the session, the
/// first 16 characters of the digest and the safe name.
pub open spec fn key_for_upload(prefix: Seq<char>, item: AllocateFileItemIn) -> Seq<char> {
    prefix + item.content_sha256@.take(16) + "_"@ + safe_filename(item.original_filename@)
}

/// The file is the announced one, not yet uploaded.
pub open spec fn is_announced(
    file: SessionFile,
    prefix: Seq<char>,
    item: AllocateFileItemIn,
) -> bool {
    &&& file.client_ref@ == item.client_ref@ && file.kind@ == item.kind@ && file.original_filename@
        == item.original_filename@ && file.file_size == item.file_size
    &&& file.content_type@ == item.content_type@ && file.content_sha256@ == item.content_sha256@
    &&& file.tmp_key@ == key_for_upload(prefix, item)
    &&& file.status@ == "pending"@ && file.etag is None && file.uploaded_at is None
}

spec fn model_has_ref(files: Seq<FileModel>, client_ref: Seq<char>) -> bool {
    exists|i: int| 0 <= i < files.len() && (#[trigger] files[i]).client_ref == client_ref
}

spec fn model_is_new(files: Seq<FileModel>, items: Seq<AllocateFileItemIn>, k: int) -> bool {
    &&& 0 <= k < items.len()
    &&& !model_has_ref(files, items[k].client_ref@)
    &&& forall|j: int| 0 <= j < k ==> (#[trigger] items[j]).client_ref@ != items[k].client_ref@
}

/// Every file that is added is an acceptable one of the announced, the first of
/// its reference; every first of a reference is added.
proof fn lemma_added_files(
    prefix: Seq<char>,
    files: Seq<FileModel>,
    items: Seq<AllocateFileItemIn>,
)
    requires
        allocated(prefix, files, items) is Ok,
    ensures
        ({
            let a = allocated(prefix, files, items)->Ok_0;
            &&& a.files.len() >= files.len()
            &&& forall|i: int| 0 <= i < files.len() ==> #[trigger] a.files[i] == files[i]
            &&& forall|i: int|
                files.len() <= i < a.files.len() ==> exists|k: int| #[trigger]
                    model_is_new(files, items, k) && item_problem(items[k]) is None && (
                    #[trigger] a.files[i]) == pending_file(prefix, items[k])
            &&& forall|k: int|
                0 <= k < items.len() ==> model_has_ref(
                    a.files,
                    (#[trigger] items[k]).client_ref@,
                )
            &&& forall|k: int| #[trigger]
                model_is_new(files, items, k) ==> item_problem(items[k]) is None
        }),
    decreases items.len(),
{
    if items.len() > 0 {
        let front = items.drop_last();
        let last = items.len() - 1;
        let item = items.last();
        lemma_added_files(prefix, files, front);
        let b = allocated(prefix, files, front)->Ok_0;
        let a = allocated(prefix, files, items)->Ok_0;
        lemma_position_of(b.files, item.client_ref@);
        assert forall|k: int| #[trigger] model_is_new(files, front, k) implies model_is_new(
            files,
            items,
            k,
        ) by {
            assert forall|j: int| 0 <= j < k implies (#[trigger] items[j]).client_ref@
                != items[k].client_ref@ by {
                assert(front[j] == items[j]);
            }
        }
        if position_of(b.files, item.client_ref@) is None {
            assert(model_is_new(files, items, last)) by {
                if model_has_ref(files, item.client_ref@) {
                    let i = choose|i: int|
                        0 <= i < files.len() && (#[trigger] files[i]).client_ref
                            == item.client_ref@;
                    assert(b.files[i].client_ref == item.client_ref@);
                }
                assert forall|j: int| 0 <= j < last implies (#[trigger] items[j]).client_ref@
                    != items[last].client_ref@ by {
                    assert(front[j] == items[j]);
                    assert(model_has_ref(b.files, front[j].client_ref@));
                }
            }
        }
        assert forall|i: int| files.len() <= i < a.files.len() implies exists|k: int| #[trigger]
            model_is_new(files, items, k) && item_problem(items[k]) is None && (
            #[trigger] a.files[i]) == pending_file(prefix, items[k]) by {
            if i < b.files.len() {
                assert(a.files[i] == b.files[i]);
                let k = choose|k: int| #[trigger]
                    model_is_new(files, front, k) && item_problem(front[k]) is None && b.files[i]
                        == pending_file(prefix, front[k]);
                assert(model_is_new(files, items, k));
                assert(items[k] == front[k]);
            } else {
                assert(model_is_new(files, items, last));
            }
        }
        assert forall|k: int| 0 <= k < items.len() implies model_has_ref(
            a.files,
            (#[trigger] items[k]).client_ref@,
        ) by {
            if k < last {
                assert(front[k] == items[k]);
                assert(model_has_ref(b.files, front[k].client_ref@));
                let i = choose|i: int|
                    0 <= i < b.files.len() && (#[trigger] b.files[i]).client_ref
                        == items[k].client_ref@;
                assert(a.files[i] == b.files[i]);
            } else if position_of(b.files, item.client_ref@) is Some {
                let i = position_of(b.files, item.client_ref@)->0;
                assert(a.files[i].client_ref == item.client_ref@);
            } else {
                assert(a.files[b.files.len() as int].client_ref == item.client_ref@);
            }
        }
        assert forall|k: int| #[trigger] model_is_new(files, items, k) implies item_problem(
            items[k],
        ) is None by {
            if k < last {
                assert(front[k] == items[k]);
                assert(model_is_new(files, front, k)) by {
                    assert forall|j: int| 0 <= j < k implies (#[trigger] front[j]).client_ref@
                        != front[k].client_ref@ by {
                        assert(front[j] == items[j]);
                    }
                }
            } else if position_of(b.files, item.client_ref@) is Some {
                let i = position_of(b.files, item.client_ref@)->0;
                if i < files.len() {
                    assert(files[i] == b.files[i]);
                    assert(model_has_ref(files, item.client_ref@));
                } else {
                    let m = choose|m: int| #[trigger]
                        model_is_new(files, front, m) && item_problem(front[m]) is None
                            && b.files[i] == pending_file(prefix, front[m]);
                    assert(front[m] == items[m]);
                }
            }
        }
    }
}

/// An announcement is refused only over a new file that is not acceptable, and
/// always over one.
proof fn lemma_refused_announcement(
    prefix: Seq<char>,
    files: Seq<FileModel>,
    items: Seq<AllocateFileItemIn>,
) -> (k: int)
    requires
        allocated(prefix, files, items) is Err,
    ensures
        model_is_new(files, items, k),
        item_problem(items[k]) == Some(allocated(prefix, files, items)->Err_0),
    decreases items.len(),
{
    let front = items.drop_last();
    let last = items.len() - 1;
    match allocated(prefix, files, front) {
        Err(_) => {
            let k = lemma_refused_announcement(prefix, files, front);
            assert(front[k] == items[k]);
            assert forall|j: int| 0 <= j < k implies (#[trigger] items[j]).client_ref@
                != items[k].client_ref@ by {
                assert(front[j] == items[j]);
            }
            k
        },
        Ok(b) => {
            let item = items.last();
            lemma_added_files(prefix, files, front);
            lemma_position_of(b.files, item.client_ref@);
            if model_has_ref(files, item.client_ref@) {
                let i = choose|i: int|
                    0 <= i < files.len() && (#[trigger] files[i]).client_ref == item.client_ref@;
                assert(b.files[i].client_ref == item.client_ref@);
            }
            assert forall|j: int| 0 <= j < last implies (#[trigger] items[j]).client_ref@
                != items[last].client_ref@ by {
                assert(front[j] == items[j]);
                assert(model_has_ref(b.files, front[j].client_ref@));
            }
            last
        },
    }
}

proof fn lemma_same_new(s: UploadSession, items: Seq<AllocateFileItemIn>, k: int)
    ensures
        model_is_new(s@.files, items, k) <==> is_new(s.files@, items, k),
{
    if 0 <= k < items.len() {
        let r = items[k].client_ref@;
        if has_ref(s.files@, r) {
            let i = choose|i: int|
                0 <= i < s.files@.len() && (#[trigger] s.files@[i]).client_ref@ == r;
            assert(s@.files[i].client_ref == r);
        }
        if model_has_ref(s@.files, r) {
            let i = choose|i: int|
                0 <= i < s@.files.len() && (#[trigger] s@.files[i]).client_ref == r;
            assert(s.files@[i].client_ref@ == r);
        }
    }
}

proof fn lemma_pending(file: SessionFile, prefix: Seq<char>, item: AllocateFileItemIn)
    requires
        file@ == pending_file(prefix, item),
        item_problem(item) is None,
    ensures
        is_announced(file, prefix, item),
        acceptable(item),
{
    lemma_sha_head(item.content_sha256@);
}

/// Announcing files: those that the session has stay as they are; each first
/// announcement of a reference that it does not have adds one file, not yet
/// uploaded, with the announced data. It has to be acceptable, else the whole
/// request is refused.
pub proof fn announcing_adds_the_new_files(
    ttl: u64,
    session_id: Seq<char>,
    req: AllocateFilesIn,
    current: CurrentUser,
    f: EditFacts,
    n: Next<SessionAsk, AllocateFilesOut>,
)
    requires
        allocates(ttl, session_id, req, current, f, n),
    ensures
        comes_to_the_session(n, current, req.scope@, session_id, f.found),
        at_the_session(current, req.scope@, session_id, f.found) ==> {
            let s = f.found->0->0;
            &&& n is Ask || n.is_ok() ==> forall|k: int| #[trigger]
                is_new(s.files@, req.files@, k) ==> acceptable(req.files@[k])
            &&& n matches Next::Done(Err(e)) ==> {
                &&& e.code is BizUploadSessionBadType || e.code is ValidationError
                &&& exists|k: int| #[trigger]
                    is_new(s.files@, req.files@, k) && !acceptable(req.files@[k]) && (
                    e.code is BizUploadSessionBadType <==> !allowed_kind(req.files@[k].kind@))
            }
            &&& n matches Next::Ask(a) ==> a is Now || a is Put
            &&& n matches Next::Ask(SessionAsk::Now) ==> f.now is None
            &&& n matches Next::Ask(SessionAsk::Put { session: p, ttl_seconds }) ==> {
                &&& ttl_seconds == ttl && f.now == Some(p.updated_at) && same_but_files(p, s)
                &&& p.files@.len() >= s.files@.len()
                &&& forall|i: int|
                    0 <= i < s.files@.len() ==> (#[trigger] p.files@[i])@ == s.files@[i]@
                &&& forall|i: int|
                    s.files@.len() <= i < p.files@.len() ==> exists|k: int| #[trigger]
                        is_new(s.files@, req.files@, k) && is_announced(
                            #[trigger] p.files@[i],
                            s.tmp_prefix@,
                            req.files@[k],
                        )
                &&& forall|k: int|
                    0 <= k < req.files@.len() ==> has_ref(
                        p.files@,
                        (#[trigger] req.files@[k]).client_ref@,
                    )
            }
            &&& n.is_ok() ==> f.now is Some && f.stored
        },
{
    if at_the_session(current, req.scope@, session_id, f.found) {
        let s = f.found->0->0;
        let files = s@.files;
        let items = req.files@;
        assert forall|k: int| #[trigger] is_new(s.files@, items, k) <==> model_is_new(
            files,
            items,
            k,
        ) by {
            lemma_same_new(s, items, k);
        }
        match allocated(s.tmp_prefix@, files, items) {
            Err(p) => {
                let k = lemma_refused_announcement(s.tmp_prefix@, files, items);
                lemma_same_new(s, items, k);
                assert(is_new(s.files@, items, k));
            },
            Ok(a) => {
                lemma_added_files(s.tmp_prefix@, files, items);
                assert forall|k: int| #[trigger] is_new(s.files@, items, k) implies acceptable(
                    items[k],
                ) by {
                    lemma_same_new(s, items, k);
                    assert(model_is_new(files, items, k));
                }
                if let Next::Ask(SessionAsk::Put { session: p, ttl_seconds }) = n {
                    assert(p@.files == a.files);
                    assert forall|i: int| 0 <= i < s.files@.len() implies (
                    #[trigger] p.files@[i])@ == s.files@[i]@ by {
                        assert(p@.files[i] == files[i]);
                    }
                    assert forall|i: int| s.files@.len() <= i < p.files@.len() implies exists|
                        k: int,
                    | #[trigger]
                        is_new(s.files@, items, k) && is_announced(
                            #[trigger] p.files@[i],
                            s.tmp_prefix@,
                            items[k],
                        ) by {
                        let k = choose|k: int| #[trigger]
                            model_is_new(files, items, k) && item_problem(items[k]) is None
                                && a.files[i] == pending_file(s.tmp_prefix@, items[k]);
                        assert(p@.files[i] == p.files@[i]@);
                        lemma_same_new(s, items, k);
                        lemma_pending(p.files@[i], s.tmp_prefix@, items[k]);
                        assert(is_new(s.files@, items, k));
                    }
                    assert forall|k: int| 0 <= k < items.len() implies has_ref(
                        p.files@,
                        (#[trigger] items[k]).client_ref@,
                    ) by {
                        assert(model_has_ref(a.files, items[k].client_ref@));
                        let i = choose|i: int|
                            0 <= i < a.files.len() && (#[trigger] a.files[i]).client_ref
                                == items[k].client_ref@;
                        assert(p@.files[i] == p.files@[i]@);
                    }
                }
            },
        }
    }
}

/// Every announced file is answered, in order, with its reference and its key:
/// that of the file in the session, or the one made for the first announcement of
/// the reference.
pub proof fn announcements_are_answered_with_keys(
    ttl: u64,
    session_id: Seq<char>,
    req: AllocateFilesIn,
    current: CurrentUser,
    f: EditFacts,
    n: Next<SessionAsk, AllocateFilesOut>,
    k: int,
)
    requires
        allocates(ttl, session_id, req, current, f, n),
        n.is_ok(),
        0 <= k < req.files@.len(),
    ensures
        ({
            let s = f.found->0->0;
            let out = n->Done_0->Ok_0.items@;
            let r = req.files@[k].client_ref@;
            &&& out.len() == req.files@.len()
            &&& out[k].client_ref@ == r
            &&& forall|i: int|
                0 <= i < s.files@.len() && (#[trigger] s.files@[i]).client_ref@ == r && (forall|
                    j: int,
                |
                    0 <= j < i ==> (#[trigger] s.files@[j]).client_ref@ != r) ==> out[k].tmp_key@
                    == s.files@[i].tmp_key@
            &&& !has_ref(s.files@, r) ==> exists|j: int| #[trigger]
                is_new(s.files@, req.files@, j) && req.files@[j].client_ref@ == r && out[k].tmp_key@
                    == key_for_upload(s.tmp_prefix@, req.files@[j])
        }),
{
    let s = f.found->0->0;
    let files = s@.files;
    let items = req.files@;
    let out = n->Done_0->Ok_0.items@;
    let r = items[k].client_ref@;
    let a = allocated(s.tmp_prefix@, files, items)->Ok_0;
    allocation_only_appends(s.tmp_prefix@, files, items);
    lemma_added_files(s.tmp_prefix@, files, items);
    assert(answers(a, items, k));
    assert(super::files::slots_view(out)[k] == a.slots[k]);
    lemma_position_of(a.files, r);
    let m = position_of(a.files, r)->0;
    assert forall|i: int|
        0 <= i < s.files@.len() && (#[trigger] s.files@[i]).client_ref@ == r && (forall|j: int|
            0 <= j < i ==> (#[trigger] s.files@[j]).client_ref@ != r) implies out[k].tmp_key@
        == s.files@[i].tmp_key@ by {
        assert(a.files[i] == files[i] && files[i] == s.files@[i]@);
        if m < i {
            assert(a.files[m] == files[m] && files[m] == s.files@[m]@);
        }
        assert(m == i);
    }
    if !has_ref(s.files@, r) {
        if m < files.len() {
            assert(a.files[m] == files[m] && files[m] == s.files@[m]@);
            assert(s.files@[m].client_ref@ == r);
        }
        let j = choose|j: int| #[trigger]
            model_is_new(files, items, j) && item_problem(items[j]) is None && a.files[m]
                == pending_file(s.tmp_prefix@, items[j]);
        lemma_same_new(s, items, j);
        lemma_sha_head(items[j].content_sha256@);
        assert(is_new(s.files@, items, j));
    }
}

// ---------------------------------------------------------------------------
// Taking files out
// ---------------------------------------------------------------------------

proof fn lemma_unnamed_is_filtered(files: Seq<FileModel>, refs: Seq<Seq<char>>)
    ensures
        unnamed(files, refs) == files.filter(|x: FileModel| !refs.contains(x.client_ref)),
    decreases files.len(),
{
    reveal(Seq::filter);
    if files.len() > 0 {
        lemma_unnamed_is_filtered(files.drop_last(), refs);
    }
}

proof fn lemma_unnamed_stay(files: Seq<FileModel>, refs: Seq<Seq<char>>, i: int)
    requires
        0 <= i < files.len(),
        !refs.contains(files[i].client_ref),
    ensures
        unnamed(files, refs).contains(files[i]),
    decreases files.len(),
{
    let rest = files.drop_last();
    let kept = unnamed(rest, refs);
    let all = unnamed(files, refs);
    if i < rest.len() {
        lemma_unnamed_stay(rest, refs, i);
        let j = choose|j: int| 0 <= j < kept.len() && kept[j] == rest[i];
        assert(all[j] == files[i]);
    } else {
        assert(all[all.len() - 1] == files[i]);
    }
}

proof fn lemma_gone(files: Seq<FileModel>, refs: Seq<Seq<char>>)
    requires
        distinct_refs(files),
    ensures
        ({
            let gone = removal(files, refs).gone;
            &&& forall|i: int, j: int|
                0 <= i < j < gone.len() ==> (#[trigger] gone[i]).client_ref != (
                #[trigger] gone[j]).client_ref
            &&& forall|i: int|
                0 <= i < gone.len() ==> files.contains(#[trigger] gone[i]) && refs.contains(
                    gone[i].client_ref,
                )
            &&& forall|i: int|
                0 <= i < files.len() && refs.contains((#[trigger] files[i]).client_ref)
                    ==> gone.contains(files[i])
        }),
    decreases refs.len(),
{
    let out = removal(files, refs);
    if refs.len() > 0 {
        let front = refs.drop_last();
        let r = refs.last();
        let before = removal(files, front);
        lemma_gone(files, front);
        removal_leaves_the_unnamed(files, front);
        lemma_unnamed_members(files, front);
        lemma_position_of(before.files, r);
        assert(refs[refs.len() - 1] == r);
        assert forall|x: Seq<char>| refs.contains(x) <==> front.contains(x) || x == r by {
            if refs.contains(x) {
                let i = choose|i: int| 0 <= i < refs.len() && refs[i] == x;
                if i < front.len() {
                    assert(front[i] == x);
                }
            }
            if front.contains(x) {
                let i = choose|i: int| 0 <= i < front.len() && front[i] == x;
                assert(refs[i] == x);
            }
        }
        if position_of(before.files, r) is Some {
            let m = position_of(before.files, r)->0;
            let file = before.files[m];
            assert(out.gone == before.gone.push(file));
            assert(files.contains(unnamed(files, front)[m]));
            assert(!front.contains(file.client_ref));
            assert forall|i: int| 0 <= i < files.len() && refs.contains(
                (#[trigger] files[i]).client_ref,
            ) implies out.gone.contains(files[i]) by {
                if front.contains(files[i].client_ref) {
                    assert(before.gone.contains(files[i]));
                    let j = choose|j: int| 0 <= j < before.gone.len() && before.gone[j] == files[i];
                    assert(out.gone[j] == files[i]);
                } else {
                    let j = choose|j: int| 0 <= j < files.len() && files[j] == file;
                    assert(i == j);
                    assert(out.gone[before.gone.len() as int] == file);
                }
            }
            assert forall|i: int| 0 <= i < out.gone.len() implies files.contains(
                #[trigger] out.gone[i],
            ) && refs.contains(out.gone[i].client_ref) by {
                if i < before.gone.len() {
                    assert(out.gone[i] == before.gone[i]);
                }
            }
            assert forall|i: int, j: int| 0 <= i < j < out.gone.len() implies (
            #[trigger] out.gone[i]).client_ref != (#[trigger] out.gone[j]).client_ref by {
                assert(out.gone[i] == before.gone[i]);
                if j < before.gone.len() {
                    assert(out.gone[j] == before.gone[j]);
                } else {
                    assert(front.contains(before.gone[i].client_ref));
                }
            }
        } else {
            assert(out == before);
            assert forall|i: int| 0 <= i < files.len() && refs.contains(
                (#[trigger] files[i]).client_ref,
            ) implies out.gone.contains(files[i]) by {
                if !front.contains(files[i].client_ref) {
                    lemma_unnamed_stay(files, front, i);
                    let j = choose|j: int|
                        0 <= j < before.files.len() && before.files[j] == files[i];
                    assert(before.files[j].client_ref == r);
                }
            }
        }
    }
}

/// The references in a session are distinct.
pub open spec fn refs_differ(s: UploadSession) -> bool {
    forall|i: int, j: int|
        0 <= i < j < s.files@.len() ==> (#[trigger] s.files@[i]).client_ref@ != (
        #[trigger] s.files@[j]).client_ref@
}

proof fn lemma_refs_differ(s: UploadSession)
    requires
        refs_differ(s),
    ensures
        distinct_refs(s@.files),
{
    assert forall|i: int, j: int| 0 <= i < j < s@.files.len() implies (
    #[trigger] s@.files[i]).client_ref != (#[trigger] s@.files[j]).client_ref by {
        assert(s@.files[i] == s.files@[i]@ && s@.files[j] == s.files@[j]@);
    }
}

/// The list names each file of the session that the request names, once, and
/// nothing else.
pub open spec fn names_those_found(
    told: Seq<String>,
    asked: Seq<String>,
    files: Seq<SessionFile>,
) -> bool {
    &&& forall|i: int, j: int|
        0 <= i < j < told.len() ==> (#[trigger] told[i])@ != (#[trigger] told[j])@
    &&& forall|r: Seq<char>| #[trigger]
        texts(told).contains(r) <==> texts(asked).contains(r) && has_ref(files, r)
}

proof fn lemma_told(s: UploadSession, asked: Seq<String>, told: Seq<String>)
    requires
        refs_differ(s),
        texts(told) == refs_of(removal(s@.files, texts(asked)).gone),
    ensures
        names_those_found(told, asked, s.files@),
{
    lemma_refs_differ(s);
    let files = s@.files;
    let refs = texts(asked);
    let gone = removal(files, refs).gone;
    lemma_gone(files, refs);
    assert(texts(told).len() == told.len() && refs_of(gone).len() == gone.len());
    assert forall|i: int, j: int| 0 <= i < j < told.len() implies (#[trigger] told[i])@ != (
    #[trigger] told[j])@ by {
        assert(texts(told)[i] == gone[i].client_ref && texts(told)[j] == gone[j].client_ref);
    }
    assert forall|r: Seq<char>| #[trigger]
        texts(told).contains(r) <==> refs.contains(r) && has_ref(s.files@, r) by {
        if texts(told).contains(r) {
            let i = choose|i: int| 0 <= i < texts(told).len() && texts(told)[i] == r;
            assert(gone[i].client_ref == r);
            assert(files.contains(gone[i]));
            let j = choose|j: int| 0 <= j < files.len() && files[j] == gone[i];
            assert(s.files@[j].client_ref@ == r);
        }
        if refs.contains(r) && has_ref(s.files@, r) {
            let j = choose|j: int|
                0 <= j < s.files@.len() && (#[trigger] s.files@[j]).client_ref@ == r;
            assert(files[j].client_ref == r);
            assert(gone.contains(files[j]));
            let i = choose|i: int| 0 <= i < gone.len() && gone[i] == files[j];
            assert(refs_of(gone)[i] == r);
            assert(texts(told)[i] == r);
        }
    }
}

/// The session is stored with exactly those files that the request does not name,
/// in their order, and otherwise as it was.
pub open spec fn stores_the_rest<T>(
    n: Next<SessionAsk, T>,
    ttl: u64,
    now: i64,
    s: UploadSession,
    asked: Seq<String>,
) -> bool {
    &&& n matches Next::Ask(SessionAsk::Put { session: p, ttl_seconds })
    &&& ttl_seconds == ttl && p.updated_at == now && same_but_files(p, s)
    &&& files_view(p.files@) == files_view(s.files@).filter(
        |x: FileModel| !texts(asked).contains(x.client_ref),
    )
}

/// This is the key of a file that the request names.
pub open spec fn is_key_of_a_named(
    key: Seq<char>,
    asked: Seq<String>,
    files: Seq<SessionFile>,
) -> bool {
    exists|i: int|
        0 <= i < files.len() && (#[trigger] files[i]).tmp_key@ == key && texts(asked).contains(
            files[i].client_ref@,
        )
}

/// These are the keys of the files that the request names, and no others.
pub open spec fn are_keys_of_the_named(
    keys: Seq<String>,
    asked: Seq<String>,
    files: Seq<SessionFile>,
) -> bool {
    &&& forall|k: int|
        0 <= k < keys.len() ==> is_key_of_a_named((#[trigger] keys[k])@, asked, files)
    &&& forall|i: int|
        0 <= i < files.len() && texts(asked).contains((#[trigger] files[i]).client_ref@) ==> texts(
            keys,
        ).contains(files[i].tmp_key@)
}

/// Removing files: the session keeps those that are not named; the keys of those
/// that are taken out are handed on for deletion, one for each; the caller is told
/// which those are.
pub proof fn removing_takes_out_the_named_files(
    ttl: u64,
    session_id: Seq<char>,
    req: RemoveFilesIn,
    current: CurrentUser,
    f: EditFacts,
    n: Next<SessionAsk, RemoveFilesOut>,
)
    requires
        removes(ttl, session_id, req, current, f, n),
        f.found matches Some(Some(s)) ==> refs_differ(s),
    ensures
        comes_to_the_session(n, current, req.scope@, session_id, f.found),
        at_the_session(current, req.scope@, session_id, f.found) ==> {
            let s = f.found->0->0;
            let asked = req.client_refs@;
            &&& f.now is None ==> (n matches Next::Ask(a) && a is Now)
            &&& f.now is Some && !f.stored ==> stores_the_rest(n, ttl, f.now->0, s, asked)
            &&& f.now is Some && f.stored && !f.cleaned ==> {
                &&& n matches Next::Ask(SessionAsk::Cleanup { tmp_keys })
                &&& are_keys_of_the_named(tmp_keys@, asked, s.files@)
            }
            &&& f.now is Some && f.stored && f.cleaned ==> n.is_ok() && names_those_found(
                n->Done_0->Ok_0.removed@,
                asked,
                s.files@,
            )
        },
{
    if at_the_session(current, req.scope@, session_id, f.found) {
        let s = f.found->0->0;
        let refs = texts(req.client_refs@);
        let files = s@.files;
        let gone = removal(files, refs).gone;
        lemma_refs_differ(s);
        removal_leaves_the_unnamed(files, refs);
        lemma_unnamed_is_filtered(files, refs);
        lemma_gone(files, refs);
        if let Next::Ask(SessionAsk::Cleanup { tmp_keys }) = n {
            assert(texts(tmp_keys@).len() == tmp_keys@.len() && keys_of(gone).len() == gone.len());
            assert forall|k: int| 0 <= k < tmp_keys@.len() implies is_key_of_a_named(
                (#[trigger] tmp_keys@[k])@,
                req.client_refs@,
                s.files@,
            ) by {
                assert(texts(tmp_keys@)[k] == keys_of(gone)[k]);
                assert(files.contains(gone[k]));
                let i = choose|i: int| 0 <= i < files.len() && files[i] == gone[k];
                assert(files[i] == s.files@[i]@);
            }
            assert forall|i: int| 0 <= i < s.files@.len() && refs.contains(
                (#[trigger] s.files@[i]).client_ref@,
            ) implies texts(tmp_keys@).contains(s.files@[i].tmp_key@) by {
                assert(files[i] == s.files@[i]@);
                assert(gone.contains(files[i]));
                let k = choose|k: int| 0 <= k < gone.len() && gone[k] == files[i];
                assert(keys_of(gone)[k] == files[i].tmp_key);
                assert(texts(tmp_keys@)[k] == files[i].tmp_key);
            }
        }
        if let Next::Done(Ok(out)) = n {
            lemma_told(s, req.client_refs@, out.removed@);
        }
    }
}

/// Consuming files: the session keeps those that are not named, nothing is handed
/// on for deletion, and the caller is told which were taken out.
pub proof fn consuming_takes_out_the_named_files(
    ttl: u64,
    session_id: Seq<char>,
    req: ConsumeFilesIn,
    current: CurrentUser,
    f: EditFacts,
    n: Next<SessionAsk, ConsumeFilesOut>,
)
    requires
        consumes(ttl, session_id, req, current, f, n),
        f.found matches Some(Some(s)) ==> refs_differ(s),
    ensures
        comes_to_the_session(n, current, req.scope@, session_id, f.found),
        at_the_session(current, req.scope@, session_id, f.found) ==> {
            let s = f.found->0->0;
            let asked = req.client_refs@;
            &&& f.now is None ==> (n matches Next::Ask(a) && a is Now)
            &&& f.now is Some && !f.stored ==> stores_the_rest(n, ttl, f.now->0, s, asked)
            &&& f.now is Some && f.stored ==> n.is_ok() && names_those_found(
                n->Done_0->Ok_0.consumed@,
                asked,
                s.files@,
            )
        },
{
    if at_the_session(current, req.scope@, session_id, f.found) {
        let s = f.found->0->0;
        let refs = texts(req.client_refs@);
        lemma_refs_differ(s);
        removal_leaves_the_unnamed(s@.files, refs);
        lemma_unnamed_is_filtered(s@.files, refs);
        if let Next::Done(Ok(out)) = n {
            lemma_told(s, req.client_refs@, out.consumed@);
        }
    }
}

// ---------------------------------------------------------------------------
// What a refusal names
// ---------------------------------------------------------------------------

/// A refused completion names what was asked for and what is there: the scope,
/// the sessions, the file, or the sizes.
pub proof fn refused_completions_name_the_cause(
    ttl: u64,
    session_id: Seq<char>,
    client_ref: Seq<char>,
    req: CompleteFileIn,
    current: CurrentUser,
    f: CompleteFacts,
    n: Next<SessionAsk, CompleteFileOut>,
)
    requires
        completes(ttl, session_id, client_ref, req, current, f, n),
    ensures
        n matches Next::Done(Err(e)) ==> match e.code {
            ErrorCode::Forbidden => e.message@ == "权限不足"@,
            ErrorCode::BizUploadSessionScopeInvalid => e.message@ == "scope "@ + debug_quoted(
                req.scope@,
            ) + " 不在白名单"@,
            ErrorCode::BizUploadSessionNotFound => e.message@
                == "session 不存在（discarded / TTL 过期）"@,
            ErrorCode::BizUploadSessionMismatch => e.message@ == "path session_id "@ + debug_quoted(
                session_id,
            ) + " 与 Redis session.session_id "@ + debug_quoted(f.found->0->0.session_id@)
                + " 不匹配"@,
            ErrorCode::BizUploadSessionFileNotFound => e.message@ == "client_ref "@ + debug_quoted(
                client_ref,
            ) + " 不在 session.files"@,
            ErrorCode::BizUploadSessionHeadFailed => e.message@ == "head_object 失败: "@
                + f.head->0->Err_0@,
            ErrorCode::BizUploadSessionSizeMismatch => e.message@ == "head size "@ + decimal(
                f.head->0->Ok_0.size as int,
            ) + " 与声明 "@ + decimal(req.file_size->0 as int) + " 不一致"@,
            _ => false,
        },
{
}

/// An announced file that is refused is told what is wrong with it.
pub proof fn refused_files_are_told_why(item: AllocateFileItemIn)
    ensures
        item_problem(item) matches Some(p) ==> match p.0 {
            ErrorCode::BizUploadSessionBadType => p.1 == "kind "@ + debug_quoted(item.kind@)
                + " 不在白名单（仅 drawing / 3d_model）"@,
            ErrorCode::ValidationError => is_sha256(item.content_sha256@) ==> p.1 == (
            if item.original_filename@.len() == 0 {
                "original_filename 不可为空"@
            } else {
                "file_size 必须 > 0"@
            }),
            _ => false,
        },
{
}

/// Credentials for another prefix are told with both prefixes.
pub proof fn drift_is_told_with_both_prefixes(
    cfg: UploadSessionConfig,
    session_id: Seq<char>,
    req: RenewIn,
    current: CurrentUser,
    f: RenewFacts,
    n: Next<SessionAsk, RenewOut>,
)
    requires
        renews(cfg, session_id, req, current, f, n),
    ensures
        n.is_refused(ErrorCode::Internal) && f.issued is Some && f.issued->0 is Ok ==> n.fails(
            ErrorCode::Internal,
            "STS 凭证 prefix 漂移: session "@ + debug_quoted(f.found->0->0.tmp_prefix@)
                + "，返回 "@ + debug_quoted(f.issued->0->Ok_0.tmp_prefix->0@),
        ),
{
}

} // verus!
