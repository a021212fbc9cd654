//! The seven endpoints of the upload sessions.
use super::dto::{
    allowed_scope, copy_files, files_view, is_valid_scope, shown_credentials, AllocateFilesIn,
    AllocateFilesOut, CompleteFileIn, CompleteFileOut, ConsumeFilesIn, ConsumeFilesOut, DiscardIn,
    DiscardOut, FileModel, GetOrCreateIn, GetOrCreateOut, RemoveFilesIn, RemoveFilesOut, RenewIn,
    RenewOut, SessionCredentials, SessionCredentialsOut, SessionFile, SessionModel, UploadSession,
};
use super::files::{
    allocate_into, allocated, find_file, lemma_allocated_tags, lemma_position_of,
    lemma_removal_tags, position_of, remove_from, removal, slots_view, tags_match, texts,
};
use crate::auth::{forbidden_text, CurrentUser, Role};
use crate::clock::{rfc3339_text, Instant};
use crate::error::{AppError, ErrorCode, Problem};
use crate::flow::Next;
use crate::text::{self, debug_quoted, debug_text, decimal, join3, same};
use vstd::prelude::*;
use vstd::string::*;

verus! {

// ---------------------------------------------------------------------------
// What the sessions are run with
// ---------------------------------------------------------------------------

/// How long sessions and credentials live.
#[derive(Debug, Clone, Copy)]
pub struct UploadSessionConfig {
    pub ttl_seconds: u64,
    pub sts_duration_seconds: u32,
    /// Credentials with less than this left are renewed.
    pub renew_threshold_seconds: i64,
}

/// Credentials as the security token service issues them. `tmp_prefix` is there
/// where the service says which prefix they are for.
#[derive(Debug)]
pub struct StsCredential {
    pub credentials: SessionCredentials,
    pub bucket: String,
    pub region: String,
    pub tmp_prefix: Option<String>,
}

impl StsCredential {
    /// The lifetime fits the number it is reported in.
    pub open spec fn lifetime_fits(&self) -> bool {
        i64::MIN <= self.credentials.expired_time - self.credentials.start_time <= i64::MAX
    }
}

/// What the object storage says of a stored object.
#[derive(Debug)]
pub struct ObjectMeta {
    pub size: i64,
    pub etag: String,
}

/// The name of a new session and the prefix under which its files are stored.
#[derive(Debug)]
pub struct SessionIdentity {
    pub session_id: String,
    pub tmp_prefix: String,
}

/// What an endpoint of the sessions asks for.
pub enum SessionAsk {
    /// The stored session of a user and scope.
    Find { user_id: i64, scope: String },
    /// The time.
    Now,
    /// The time at which credentials were issued.
    IssueTime,
    /// Keeping this fresh name for a new session.
    Identify { identity: SessionIdentity },
    /// Credentials for a prefix.
    Issue { tmp_prefix: String, duration_seconds: u32 },
    /// Storing a session, for so many seconds.
    Put { session: UploadSession, ttl_seconds: u64 },
    /// Keeping the stored session for so many seconds more.
    Touch { user_id: i64, scope: String, ttl_seconds: u64 },
    /// Forgetting the stored session.
    Delete { user_id: i64, scope: String },
    /// What is stored under a key.
    Head { tmp_key: String },
    /// Deleting stored objects, without waiting for it; a failure changes nothing.
    Cleanup { tmp_keys: Vec<String> },
}

// ---------------------------------------------------------------------------
// Who may do what, and on which session
// ---------------------------------------------------------------------------

/// Managers and clerks may upload.
pub open spec fn may_upload(current: CurrentUser) -> bool {
    current.is(Role::Manager) || current.is(Role::Clerk)
}

/// Refuses a caller that is neither a manager nor a clerk.
pub fn require_role(current: &CurrentUser) -> (r: Result<(), AppError>)
    ensures
        r is Ok <==> may_upload(*current),
        r matches Err(e) ==> e.says(ErrorCode::Forbidden, forbidden_text()),
{
    let allowed: [Role; 2] = [Role::Manager, Role::Clerk];
    proof {
        assert(allowed@[0] == Role::Manager);
        assert(allowed@[1] == Role::Clerk);
        assert(current.is_any(allowed@) <==> may_upload(*current)) by {
            if current.is(Role::Manager) {
                assert(current.is(allowed@[0]));
            }
            if current.is(Role::Clerk) {
                assert(current.is(allowed@[1]));
            }
        }
    }
    current.require_any_role(&allowed)
}

/// Why a caller may not use sessions of a scope; `note` ends the message about
/// the scope.
pub open spec fn admission_problem(
    current: CurrentUser,
    scope: Seq<char>,
    note: Seq<char>,
) -> Option<Problem> {
    if !may_upload(current) {
        Some((ErrorCode::Forbidden, forbidden_text()))
    } else if !allowed_scope(scope) {
        Some((ErrorCode::BizUploadSessionScopeInvalid, "scope "@ + debug_quoted(scope) + note))
    } else {
        None
    }
}

fn check_admission(current: &CurrentUser, scope: &String, note: &str) -> (r: Result<(), AppError>)
    ensures
        match admission_problem(*current, scope@, note@) {
            Some(p) => r matches Err(e) && e.says(p.0, p.1),
            None => r is Ok,
        },
{
    match require_role(current) {
        Err(e) => {
            return Err(e);
        },
        Ok(()) => {},
    }
    if !is_valid_scope(scope.as_str()) {
        let message = join3("scope ", debug_text(scope.as_str()).as_str(), note);
        return Err(AppError::biz(ErrorCode::BizUploadSessionScopeInvalid, message.as_str()));
    }
    Ok(())
}

/// The message about a session that is not the one that is stored.
pub open spec fn mismatch_text(asked: Seq<char>, stored: Seq<char>) -> Seq<char> {
    "path session_id "@ + debug_quoted(asked) + " 与 Redis session.session_id "@ + debug_quoted(
        stored,
    ) + " 不匹配"@
}

/// Why a request cannot work on what is stored: nothing is, or another session.
pub open spec fn session_problem(
    found: Option<UploadSession>,
    session_id: Seq<char>,
    missing: Seq<char>,
) -> Option<Problem> {
    match found {
        None => Some((ErrorCode::BizUploadSessionNotFound, missing)),
        Some(s) => if s.session_id@ != session_id {
            Some(
                (ErrorCode::BizUploadSessionMismatch, mismatch_text(session_id, s.session_id@)),
            )
        } else {
            None
        },
    }
}

fn mismatch(asked: &str, stored: &str) -> (r: AppError)
    ensures
        r.says(ErrorCode::BizUploadSessionMismatch, mismatch_text(asked@, stored@)),
{
    let mut message = join3(
        "path session_id ",
        debug_text(asked).as_str(),
        " 与 Redis session.session_id ",
    );
    message.append(debug_text(stored).as_str());
    message.append(" 不匹配");
    AppError::biz(ErrorCode::BizUploadSessionMismatch, message.as_str())
}

fn locate<'a>(found: &'a Option<UploadSession>, session_id: &str, missing: &str) -> (r: Result<
    &'a UploadSession,
    AppError,
>)
    ensures
        match session_problem(*found, session_id@, missing@) {
            Some(p) => r matches Err(e) && e.says(p.0, p.1),
            None => r matches Ok(s) && *found == Some(*s),
        },
{
    match found {
        None => Err(AppError::biz(ErrorCode::BizUploadSessionNotFound, missing)),
        Some(s) => if same(s.session_id.as_str(), session_id) {
            Ok(s)
        } else {
            Err(mismatch(session_id, s.session_id.as_str()))
        },
    }
}

// ---------------------------------------------------------------------------
// Issuing and renewing credentials
// ---------------------------------------------------------------------------

/// The prefix of a session's files.
pub open spec fn prefix_of(session_id: Seq<char>) -> Seq<char> {
    "tmp/sess/"@ + session_id + "/"@
}

/// A random UUID in its usual text form: groups of lower-case hexadecimal digits
/// of lengths 8, 4, 4, 4 and 12, version 4, in the variant of RFC 4122.
pub open spec fn is_uuid_text(s: Seq<char>) -> bool {
    &&& s.len() == 36
    &&& s[14] == '4'
    &&& s[19] == '8' || s[19] == '9' || s[19] == 'a' || s[19] == 'b'
    &&& forall|i: int|
        0 <= i < 36 ==> if i == 8 || i == 13 || i == 18 || i == 23 {
            #[trigger] s[i] == '-'
        } else {
            text::is_digit(s[i]) || 'a' <= s[i] <= 'f'
        }
}

/// Calls uuid's `Uuid::new_v4` and formats the value with its `Display` impl. The
/// value is random; its text has the form of a version 4 UUID of the RFC 4122
/// variant.
#[verifier::external_body]
fn random_uuid() -> (r: String)
    ensures
        is_uuid_text(r@),
{
    uuid::Uuid::new_v4().to_string()
}

/// A name of the form that names are made in, with the prefix that goes with it.
pub open spec fn is_fresh_identity(identity: SessionIdentity) -> bool {
    is_uuid_text(identity.session_id@) && identity.tmp_prefix@ == prefix_of(
        identity.session_id@,
    )
}

/// How long credentials live, never less than nothing.
pub open spec fn lifetime(c: SessionCredentials) -> i64 {
    if c.expired_time - c.start_time > 0 {
        (c.expired_time - c.start_time) as i64
    } else {
        0
    }
}

/// A session as it is first stored.
pub open spec fn opened_session(
    identity: SessionIdentity,
    user_id: i64,
    scope: Seq<char>,
    cred: StsCredential,
    now: i64,
) -> SessionModel {
    SessionModel {
        session_id: identity.session_id@,
        user_id,
        scope,
        tmp_prefix: identity.tmp_prefix@,
        bucket: cred.bucket@,
        region: cred.region@,
        credentials: cred.credentials,
        expires_in: lifetime(cred.credentials),
        files: Seq::empty(),
        created_at: now,
        updated_at: now,
    }
}

/// A session with new credentials: nothing else but its time stamp changes.
pub open spec fn renewed_session(s: SessionModel, cred: StsCredential, now: i64) -> SessionModel {
    SessionModel {
        credentials: cred.credentials,
        expires_in: lifetime(cred.credentials),
        bucket: cred.bucket@,
        region: cred.region@,
        updated_at: now,
        ..s
    }
}

/// The credentials are for another prefix than the session's.
pub open spec fn drifted(prefix: Seq<char>, cred: StsCredential) -> bool {
    cred.tmp_prefix matches Some(p) && p@ != prefix
}

/// The message about credentials for another prefix.
pub open spec fn drift_text(prefix: Seq<char>, cred: StsCredential) -> Seq<char> {
    "STS 凭证 prefix 漂移: session "@ + debug_quoted(prefix) + "，返回 "@ + debug_quoted(
        cred.tmp_prefix->0@,
    )
}

fn lifetime_of(c: &SessionCredentials) -> (r: i64)
    requires
        i64::MIN <= c.expired_time - c.start_time <= i64::MAX,
    ensures
        r == lifetime(*c),
{
    let d: i64 = c.expired_time - c.start_time;
    if d > 0 {
        d
    } else {
        0
    }
}

fn open_session(
    identity: &SessionIdentity,
    user_id: i64,
    scope: &String,
    cred: &StsCredential,
    now: i64,
) -> (r: UploadSession)
    requires
        cred.lifetime_fits(),
    ensures
        r@ == opened_session(*identity, user_id, scope@, *cred, now),
{
    let session = UploadSession {
        session_id: identity.session_id.clone(),
        user_id,
        scope: scope.clone(),
        tmp_prefix: identity.tmp_prefix.clone(),
        bucket: cred.bucket.clone(),
        region: cred.region.clone(),
        credentials: cred.credentials.clone(),
        expires_in: lifetime_of(&cred.credentials),
        files: Vec::new(),
        created_at: now,
        updated_at: now,
    };
    assert(session@.files =~= Seq::<FileModel>::empty());
    session
}

fn renew_credentials(s: &UploadSession, cred: &StsCredential, now: i64) -> (r: UploadSession)
    requires
        cred.lifetime_fits(),
    ensures
        r@ == renewed_session(s@, *cred, now),
{
    UploadSession {
        session_id: s.session_id.clone(),
        user_id: s.user_id,
        scope: s.scope.clone(),
        tmp_prefix: s.tmp_prefix.clone(),
        bucket: cred.bucket.clone(),
        region: cred.region.clone(),
        credentials: cred.credentials.clone(),
        expires_in: lifetime_of(&cred.credentials),
        files: copy_files(&s.files),
        created_at: s.created_at,
        updated_at: now,
    }
}

fn check_drift(prefix: &String, cred: &StsCredential) -> (r: Result<(), AppError>)
    ensures
        r is Ok <==> !drifted(prefix@, *cred),
        r matches Err(e) ==> e.says(ErrorCode::Internal, drift_text(prefix@, *cred)),
{
    match &cred.tmp_prefix {
        Some(p) => if same(p.as_str(), prefix.as_str()) {
            Ok(())
        } else {
            let mut message = join3(
                "STS 凭证 prefix 漂移: session ",
                debug_text(prefix.as_str()).as_str(),
                "，返回 ",
            );
            message.append(debug_text(p.as_str()).as_str());
            Err(AppError::internal(message.as_str()))
        },
        None => Ok(()),
    }
}

/// What the client is told of an opened session.
pub open spec fn tells_session(out: GetOrCreateOut, s: SessionModel) -> bool {
    &&& out.session_id@ == s.session_id
    &&& out.scope@ == s.scope
    &&& out.tmp_prefix@ == s.tmp_prefix
    &&& out.bucket@ == s.bucket
    &&& out.region@ == s.region
    &&& out.credentials == shown_credentials(s.credentials)
    &&& out.expires_in == s.expires_in
    &&& files_view(out.files@) == s.files
}

fn tell_session(s: &UploadSession) -> (r: GetOrCreateOut)
    ensures
        tells_session(r, s@),
{
    GetOrCreateOut {
        session_id: s.session_id.clone(),
        scope: s.scope.clone(),
        tmp_prefix: s.tmp_prefix.clone(),
        bucket: s.bucket.clone(),
        region: s.region.clone(),
        credentials: SessionCredentialsOut::from(&s.credentials),
        expires_in: s.expires_in,
        files: copy_files(&s.files),
    }
}

// ---------------------------------------------------------------------------
// The endpoints
// ---------------------------------------------------------------------------

pub struct UploadSessionService;

/// What is known while a session is opened.
pub struct OpenFacts {
    pub now: Option<i64>,
    pub found: Option<Option<UploadSession>>,
    pub identity: Option<SessionIdentity>,
    pub issued: Option<Result<StsCredential, AppError>>,
    pub issued_at: Option<i64>,
    pub stored: bool,
    pub touched: bool,
}

/// The credentials in hand have a lifetime that can be told.
pub open spec fn issue_fits(issued: Option<Result<StsCredential, AppError>>) -> bool {
    issued matches Some(Ok(cred)) ==> cred.lifetime_fits()
}

/// Less than the threshold is left of the session's credentials.
pub open spec fn runs_out(s: UploadSession, now: i64, cfg: UploadSessionConfig) -> bool {
    s.credentials.expired_time - now < cfg.renew_threshold_seconds
}

/// Stores `session` first, then tells the client of it.
pub open spec fn stores_then_tells(
    n: Next<SessionAsk, GetOrCreateOut>,
    stored: bool,
    session: SessionModel,
    ttl: u64,
) -> bool {
    if !stored {
        n matches Next::Ask(SessionAsk::Put { session: s, ttl_seconds }) && s@ == session
            && ttl_seconds == ttl
    } else {
        n matches Next::Done(Ok(out)) && tells_session(out, session)
    }
}

/// How a session is opened that is not there yet.
pub open spec fn creates(
    cfg: UploadSessionConfig,
    scope: Seq<char>,
    user_id: i64,
    f: OpenFacts,
    n: Next<SessionAsk, GetOrCreateOut>,
) -> bool {
    match (f.identity, f.issued, f.issued_at) {
        (None, _, _) => n matches Next::Ask(SessionAsk::Identify { identity }) && is_fresh_identity(
            identity,
        ),
        (Some(id), None, _) => n matches Next::Ask(SessionAsk::Issue { tmp_prefix, duration_seconds })
            && tmp_prefix@ == id.tmp_prefix@ && duration_seconds == cfg.sts_duration_seconds,
        (Some(_), Some(Err(e)), _) => n.fails_with(e),
        (Some(_), Some(Ok(_)), None) => n is Ask && n->Ask_0 is IssueTime,
        (Some(id), Some(Ok(cred)), Some(at)) => stores_then_tells(
            n,
            f.stored,
            opened_session(id, user_id, scope, cred, at),
            cfg.ttl_seconds,
        ),
    }
}

/// How a session is opened whose credentials run out. It keeps its own prefix,
/// whatever prefix comes with the new credentials.
pub open spec fn refreshes(
    cfg: UploadSessionConfig,
    s: UploadSession,
    f: OpenFacts,
    n: Next<SessionAsk, GetOrCreateOut>,
) -> bool {
    match (f.issued, f.issued_at) {
        (None, _) => n matches Next::Ask(SessionAsk::Issue { tmp_prefix, duration_seconds })
            && tmp_prefix@ == s.tmp_prefix@ && duration_seconds == cfg.sts_duration_seconds,
        (Some(Err(e)), _) => n.fails_with(e),
        (Some(Ok(_)), None) => n is Ask && n->Ask_0 is IssueTime,
        (Some(Ok(cred)), Some(at)) => stores_then_tells(
            n,
            f.stored,
            renewed_session(s@, cred, at),
            cfg.ttl_seconds,
        ),
    }
}

/// The note behind a refused scope where a session is opened.
pub open spec fn open_note() -> Seq<char> {
    " 不在白名单（首期仅 parts_new）"@
}

/// The note behind a refused scope elsewhere.
pub open spec fn scope_note() -> Seq<char> {
    " 不在白名单"@
}

/// How a session is opened.
pub open spec fn opens(
    cfg: UploadSessionConfig,
    req: GetOrCreateIn,
    current: CurrentUser,
    f: OpenFacts,
    n: Next<SessionAsk, GetOrCreateOut>,
) -> bool {
    match admission_problem(current, req.scope@, open_note()) {
        Some(p) => n.fails(p.0, p.1),
        None => match (f.now, f.found) {
            (None, _) => n is Ask && n->Ask_0 is Now,
            (Some(_), None) => n.asks(SessionAsk::Find { user_id: current.id, scope: req.scope }),
            (Some(_), Some(None)) => creates(cfg, req.scope@, current.id, f, n),
            (Some(now), Some(Some(s))) => if runs_out(s, now, cfg) {
                refreshes(cfg, s, f, n)
            } else if !f.touched {
                n.asks(
                    SessionAsk::Touch {
                        user_id: current.id,
                        scope: req.scope,
                        ttl_seconds: cfg.ttl_seconds,
                    },
                )
            } else {
                n matches Next::Done(Ok(out)) && tells_session(out, s@)
            },
        },
    }
}

/// What is known while the files of a session are edited.
pub struct EditFacts {
    pub found: Option<Option<UploadSession>>,
    pub now: Option<i64>,
    pub stored: bool,
    pub cleaned: bool,
}

/// The message about a session that is not there, where it may have run out.
pub open spec fn gone_text() -> Seq<char> {
    "session 不存在（discarded / TTL 过期）"@
}

/// The message about a session that is not there.
pub open spec fn absent_text() -> Seq<char> {
    "session 不存在"@
}

/// `n` asks that this session be stored.
pub open spec fn puts<T>(n: Next<SessionAsk, T>, session: SessionModel, ttl: u64) -> bool {
    n matches Next::Ask(SessionAsk::Put { session: s, ttl_seconds }) && s@ == session
        && ttl_seconds == ttl
}

/// The session that an endpoint on a named session works on: the caller and the
/// scope are in order, and the stored session was looked up and is the named one.
pub open spec fn reached(
    current: CurrentUser,
    scope: String,
    session_id: Seq<char>,
    found: Option<Option<UploadSession>>,
) -> Option<UploadSession> {
    match (admission_problem(current, scope@, scope_note()), found) {
        (None, Some(Some(s))) => if s.session_id@ == session_id {
            Some(s)
        } else {
            None
        },
        _ => None,
    }
}

/// The answer of an endpoint on a named session that does not reach it.
pub open spec fn stops_short<T>(
    current: CurrentUser,
    scope: String,
    session_id: Seq<char>,
    missing: Seq<char>,
    found: Option<Option<UploadSession>>,
    n: Next<SessionAsk, T>,
) -> bool {
    match admission_problem(current, scope@, scope_note()) {
        Some(p) => n.fails(p.0, p.1),
        None => match found {
            None => n.asks(SessionAsk::Find { user_id: current.id, scope }),
            Some(found) => match session_problem(found, session_id, missing) {
                Some(p) => n.fails(p.0, p.1),
                None => false,
            },
        },
    }
}

/// How files are announced to a session.
pub open spec fn allocates(
    ttl: u64,
    session_id: Seq<char>,
    req: AllocateFilesIn,
    current: CurrentUser,
    f: EditFacts,
    n: Next<SessionAsk, AllocateFilesOut>,
) -> bool {
    match reached(current, req.scope, session_id, f.found) {
        None => stops_short(current, req.scope, session_id, gone_text(), f.found, n),
        Some(s) => match allocated(s.tmp_prefix@, s@.files, req.files@) {
            Err(p) => n.fails(p.0, p.1),
            Ok(a) => match f.now {
                None => n is Ask && n->Ask_0 is Now,
                Some(now) => if !f.stored {
                    puts(n, SessionModel { files: a.files, updated_at: now, ..s@ }, ttl)
                } else {
                    n matches Next::Done(Ok(out)) && slots_view(out.items@) == a.slots
                },
            },
        },
    }
}

/// What is known while a file is reported as uploaded. `head` holds what the
/// object storage said of the file, or the text of its error.
pub struct CompleteFacts {
    pub found: Option<Option<UploadSession>>,
    pub head: Option<Result<ObjectMeta, String>>,
    pub now: Option<Instant>,
    pub stored: bool,
}

/// A file that turned out not to be uploaded as declared. It has no tag and no
/// upload time, not even those of an earlier upload.
pub open spec fn failed_file(file: FileModel) -> FileModel {
    FileModel { status: "error"@, etag: None, uploaded_at: None, ..file }
}

/// A file that was uploaded: its size and tag are those of the stored object.
pub open spec fn done_file(file: FileModel, meta: ObjectMeta, now: Instant) -> FileModel {
    FileModel {
        status: "done"@,
        etag: Some(meta.etag@),
        uploaded_at: Some(rfc3339_text(now.unix, now.nanos)),
        file_size: meta.size,
        ..file
    }
}

/// What is found out about a file from its stored object: why it is refused, or
/// that it is done.
pub open spec fn upload_problem(
    declared: Option<i64>,
    head: Result<ObjectMeta, String>,
) -> Option<Problem> {
    match head {
        Err(reason) => Some(
            (ErrorCode::BizUploadSessionHeadFailed, "head_object 失败: "@ + reason@),
        ),
        Ok(meta) => match declared {
            Some(d) => if d != meta.size {
                Some(
                    (
                        ErrorCode::BizUploadSessionSizeMismatch,
                        "head size "@ + decimal(meta.size as int) + " 与声明 "@ + decimal(d as int)
                            + " 不一致"@,
                    ),
                )
            } else {
                None
            },
            None => None,
        },
    }
}

/// How a file is reported as uploaded.
pub open spec fn completes(
    ttl: u64,
    session_id: Seq<char>,
    client_ref: Seq<char>,
    req: CompleteFileIn,
    current: CurrentUser,
    f: CompleteFacts,
    n: Next<SessionAsk, CompleteFileOut>,
) -> bool {
    match reached(current, req.scope, session_id, f.found) {
        None => stops_short(current, req.scope, session_id, gone_text(), f.found, n),
        Some(s) => match position_of(s@.files, client_ref) {
            None => n.fails(
                ErrorCode::BizUploadSessionFileNotFound,
                "client_ref "@ + debug_quoted(client_ref) + " 不在 session.files"@,
            ),
            Some(i) => match (f.head, f.now) {
                (None, _) => n matches Next::Ask(SessionAsk::Head { tmp_key }) && tmp_key@
                    == s@.files[i].tmp_key,
                (Some(_), None) => n is Ask && n->Ask_0 is Now,
                (Some(head), Some(now)) => {
                    let problem = upload_problem(req.file_size, head);
                    let file = if problem is Some {
                        failed_file(s@.files[i])
                    } else {
                        done_file(s@.files[i], head->Ok_0, now)
                    };
                    if !f.stored {
                        puts(
                            n,
                            SessionModel {
                                files: s@.files.update(i, file),
                                updated_at: now.unix,
                                ..s@
                            },
                            ttl,
                        )
                    } else {
                        match problem {
                            Some(p) => n.fails(p.0, p.1),
                            None => n matches Next::Done(Ok(out)) && out@ == file,
                        }
                    }
                },
            },
        },
    }
}

/// The references of a list of files.
pub open spec fn refs_of(files: Seq<FileModel>) -> Seq<Seq<char>> {
    files.map_values(|x: FileModel| x.client_ref)
}

/// The storage keys of a list of files.
pub open spec fn keys_of(files: Seq<FileModel>) -> Seq<Seq<char>> {
    files.map_values(|x: FileModel| x.tmp_key)
}

/// How files are taken out of a session and deleted from the storage.
pub open spec fn removes(
    ttl: u64,
    session_id: Seq<char>,
    req: RemoveFilesIn,
    current: CurrentUser,
    f: EditFacts,
    n: Next<SessionAsk, RemoveFilesOut>,
) -> bool {
    match reached(current, req.scope, session_id, f.found) {
        None => stops_short(current, req.scope, session_id, absent_text(), f.found, n),
        Some(s) => {
            let left = removal(s@.files, texts(req.client_refs@));
            match f.now {
                None => n is Ask && n->Ask_0 is Now,
                Some(now) => if !f.stored {
                    puts(n, SessionModel { files: left.files, updated_at: now, ..s@ }, ttl)
                } else if !f.cleaned {
                    n matches Next::Ask(SessionAsk::Cleanup { tmp_keys }) && texts(tmp_keys@)
                        == keys_of(left.gone)
                } else {
                    n matches Next::Done(Ok(out)) && texts(out.removed@) == refs_of(left.gone)
                },
            }
        },
    }
}

/// How files are taken out of a session and left in the storage.
pub open spec fn consumes(
    ttl: u64,
    session_id: Seq<char>,
    req: ConsumeFilesIn,
    current: CurrentUser,
    f: EditFacts,
    n: Next<SessionAsk, ConsumeFilesOut>,
) -> bool {
    match reached(current, req.scope, session_id, f.found) {
        None => stops_short(current, req.scope, session_id, absent_text(), f.found, n),
        Some(s) => {
            let left = removal(s@.files, texts(req.client_refs@));
            match f.now {
                None => n is Ask && n->Ask_0 is Now,
                Some(now) => if !f.stored {
                    puts(n, SessionModel { files: left.files, updated_at: now, ..s@ }, ttl)
                } else {
                    n matches Next::Done(Ok(out)) && texts(out.consumed@) == refs_of(left.gone)
                },
            }
        },
    }
}

/// What is known while credentials are renewed.
pub struct RenewFacts {
    pub found: Option<Option<UploadSession>>,
    pub issued: Option<Result<StsCredential, AppError>>,
    pub now: Option<i64>,
    pub stored: bool,
}

/// How the credentials of a session are renewed on demand.
pub open spec fn renews(
    cfg: UploadSessionConfig,
    session_id: Seq<char>,
    req: RenewIn,
    current: CurrentUser,
    f: RenewFacts,
    n: Next<SessionAsk, RenewOut>,
) -> bool {
    match reached(current, req.scope, session_id, f.found) {
        None => stops_short(current, req.scope, session_id, gone_text(), f.found, n),
        Some(s) => match f.issued {
            None => n matches Next::Ask(SessionAsk::Issue { tmp_prefix, duration_seconds })
                && tmp_prefix@ == s.tmp_prefix@ && duration_seconds == cfg.sts_duration_seconds,
            Some(Err(e)) => n.fails_with(e),
            Some(Ok(cred)) => if drifted(s.tmp_prefix@, cred) {
                n.fails(ErrorCode::Internal, drift_text(s.tmp_prefix@, cred))
            } else {
                match f.now {
                    None => n is Ask && n->Ask_0 is Now,
                    Some(now) => if !f.stored {
                        puts(n, renewed_session(s@, cred, now), cfg.ttl_seconds)
                    } else {
                        n.succeeds(
                            RenewOut {
                                credentials: shown_credentials(cred.credentials),
                                expires_in: lifetime(cred.credentials),
                            },
                        )
                    },
                }
            },
        },
    }
}

/// What is known while a session is discarded.
pub struct DiscardFacts {
    pub found: Option<Option<UploadSession>>,
    pub deleted: bool,
}

/// How a session is discarded. One that is not there counts as discarded.
pub open spec fn discards(
    session_id: Seq<char>,
    req: DiscardIn,
    current: CurrentUser,
    f: DiscardFacts,
    n: Next<SessionAsk, DiscardOut>,
) -> bool {
    match admission_problem(current, req.scope@, scope_note()) {
        Some(p) => n.fails(p.0, p.1),
        None => match f.found {
            None => n.asks(SessionAsk::Find { user_id: current.id, scope: req.scope }),
            Some(None) => n matches Next::Done(Ok(out)) && out.session_id@ == session_id,
            Some(Some(s)) => if s.session_id@ != session_id {
                n.fails(
                    ErrorCode::BizUploadSessionMismatch,
                    mismatch_text(session_id, s.session_id@),
                )
            } else if !f.deleted {
                n.asks(SessionAsk::Delete { user_id: current.id, scope: req.scope })
            } else {
                n matches Next::Done(Ok(out)) && out.session_id@ == session_id
            },
        },
    }
}

impl UploadSessionService {
    /// A name for a new session: random, with the prefix that follows from it.
    pub fn new_identity() -> (r: SessionIdentity)
        ensures
            is_fresh_identity(r),
    {
        let session_id = random_uuid();
        let tmp_prefix = join3("tmp/sess/", session_id.as_str(), "/");
        SessionIdentity { session_id, tmp_prefix }
    }

    /// Opens the session of the caller and a scope: creates it, renews its
    /// credentials where they run out, or keeps it as it is.
    pub fn get_or_create(
        cfg: &UploadSessionConfig,
        req: &GetOrCreateIn,
        current: &CurrentUser,
        f: &OpenFacts,
    ) -> (n: Next<SessionAsk, GetOrCreateOut>)
        requires
            issue_fits(f.issued),
        ensures
            opens(*cfg, *req, *current, *f, n),
    {
        match check_admission(current, &req.scope, " 不在白名单（首期仅 parts_new）") {
            Err(e) => {
                return Next::Done(Err(e));
            },
            Ok(()) => {},
        }
        let now: i64 = match f.now {
            None => {
                return Next::Ask(SessionAsk::Now);
            },
            Some(t) => t,
        };
        let found = match &f.found {
            None => {
                return Next::Ask(
                    SessionAsk::Find { user_id: current.id, scope: req.scope.clone() },
                );
            },
            Some(s) => s,
        };
        match found {
            None => {
                let identity = match &f.identity {
                    None => {
                        return Next::Ask(SessionAsk::Identify { identity: Self::new_identity() });
                    },
                    Some(id) => id,
                };
                let cred = match &f.issued {
                    None => {
                        return Next::Ask(
                            SessionAsk::Issue {
                                tmp_prefix: identity.tmp_prefix.clone(),
                                duration_seconds: cfg.sts_duration_seconds,
                            },
                        );
                    },
                    Some(Err(e)) => {
                        return Next::Done(Err(e.copy()));
                    },
                    Some(Ok(c)) => c,
                };
                let at: i64 = match f.issued_at {
                    None => {
                        return Next::Ask(SessionAsk::IssueTime);
                    },
                    Some(t) => t,
                };
                let session = open_session(identity, current.id, &req.scope, cred, at);
                if !f.stored {
                    Next::Ask(SessionAsk::Put { session, ttl_seconds: cfg.ttl_seconds })
                } else {
                    Next::Done(Ok(tell_session(&session)))
                }
            },
            Some(s) => {
                let remaining: i128 = s.credentials.expired_time as i128 - now as i128;
                if remaining < cfg.renew_threshold_seconds as i128 {
                    let cred = match &f.issued {
                        None => {
                            return Next::Ask(
                                SessionAsk::Issue {
                                    tmp_prefix: s.tmp_prefix.clone(),
                                    duration_seconds: cfg.sts_duration_seconds,
                                },
                            );
                        },
                        Some(Err(e)) => {
                            return Next::Done(Err(e.copy()));
                        },
                        Some(Ok(c)) => c,
                    };
                    let at: i64 = match f.issued_at {
                        None => {
                            return Next::Ask(SessionAsk::IssueTime);
                        },
                        Some(t) => t,
                    };
                    let session = renew_credentials(s, cred, at);
                    if !f.stored {
                        Next::Ask(SessionAsk::Put { session, ttl_seconds: cfg.ttl_seconds })
                    } else {
                        Next::Done(Ok(tell_session(&session)))
                    }
                } else if !f.touched {
                    Next::Ask(
                        SessionAsk::Touch {
                            user_id: current.id,
                            scope: req.scope.clone(),
                            ttl_seconds: cfg.ttl_seconds,
                        },
                    )
                } else {
                    Next::Done(Ok(tell_session(s)))
                }
            },
        }
    }

    /// Announces files to a session and answers with the keys to upload them
    /// under. A reference that is known already gets the key it had.
    pub fn allocate_files(
        ttl_seconds: u64,
        session_id: &str,
        req: &AllocateFilesIn,
        current: &CurrentUser,
        f: &EditFacts,
    ) -> (n: Next<SessionAsk, AllocateFilesOut>)
        ensures
            allocates(ttl_seconds, session_id@, *req, *current, *f, n),
    {
        let s = match reach(
            current,
            &req.scope,
            session_id,
            "session 不存在（discarded / TTL 过期）",
            &f.found,
        ) {
            Err(stop) => {
                return stop.settle();
            },
            Ok(s) => s,
        };
        match allocate_into(s.tmp_prefix.as_str(), copy_files(&s.files), &req.files) {
            Err(e) => Next::Done(Err(e)),
            Ok((files, items)) => match f.now {
                None => Next::Ask(SessionAsk::Now),
                Some(now) => if !f.stored {
                    Next::Ask(
                        SessionAsk::Put { session: with_files(s, files, now), ttl_seconds },
                    )
                } else {
                    Next::Done(Ok(AllocateFilesOut { items }))
                },
            },
        }
    }

    /// Reports a file as uploaded. The stored object decides: its size has to be
    /// the declared one, where one is declared, and its size and tag are
    /// recorded.
    pub fn complete_file(
        ttl_seconds: u64,
        session_id: &str,
        client_ref: &str,
        req: &CompleteFileIn,
        current: &CurrentUser,
        f: &CompleteFacts,
    ) -> (n: Next<SessionAsk, CompleteFileOut>)
        requires
            f.now matches Some(t) ==> t.wf(),
        ensures
            completes(ttl_seconds, session_id@, client_ref@, *req, *current, *f, n),
    {
        let s = match reach(
            current,
            &req.scope,
            session_id,
            "session 不存在（discarded / TTL 过期）",
            &f.found,
        ) {
            Err(stop) => {
                return stop.settle();
            },
            Ok(s) => s,
        };
        let i: usize = match find_file(&s.files, client_ref) {
            None => {
                let message = join3(
                    "client_ref ",
                    debug_text(client_ref).as_str(),
                    " 不在 session.files",
                );
                return Next::Done(
                    Err(
                        AppError::biz(
                            ErrorCode::BizUploadSessionFileNotFound,
                            message.as_str(),
                        ),
                    ),
                );
            },
            Some(i) => i,
        };
        let head = match &f.head {
            None => {
                return Next::Ask(SessionAsk::Head { tmp_key: s.files[i].tmp_key.clone() });
            },
            Some(h) => h,
        };
        let now: Instant = match f.now {
            None => {
                return Next::Ask(SessionAsk::Now);
            },
            Some(t) => t,
        };
        let problem: Option<AppError> = check_upload(req.file_size, head);
        let mut file: SessionFile = s.files[i].clone();
        match (&problem, head) {
            (None, Ok(meta)) => {
                file.status = "done".to_owned();
                file.etag = Some(meta.etag.clone());
                file.uploaded_at = Some(now.to_rfc3339());
                file.file_size = meta.size;
            },
            _ => {
                file.status = "error".to_owned();
                file.etag = None;
                file.uploaded_at = None;
            },
        }
        if !f.stored {
            let ghost entry = file@;
            let mut files: Vec<SessionFile> = copy_files(&s.files);
            files.set(i, file);
            assert(files_view(files@) =~= s@.files.update(i as int, entry));
            Next::Ask(SessionAsk::Put { session: with_files(s, files, now.unix), ttl_seconds })
        } else {
            match problem {
                Some(e) => Next::Done(Err(e)),
                None => Next::Done(Ok(file)),
            }
        }
    }

    /// Takes files out of a session and has their objects deleted. References
    /// without a file are passed over.
    pub fn remove_files(
        ttl_seconds: u64,
        session_id: &str,
        req: &RemoveFilesIn,
        current: &CurrentUser,
        f: &EditFacts,
    ) -> (n: Next<SessionAsk, RemoveFilesOut>)
        ensures
            removes(ttl_seconds, session_id@, *req, *current, *f, n),
    {
        let s = match reach(current, &req.scope, session_id, "session 不存在", &f.found) {
            Err(stop) => {
                return stop.settle();
            },
            Ok(s) => s,
        };
        let (files, gone) = remove_from(copy_files(&s.files), &req.client_refs);
        match f.now {
            None => Next::Ask(SessionAsk::Now),
            Some(now) => if !f.stored {
                Next::Ask(SessionAsk::Put { session: with_files(s, files, now), ttl_seconds })
            } else if !f.cleaned {
                Next::Ask(SessionAsk::Cleanup { tmp_keys: keys(&gone) })
            } else {
                Next::Done(Ok(RemoveFilesOut { removed: refs(&gone) }))
            },
        }
    }

    /// Issues new credentials for a session and stores them with it.
    pub fn renew(
        cfg: &UploadSessionConfig,
        session_id: &str,
        req: &RenewIn,
        current: &CurrentUser,
        f: &RenewFacts,
    ) -> (n: Next<SessionAsk, RenewOut>)
        requires
            issue_fits(f.issued),
        ensures
            renews(*cfg, session_id@, *req, *current, *f, n),
    {
        let s = match reach(
            current,
            &req.scope,
            session_id,
            "session 不存在（discarded / TTL 过期）",
            &f.found,
        ) {
            Err(stop) => {
                return stop.settle();
            },
            Ok(s) => s,
        };
        let cred = match &f.issued {
            None => {
                return Next::Ask(
                    SessionAsk::Issue {
                        tmp_prefix: s.tmp_prefix.clone(),
                        duration_seconds: cfg.sts_duration_seconds,
                    },
                );
            },
            Some(Err(e)) => {
                return Next::Done(Err(e.copy()));
            },
            Some(Ok(c)) => c,
        };
        match check_drift(&s.tmp_prefix, cred) {
            Err(e) => {
                return Next::Done(Err(e));
            },
            Ok(()) => {},
        }
        let now: i64 = match f.now {
            None => {
                return Next::Ask(SessionAsk::Now);
            },
            Some(t) => t,
        };
        let session = renew_credentials(s, cred, now);
        if !f.stored {
            Next::Ask(SessionAsk::Put { session, ttl_seconds: cfg.ttl_seconds })
        } else {
            Next::Done(
                Ok(
                    RenewOut {
                        credentials: SessionCredentialsOut::from(&session.credentials),
                        expires_in: session.expires_in,
                    },
                ),
            )
        }
    }

    /// Takes files out of a session and leaves their objects where they are.
    pub fn consume_files(
        ttl_seconds: u64,
        session_id: &str,
        req: &ConsumeFilesIn,
        current: &CurrentUser,
        f: &EditFacts,
    ) -> (n: Next<SessionAsk, ConsumeFilesOut>)
        ensures
            consumes(ttl_seconds, session_id@, *req, *current, *f, n),
    {
        let s = match reach(current, &req.scope, session_id, "session 不存在", &f.found) {
            Err(stop) => {
                return stop.settle();
            },
            Ok(s) => s,
        };
        let (files, gone) = remove_from(copy_files(&s.files), &req.client_refs);
        match f.now {
            None => Next::Ask(SessionAsk::Now),
            Some(now) => if !f.stored {
                Next::Ask(SessionAsk::Put { session: with_files(s, files, now), ttl_seconds })
            } else {
                Next::Done(Ok(ConsumeFilesOut { consumed: refs(&gone) }))
            },
        }
    }

    /// Forgets a session. One that is not there counts as forgotten.
    pub fn discard(
        session_id: &str,
        req: &DiscardIn,
        current: &CurrentUser,
        f: &DiscardFacts,
    ) -> (n: Next<SessionAsk, DiscardOut>)
        ensures
            discards(session_id@, *req, *current, *f, n),
    {
        match check_admission(current, &req.scope, " 不在白名单") {
            Err(e) => {
                return Next::Done(Err(e));
            },
            Ok(()) => {},
        }
        match &f.found {
            None => Next::Ask(
                SessionAsk::Find { user_id: current.id, scope: req.scope.clone() },
            ),
            Some(None) => Next::Done(Ok(DiscardOut { session_id: session_id.to_owned() })),
            Some(Some(s)) => if !same(s.session_id.as_str(), session_id) {
                Next::Done(Err(mismatch(session_id, s.session_id.as_str())))
            } else if !f.deleted {
                Next::Ask(
                    SessionAsk::Delete { user_id: current.id, scope: req.scope.clone() },
                )
            } else {
                Next::Done(Ok(DiscardOut { session_id: s.session_id.clone() }))
            },
        }
    }
}

/// Why an endpoint on a named session does not reach it.
enum Stop {
    Fail(AppError),
    LookUp { user_id: i64, scope: String },
}

impl Stop {
    fn settle<T>(self) -> (n: Next<SessionAsk, T>)
        ensures
            match self {
                Stop::Fail(e) => n.fails_with(e),
                Stop::LookUp { user_id, scope } => n.asks(SessionAsk::Find { user_id, scope }),
            },
    {
        match self {
            Stop::Fail(e) => Next::Done(Err(e)),
            Stop::LookUp { user_id, scope } => Next::Ask(SessionAsk::Find { user_id, scope }),
        }
    }
}

fn reach<'a>(
    current: &CurrentUser,
    scope: &String,
    session_id: &str,
    missing: &str,
    found: &'a Option<Option<UploadSession>>,
) -> (r: Result<&'a UploadSession, Stop>)
    ensures
        match reached(*current, *scope, session_id@, *found) {
            Some(s) => r == Ok::<&'a UploadSession, Stop>(&s),
            None => {
                &&& r is Err
                &&& match admission_problem(*current, scope@, scope_note()) {
                    Some(p) => r->Err_0 matches Stop::Fail(e) && e.says(p.0, p.1),
                    None => match *found {
                        None => r->Err_0 == (Stop::LookUp { user_id: current.id, scope: *scope }),
                        Some(fd) => match session_problem(fd, session_id@, missing@) {
                            Some(p) => r->Err_0 matches Stop::Fail(e) && e.says(p.0, p.1),
                            None => false,
                        },
                    },
                }
            },
        },
{
    match check_admission(current, scope, " 不在白名单") {
        Err(e) => {
            return Err(Stop::Fail(e));
        },
        Ok(()) => {},
    }
    match found {
        None => Err(Stop::LookUp { user_id: current.id, scope: scope.clone() }),
        Some(fd) => match locate(fd, session_id, missing) {
            Err(e) => Err(Stop::Fail(e)),
            Ok(s) => Ok(s),
        },
    }
}

fn with_files(s: &UploadSession, files: Vec<SessionFile>, now: i64) -> (r: UploadSession)
    ensures
        r@ == (SessionModel { files: files_view(files@), updated_at: now, ..s@ }),
{
    UploadSession {
        session_id: s.session_id.clone(),
        user_id: s.user_id,
        scope: s.scope.clone(),
        tmp_prefix: s.tmp_prefix.clone(),
        bucket: s.bucket.clone(),
        region: s.region.clone(),
        credentials: s.credentials.clone(),
        expires_in: s.expires_in,
        files,
        created_at: s.created_at,
        updated_at: now,
    }
}

fn check_upload(declared: Option<i64>, head: &Result<ObjectMeta, String>) -> (r: Option<AppError>)
    ensures
        match upload_problem(declared, *head) {
            Some(p) => r matches Some(e) && e.says(p.0, p.1),
            None => r is None,
        },
{
    match head {
        Err(reason) => {
            let message = text::join2("head_object 失败: ", reason.as_str());
            Some(AppError::biz(ErrorCode::BizUploadSessionHeadFailed, message.as_str()))
        },
        Ok(meta) => match declared {
            Some(d) => if d != meta.size {
                let mut message = join3(
                    "head size ",
                    text::id_text(meta.size).as_str(),
                    " 与声明 ",
                );
                message.append(text::id_text(d).as_str());
                message.append(" 不一致");
                Some(AppError::biz(ErrorCode::BizUploadSessionSizeMismatch, message.as_str()))
            } else {
                None
            },
            None => None,
        },
    }
}

fn refs(files: &Vec<SessionFile>) -> (r: Vec<String>)
    ensures
        texts(r@) == refs_of(files_view(files@)),
{
    let mut out: Vec<String> = Vec::new();
    let mut i: usize = 0;
    while i < files.len()
        invariant
            i <= files@.len(),
            out@.len() == i,
            forall|j: int| 0 <= j < i ==> #[trigger] out@[j] == files@[j].client_ref,
        decreases files@.len() - i,
    {
        out.push(files[i].client_ref.clone());
        i = i + 1;
    }
    assert(texts(out@) =~= refs_of(files_view(files@)));
    out
}

fn keys(files: &Vec<SessionFile>) -> (r: Vec<String>)
    ensures
        texts(r@) == keys_of(files_view(files@)),
{
    let mut out: Vec<String> = Vec::new();
    let mut i: usize = 0;
    while i < files.len()
        invariant
            i <= files@.len(),
            out@.len() == i,
            forall|j: int| 0 <= j < i ==> #[trigger] out@[j] == files@[j].tmp_key,
        decreases files@.len() - i,
    {
        out.push(files[i].tmp_key.clone());
        i = i + 1;
    }
    assert(texts(out@) =~= keys_of(files_view(files@)));
    out
}

// ---------------------------------------------------------------------------
// Laws
// ---------------------------------------------------------------------------

/// Renewing credentials leaves the name, the owner, the scope, the prefix, the
/// files and the creation time of a session as they are.
pub proof fn renewal_keeps_the_session(s: SessionModel, cred: StsCredential, now: i64)
    requires
        cred.lifetime_fits(),
    ensures
        renewed_session(s, cred, now).session_id == s.session_id,
        renewed_session(s, cred, now).user_id == s.user_id,
        renewed_session(s, cred, now).scope == s.scope,
        renewed_session(s, cred, now).tmp_prefix == s.tmp_prefix,
        renewed_session(s, cred, now).files == s.files,
        renewed_session(s, cred, now).created_at == s.created_at,
        renewed_session(s, cred, now).expires_in >= 0,
{
}

/// An endpoint that edits files stores nothing but the session that the caller
/// named, and only for a manager or a clerk and the allowed scope; its owner,
/// scope, prefix and credentials stay as they are.
pub proof fn edits_stay_in_the_named_session(
    ttl: u64,
    session_id: Seq<char>,
    allocate: AllocateFilesIn,
    remove: RemoveFilesIn,
    consume: ConsumeFilesIn,
    current: CurrentUser,
    f: EditFacts,
    a: Next<SessionAsk, AllocateFilesOut>,
    r: Next<SessionAsk, RemoveFilesOut>,
    c: Next<SessionAsk, ConsumeFilesOut>,
)
    requires
        allocates(ttl, session_id, allocate, current, f, a),
        removes(ttl, session_id, remove, current, f, r),
        consumes(ttl, session_id, consume, current, f, c),
    ensures
        a matches Next::Ask(SessionAsk::Put { session, ttl_seconds }) ==> stays(
            session_id,
            allocate.scope@,
            current,
            f.found,
            session@,
        ),
        r matches Next::Ask(SessionAsk::Put { session, ttl_seconds }) ==> stays(
            session_id,
            remove.scope@,
            current,
            f.found,
            session@,
        ),
        c matches Next::Ask(SessionAsk::Put { session, ttl_seconds }) ==> stays(
            session_id,
            consume.scope@,
            current,
            f.found,
            session@,
        ),
{
}

/// `after` is the stored session that the caller named, with other files.
pub open spec fn stays(
    session_id: Seq<char>,
    scope: Seq<char>,
    current: CurrentUser,
    found: Option<Option<UploadSession>>,
    after: SessionModel,
) -> bool {
    &&& may_upload(current)
    &&& allowed_scope(scope)
    &&& after.session_id == session_id
    &&& found matches Some(Some(s))
    &&& after == SessionModel { files: after.files, updated_at: after.updated_at, ..s@ }
}

/// Opening a session renews its credentials exactly where less than the
/// threshold is left, and only keeps it alive otherwise.
pub proof fn opening_renews_when_credentials_run_out(
    cfg: UploadSessionConfig,
    req: GetOrCreateIn,
    current: CurrentUser,
    f: OpenFacts,
    n: Next<SessionAsk, GetOrCreateOut>,
)
    requires
        opens(cfg, req, current, f, n),
        admission_problem(current, req.scope@, open_note()) is None,
        f.now is Some,
        f.found matches Some(Some(_)),
    ensures
        ({
            let s = f.found->0->0;
            let left = s.credentials.expired_time - f.now->0;
            &&& left >= cfg.renew_threshold_seconds ==> (n matches Next::Ask(a) ==> a is Touch)
            &&& left < cfg.renew_threshold_seconds && f.issued is None ==> (n matches Next::Ask(a)
                && a is Issue)
            &&& n matches Next::Ask(SessionAsk::Put { session, ttl_seconds }) ==> left
                < cfg.renew_threshold_seconds && session@.tmp_prefix == s.tmp_prefix@
                && session@.session_id == s.session_id@ && session@.files == s@.files
        }),
{
}

/// Opening a session that is stored gives that session back: its name, scope,
/// prefix and files.
pub proof fn opening_gives_the_stored_session_back(
    cfg: UploadSessionConfig,
    req: GetOrCreateIn,
    current: CurrentUser,
    f: OpenFacts,
    n: Next<SessionAsk, GetOrCreateOut>,
)
    requires
        opens(cfg, req, current, f, n),
        f.found matches Some(Some(_)),
        n matches Next::Done(Ok(_)),
    ensures
        ({
            let s = f.found->0->0;
            let out = n->Done_0->Ok_0;
            &&& out.session_id@ == s.session_id@
            &&& out.scope@ == s.scope@
            &&& out.tmp_prefix@ == s.tmp_prefix@
            &&& files_view(out.files@) == s@.files
        }),
{
}

/// Where the token service issues credentials with at least the threshold left,
/// the client never gets any with less.
pub proof fn opened_credentials_last(
    cfg: UploadSessionConfig,
    req: GetOrCreateIn,
    current: CurrentUser,
    f: OpenFacts,
    n: Next<SessionAsk, GetOrCreateOut>,
)
    requires
        opens(cfg, req, current, f, n),
        f.issued matches Some(Ok(cred)) ==> cred.credentials.expired_time - f.now->0
            >= cfg.renew_threshold_seconds,
        n matches Next::Done(Ok(_)),
    ensures
        n->Done_0->Ok_0.credentials.expired_time - f.now->0 >= cfg.renew_threshold_seconds,
{
}

/// Reporting a file as uploaded changes the entry of that file alone: it is done,
/// with the size of the stored object, or it is an error, without tag and upload
/// time.
pub proof fn completion_touches_one_file(
    ttl: u64,
    session_id: Seq<char>,
    client_ref: Seq<char>,
    req: CompleteFileIn,
    current: CurrentUser,
    f: CompleteFacts,
    n: Next<SessionAsk, CompleteFileOut>,
)
    requires
        completes(ttl, session_id, client_ref, req, current, f, n),
        n matches Next::Ask(SessionAsk::Put { session, ttl_seconds }),
    ensures
        stays(session_id, req.scope@, current, f.found, n->Ask_0->Put_session@),
        ({
            let before = f.found->0->0@.files;
            let after = n->Ask_0->Put_session@.files;
            let i = position_of(before, client_ref)->0;
            &&& position_of(before, client_ref) is Some
            &&& after.len() == before.len()
            &&& forall|j: int| 0 <= j < before.len() && j != i ==> #[trigger] after[j] == before[j]
            &&& after[i].client_ref == before[i].client_ref
            &&& after[i].tmp_key == before[i].tmp_key
            &&& match upload_problem(req.file_size, f.head->0) {
                Some(_) => after[i] == failed_file(before[i]),
                None => after[i].status == "done"@ && after[i].file_size == f.head->0->Ok_0.size,
            }
        }),
{
    lemma_position_of(f.found->0->0@.files, client_ref);
}

/// Every endpoint that stores a session keeps to this: a file has a tag and an
/// upload time exactly where its status is done. So a file that was done and
/// then fails loses both.
pub proof fn tags_go_with_done_files(
    ttl: u64,
    session_id: Seq<char>,
    allocate: AllocateFilesIn,
    remove: RemoveFilesIn,
    consume: ConsumeFilesIn,
    client_ref: Seq<char>,
    complete: CompleteFileIn,
    current: CurrentUser,
    f: EditFacts,
    g: CompleteFacts,
    a: Next<SessionAsk, AllocateFilesOut>,
    r: Next<SessionAsk, RemoveFilesOut>,
    c: Next<SessionAsk, ConsumeFilesOut>,
    d: Next<SessionAsk, CompleteFileOut>,
)
    requires
        allocates(ttl, session_id, allocate, current, f, a),
        removes(ttl, session_id, remove, current, f, r),
        consumes(ttl, session_id, consume, current, f, c),
        completes(ttl, session_id, client_ref, complete, current, g, d),
        f.found matches Some(Some(s)) ==> tags_match(s@.files),
        g.found matches Some(Some(s)) ==> tags_match(s@.files),
    ensures
        a matches Next::Ask(SessionAsk::Put { session, ttl_seconds }) ==> tags_match(
            session@.files,
        ),
        r matches Next::Ask(SessionAsk::Put { session, ttl_seconds }) ==> tags_match(
            session@.files,
        ),
        c matches Next::Ask(SessionAsk::Put { session, ttl_seconds }) ==> tags_match(
            session@.files,
        ),
        d matches Next::Ask(SessionAsk::Put { session, ttl_seconds }) ==> tags_match(
            session@.files,
        ),
{
    reveal_strlit("done");
    reveal_strlit("error");
    if let Some(Some(s)) = f.found {
        if allocated(s.tmp_prefix@, s@.files, allocate.files@) is Ok {
            lemma_allocated_tags(s.tmp_prefix@, s@.files, allocate.files@);
        }
        lemma_removal_tags(s@.files, texts(remove.client_refs@));
        lemma_removal_tags(s@.files, texts(consume.client_refs@));
    }
    if let Some(Some(s)) = g.found {
        lemma_position_of(s@.files, client_ref);
        assert("error"@.len() != "done"@.len());
    }
}

/// A session that is opened starts without files, and one whose credentials are
/// renewed keeps its files, so opening and renewing keep tags and states
/// together too.
pub proof fn opening_keeps_tags_with_done_files(
    cfg: UploadSessionConfig,
    session_id: Seq<char>,
    req: GetOrCreateIn,
    renew: RenewIn,
    current: CurrentUser,
    f: OpenFacts,
    g: RenewFacts,
    n: Next<SessionAsk, GetOrCreateOut>,
    m: Next<SessionAsk, RenewOut>,
)
    requires
        opens(cfg, req, current, f, n),
        renews(cfg, session_id, renew, current, g, m),
        f.found matches Some(Some(s)) ==> tags_match(s@.files),
        g.found matches Some(Some(s)) ==> tags_match(s@.files),
    ensures
        n matches Next::Ask(SessionAsk::Put { session, ttl_seconds }) ==> tags_match(
            session@.files,
        ),
        m matches Next::Ask(SessionAsk::Put { session, ttl_seconds }) ==> tags_match(
            session@.files,
        ),
{
}

/// Files that are consumed stay in the storage, and removing files asks for the
/// keys of those alone that were taken out.
pub proof fn only_removed_files_are_deleted(
    ttl: u64,
    session_id: Seq<char>,
    remove: RemoveFilesIn,
    consume: ConsumeFilesIn,
    current: CurrentUser,
    f: EditFacts,
    r: Next<SessionAsk, RemoveFilesOut>,
    c: Next<SessionAsk, ConsumeFilesOut>,
)
    requires
        removes(ttl, session_id, remove, current, f, r),
        consumes(ttl, session_id, consume, current, f, c),
    ensures
        !(c matches Next::Ask(a) && a is Cleanup),
        r matches Next::Ask(SessionAsk::Cleanup { tmp_keys }) ==> f.stored && texts(tmp_keys@)
            == keys_of(removal(f.found->0->0@.files, texts(remove.client_refs@)).gone),
{
}

/// Discarding twice is discarding once: where the session is gone, or has been
/// deleted just now, the caller is told the name it asked with.
pub proof fn discarding_is_idempotent(
    session_id: Seq<char>,
    req: DiscardIn,
    current: CurrentUser,
    first: DiscardFacts,
    second: DiscardFacts,
    n: Next<SessionAsk, DiscardOut>,
    m: Next<SessionAsk, DiscardOut>,
)
    requires
        admission_problem(current, req.scope@, scope_note()) is None,
        first.found matches Some(Some(s)) && s.session_id@ == session_id,
        first.deleted,
        second.found == Some(None::<UploadSession>),
        discards(session_id, req, current, first, n),
        discards(session_id, req, current, second, m),
    ensures
        n is Done && n->Done_0 is Ok && m is Done && m->Done_0 is Ok,
        n->Done_0->Ok_0.session_id@ == m->Done_0->Ok_0.session_id@,
{
}

} // verus!
