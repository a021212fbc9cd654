//! Upload sessions: scenarios played against the store in memory.
use shopfloor::auth::{CurrentUser, Role};
use shopfloor::clock::Instant;
use shopfloor::error::{AppError, ErrorCode};
use shopfloor::flow::Next;
use shopfloor::upload_session::dto::{
    check_sha256, is_valid_kind, is_valid_scope, sanitize_filename, AllocateFileItemIn,
    AllocateFilesIn, AllocateFilesOut, CompleteFileIn, CompleteFileOut, ConsumeFilesIn,
    ConsumeFilesOut, DiscardIn, DiscardOut, GetOrCreateIn, GetOrCreateOut, RemoveFilesIn,
    RemoveFilesOut, RenewIn, RenewOut, SessionCredentials, SessionCredentialsOut, SessionFile,
    SessionFileOut, UploadSession,
};
use shopfloor::upload_session::files::{allocate_into, build_tmp_key, find_file, remove_from};
use shopfloor::upload_session::repo::{
    key_for, InMemoryUploadSessionRepo, NoopUploadSessionRepo, UploadSessionRepo,
};
use shopfloor::upload_session::service::{
    require_role, CompleteFacts, DiscardFacts, EditFacts, ObjectMeta, OpenFacts, RenewFacts,
    SessionAsk, SessionIdentity, StsCredential, UploadSessionConfig, UploadSessionService,
};

const NOW: i64 = 1_700_000_000;

fn user_with(role: Role) -> CurrentUser {
    CurrentUser {
        id: 42,
        username: "u".to_string(),
        roles: vec![role],
        shelf_ids: vec![],
        shelf_wildcard: false,
    }
}

fn current_user() -> CurrentUser {
    user_with(Role::Manager)
}

fn cfg() -> UploadSessionConfig {
    UploadSessionConfig {
        ttl_seconds: 86400,
        sts_duration_seconds: 7200,
        renew_threshold_seconds: 600,
    }
}

/// A token service: credentials for a prefix, at a time.
type Sts = fn(&str, i64) -> Result<StsCredential, AppError>;

fn credential(prefix: &str, start: i64, end: i64) -> StsCredential {
    StsCredential {
        credentials: SessionCredentials {
            tmp_secret_id: "id".to_string(),
            tmp_secret_key: "key".to_string(),
            session_token: "tok".to_string(),
            start_time: start,
            expired_time: end,
        },
        bucket: "b".to_string(),
        region: "r".to_string(),
        tmp_prefix: Some(prefix.to_string()),
    }
}

fn sts_hour(prefix: &str, now: i64) -> Result<StsCredential, AppError> {
    Ok(credential(prefix, now, now + 3600))
}

fn sts_long_expiry(prefix: &str, now: i64) -> Result<StsCredential, AppError> {
    Ok(credential(prefix, now, now + 86400))
}

fn sts_already_expired(prefix: &str, now: i64) -> Result<StsCredential, AppError> {
    Ok(credential(prefix, now - 7200, now - 3600))
}

fn sts_forward_failed(_prefix: &str, _now: i64) -> Result<StsCredential, AppError> {
    Err(AppError::biz(ErrorCode::BizUploadSessionStsForwardFailed, "502 Bad Gateway"))
}

fn sts_drifted_prefix(_prefix: &str, now: i64) -> Result<StsCredential, AppError> {
    Ok(credential("tmp/drifted/wrong-prefix/", now, now + 7200))
}

/// The outside world: it answers what the endpoints ask for.
struct World {
    repo: InMemoryUploadSessionRepo,
    now: i64,
    sts: Sts,
    issues: usize,
    touches: usize,
    puts: usize,
    cleaned: Vec<String>,
    head: Result<(i64, String), String>,
}

fn world(sts: Sts) -> World {
    World {
        repo: InMemoryUploadSessionRepo::new(),
        now: NOW,
        sts,
        issues: 0,
        touches: 0,
        puts: 0,
        cleaned: vec![],
        head: Ok((0, "noop".to_string())),
    }
}

impl World {
    fn issue(&mut self, prefix: &str, duration: u32) -> Result<StsCredential, AppError> {
        assert_eq!(duration, 7200);
        self.issues += 1;
        (self.sts)(prefix, self.now)
    }

    fn stored(&self) -> Option<UploadSession> {
        self.repo.get(42, "parts_new").unwrap()
    }

    fn open_as(&mut self, scope: &str, who: &CurrentUser) -> Result<GetOrCreateOut, AppError> {
        let req = GetOrCreateIn { scope: scope.to_string() };
        let mut f = OpenFacts {
            now: None,
            found: None,
            identity: None,
            issued: None,
            issued_at: None,
            stored: false,
            touched: false,
        };
        loop {
            match UploadSessionService::get_or_create(&cfg(), &req, who, &f) {
                Next::Done(r) => return r,
                Next::Ask(SessionAsk::Find { user_id, scope }) => {
                    f.found = Some(self.repo.get(user_id, &scope).unwrap());
                }
                Next::Ask(SessionAsk::Now) => f.now = Some(self.now),
                Next::Ask(SessionAsk::IssueTime) => f.issued_at = Some(self.now),
                Next::Ask(SessionAsk::Identify { identity }) => f.identity = Some(identity),
                Next::Ask(SessionAsk::Issue { tmp_prefix, duration_seconds }) => {
                    f.issued = Some(self.issue(&tmp_prefix, duration_seconds));
                }
                Next::Ask(SessionAsk::Put { session, ttl_seconds }) => {
                    assert_eq!(ttl_seconds, 86400);
                    self.puts += 1;
                    self.repo.put(&session, ttl_seconds).unwrap();
                    f.stored = true;
                }
                Next::Ask(SessionAsk::Touch { user_id, scope, ttl_seconds }) => {
                    self.touches += 1;
                    self.repo.touch(user_id, &scope, ttl_seconds).unwrap();
                    f.touched = true;
                }
                Next::Ask(_) => unreachable!("not asked for here"),
            }
        }
    }

    fn open(&mut self) -> Result<GetOrCreateOut, AppError> {
        self.open_as("parts_new", &current_user())
    }

    fn allocate(&mut self, sid: &str, req: &AllocateFilesIn) -> Result<AllocateFilesOut, AppError> {
        let mut f = EditFacts { found: None, now: None, stored: false, cleaned: false };
        loop {
            match UploadSessionService::allocate_files(86400, sid, req, &current_user(), &f) {
                Next::Done(r) => return r,
                Next::Ask(a) => self.edit(a, &mut f),
            }
        }
    }

    fn remove(&mut self, sid: &str, refs: &[&str]) -> Result<RemoveFilesOut, AppError> {
        let req = RemoveFilesIn {
            scope: "parts_new".to_string(),
            client_refs: refs.iter().map(|r| r.to_string()).collect(),
        };
        let mut f = EditFacts { found: None, now: None, stored: false, cleaned: false };
        loop {
            match UploadSessionService::remove_files(86400, sid, &req, &current_user(), &f) {
                Next::Done(r) => return r,
                Next::Ask(a) => self.edit(a, &mut f),
            }
        }
    }

    fn consume(&mut self, sid: &str, refs: &[&str]) -> Result<ConsumeFilesOut, AppError> {
        let req = ConsumeFilesIn {
            scope: "parts_new".to_string(),
            client_refs: refs.iter().map(|r| r.to_string()).collect(),
        };
        let mut f = EditFacts { found: None, now: None, stored: false, cleaned: false };
        loop {
            match UploadSessionService::consume_files(86400, sid, &req, &current_user(), &f) {
                Next::Done(r) => return r,
                Next::Ask(a) => self.edit(a, &mut f),
            }
        }
    }

    fn edit(&mut self, ask: SessionAsk, f: &mut EditFacts) {
        match ask {
            SessionAsk::Find { user_id, scope } => {
                f.found = Some(self.repo.get(user_id, &scope).unwrap());
            }
            SessionAsk::Now => f.now = Some(self.now),
            SessionAsk::Put { session, ttl_seconds } => {
                self.repo.put(&session, ttl_seconds).unwrap();
                f.stored = true;
            }
            SessionAsk::Cleanup { tmp_keys } => {
                self.cleaned.extend(tmp_keys);
                f.cleaned = true;
            }
            _ => unreachable!("not asked for here"),
        }
    }

    fn complete(
        &mut self,
        sid: &str,
        client_ref: &str,
        file_size: Option<i64>,
    ) -> Result<CompleteFileOut, AppError> {
        let req = CompleteFileIn { scope: "parts_new".to_string(), etag: None, file_size };
        let mut f = CompleteFacts { found: None, head: None, now: None, stored: false };
        loop {
            match UploadSessionService::complete_file(
                86400,
                sid,
                client_ref,
                &req,
                &current_user(),
                &f,
            ) {
                Next::Done(r) => return r,
                Next::Ask(SessionAsk::Find { user_id, scope }) => {
                    f.found = Some(self.repo.get(user_id, &scope).unwrap());
                }
                Next::Ask(SessionAsk::Head { tmp_key }) => {
                    assert!(tmp_key.starts_with("tmp/sess/"));
                    f.head = Some(match &self.head {
                        Ok((size, etag)) => Ok(ObjectMeta { size: *size, etag: etag.clone() }),
                        Err(e) => Err(e.clone()),
                    });
                }
                Next::Ask(SessionAsk::Now) => f.now = Instant::new(self.now, 0),
                Next::Ask(SessionAsk::Put { session, ttl_seconds }) => {
                    self.repo.put(&session, ttl_seconds).unwrap();
                    f.stored = true;
                }
                Next::Ask(_) => unreachable!("not asked for here"),
            }
        }
    }

    fn renew(&mut self, sid: &str) -> Result<RenewOut, AppError> {
        let req = RenewIn { scope: "parts_new".to_string() };
        let mut f = RenewFacts { found: None, issued: None, now: None, stored: false };
        loop {
            match UploadSessionService::renew(&cfg(), sid, &req, &current_user(), &f) {
                Next::Done(r) => return r,
                Next::Ask(SessionAsk::Find { user_id, scope }) => {
                    f.found = Some(self.repo.get(user_id, &scope).unwrap());
                }
                Next::Ask(SessionAsk::Issue { tmp_prefix, duration_seconds }) => {
                    f.issued = Some(self.issue(&tmp_prefix, duration_seconds));
                }
                Next::Ask(SessionAsk::Now) => f.now = Some(self.now),
                Next::Ask(SessionAsk::Put { session, ttl_seconds }) => {
                    self.repo.put(&session, ttl_seconds).unwrap();
                    f.stored = true;
                }
                Next::Ask(_) => unreachable!("not asked for here"),
            }
        }
    }

    fn discard(&mut self, sid: &str) -> Result<DiscardOut, AppError> {
        let req = DiscardIn { scope: "parts_new".to_string() };
        let mut f = DiscardFacts { found: None, deleted: false };
        loop {
            match UploadSessionService::discard(sid, &req, &current_user(), &f) {
                Next::Done(r) => return r,
                Next::Ask(SessionAsk::Find { user_id, scope }) => {
                    f.found = Some(self.repo.get(user_id, &scope).unwrap());
                }
                Next::Ask(SessionAsk::Delete { user_id, scope }) => {
                    self.repo.delete(user_id, &scope).unwrap();
                    f.deleted = true;
                }
                Next::Ask(_) => unreachable!("not asked for here"),
            }
        }
    }
}

fn item(client_ref: &str, name: &str, size: i64, sha_char: &str) -> AllocateFileItemIn {
    AllocateFileItemIn {
        client_ref: client_ref.to_string(),
        kind: "drawing".to_string(),
        original_filename: name.to_string(),
        file_size: size,
        content_type: "application/pdf".to_string(),
        content_sha256: sha_char.repeat(64),
    }
}

fn announce(items: Vec<AllocateFileItemIn>) -> AllocateFilesIn {
    AllocateFilesIn { scope: "parts_new".to_string(), files: items }
}

fn sample_session(user_id: i64, scope: &str, sid: &str) -> UploadSession {
    UploadSession {
        session_id: sid.to_string(),
        user_id,
        scope: scope.to_string(),
        tmp_prefix: format!("tmp/sess/{sid}/"),
        bucket: "b".to_string(),
        region: "ap-shanghai".to_string(),
        credentials: SessionCredentials {
            tmp_secret_id: "i".to_string(),
            tmp_secret_key: "k".to_string(),
            session_token: "t".to_string(),
            start_time: 100,
            expired_time: 200,
        },
        expires_in: 100,
        files: vec![sample_file("r1", sid)],
        created_at: 1,
        updated_at: 1,
    }
}

fn sample_file(client_ref: &str, sid: &str) -> SessionFile {
    SessionFile {
        client_ref: client_ref.to_string(),
        kind: "drawing".to_string(),
        original_filename: "a.pdf".to_string(),
        file_size: 1024,
        content_type: "application/pdf".to_string(),
        content_sha256: "a".repeat(64),
        tmp_key: format!("tmp/sess/{sid}/aaaa_a.pdf"),
        status: "pending".to_string(),
        etag: None,
        uploaded_at: None,
    }
}

// Names and rules ------------------------------------------------------------

#[test]
fn scope_whitelist_accepts_parts_new() {
    assert!(is_valid_scope("parts_new"));
}

#[test]
fn scope_whitelist_rejects_other() {
    assert!(!is_valid_scope("assemblies_new"));
    assert!(!is_valid_scope(""));
    assert!(!is_valid_scope("PARTS_NEW"));
}

#[test]
fn kind_whitelist_accepts_drawing_and_3d_model() {
    assert!(is_valid_kind("drawing"));
    assert!(is_valid_kind("3d_model"));
    assert!(is_valid_kind("Drawing"));
}

#[test]
fn kind_whitelist_rejects_other() {
    assert!(!is_valid_kind("g_code"));
    assert!(!is_valid_kind(""));
    assert!(!is_valid_kind("DRAWING_EXTRA"));
}

#[test]
fn sanitize_filename_keeps_safe_chars() {
    assert_eq!(sanitize_filename("drawing.pdf"), "drawing.pdf");
    assert_eq!(sanitize_filename("DRAW-001.PDF"), "DRAW-001.PDF");
}

#[test]
fn sanitize_filename_replaces_unsafe() {
    assert_eq!(sanitize_filename("图纸 v2.pdf"), "___v2.pdf");
    assert_eq!(sanitize_filename("a b/c.pdf"), "a_b_c.pdf");
}

#[test]
fn sanitize_filename_truncates_long_names() {
    let long = "a".repeat(200);
    assert_eq!(sanitize_filename(&long).len(), 80);
}

#[test]
fn sanitize_filename_empty_fallback() {
    assert_eq!(sanitize_filename(""), "file");
    assert_eq!(sanitize_filename("中文"), "__");
}

#[test]
fn check_sha256_accepts_64_hex() {
    assert!(check_sha256(&"a".repeat(64)).is_ok());
    assert!(check_sha256(&"ABCDEF0123456789".repeat(4)).is_ok());
}

#[test]
fn check_sha256_rejects_short_or_non_hex() {
    assert!(check_sha256("abcd").is_err());
    let bad = format!("{}{}", "a".repeat(63), "g");
    assert!(check_sha256(&bad).is_err());
}

#[test]
fn session_credentials_out_conversion_preserves_fields() {
    let cred = SessionCredentials {
        tmp_secret_id: "id".into(),
        tmp_secret_key: "key".into(),
        session_token: "tok".into(),
        start_time: 100,
        expired_time: 3700,
    };
    let out: SessionCredentialsOut = (&cred).into();
    assert_eq!(out.tmp_secret_id, "id");
    assert_eq!(out.start_time, 100);
    assert_eq!(out.expired_time, 3700);
}

#[test]
fn session_file_out_conversion_preserves_fields() {
    let mut file = sample_file("r1", "abc");
    file.etag = Some("tag".to_string());
    let by_ref: SessionFileOut = (&file).into();
    assert_eq!(by_ref.client_ref, "r1");
    assert_eq!(by_ref.tmp_key, "tmp/sess/abc/aaaa_a.pdf");
    let owned: SessionFileOut = file.into();
    assert_eq!(owned.etag.as_deref(), Some("tag"));
    assert_eq!(owned.file_size, 1024);
}

// The store --------------------------------------------------------------------

#[test]
fn in_memory_repo_put_get_delete() {
    let mut repo = InMemoryUploadSessionRepo::new();
    let s = sample_session(42, "parts_new", "sess-1");
    assert!(repo.get(42, "parts_new").unwrap().is_none());
    repo.put(&s, 86400).unwrap();
    let got = repo.get(42, "parts_new").unwrap().expect("must exist");
    assert_eq!(got.session_id, "sess-1");
    assert_eq!(got.user_id, 42);
    assert_eq!(got.files.len(), 1);
    assert!(repo.touch(42, "parts_new", 86400).unwrap());
    assert!(repo.get(42, "assemblies_new").unwrap().is_none());
    assert!(repo.delete(42, "parts_new").unwrap());
    assert!(!repo.delete(42, "parts_new").unwrap());
    assert!(repo.get(42, "parts_new").unwrap().is_none());
}

#[test]
fn in_memory_repo_isolates_users() {
    let mut repo = InMemoryUploadSessionRepo::new();
    repo.put(&sample_session(42, "parts_new", "a"), 60).unwrap();
    repo.put(&sample_session(99, "parts_new", "b"), 60).unwrap();
    assert_eq!(repo.get(42, "parts_new").unwrap().unwrap().session_id, "a");
    assert_eq!(repo.get(99, "parts_new").unwrap().unwrap().session_id, "b");
}

#[test]
fn in_memory_repo_keeps_the_latest_session() {
    let mut repo = InMemoryUploadSessionRepo::default();
    repo.put(&sample_session(42, "parts_new", "a"), 60).unwrap();
    repo.put(&sample_session(42, "parts_new", "b"), 60).unwrap();
    assert_eq!(repo.get(42, "parts_new").unwrap().unwrap().session_id, "b");
}

#[test]
fn in_memory_repo_touch_is_always_true() {
    let mut repo = InMemoryUploadSessionRepo::new();
    assert!(repo.touch(42, "parts_new", 86400).unwrap());
    assert!(repo.get(42, "parts_new").unwrap().is_none());
    repo.put(&sample_session(42, "parts_new", "a"), 60).unwrap();
    assert!(repo.touch(42, "parts_new", 86400).unwrap());
    assert!(repo.touch(7, "parts_new", 60).unwrap());
    assert_eq!(repo.get(42, "parts_new").unwrap().unwrap().session_id, "a");
}

#[test]
fn noop_repo_remembers_nothing() {
    let mut repo = NoopUploadSessionRepo;
    repo.put(&sample_session(42, "parts_new", "a"), 60).unwrap();
    assert!(repo.get(42, "parts_new").unwrap().is_none());
    assert!(!repo.delete(42, "parts_new").unwrap());
}

#[test]
fn key_for_format() {
    assert_eq!(key_for(42, "parts_new"), "upload_session:42:parts_new");
}

#[test]
fn keys_separate_negative_and_positive_users() {
    assert_eq!(key_for(-42, "parts_new"), "upload_session:-42:parts_new");
    assert_ne!(key_for(4, "2:x"), key_for(42, "x"));
}

// Opening ------------------------------------------------------------------------

#[test]
fn get_or_create_miss_path_writes_redis() {
    let mut w = world(sts_long_expiry);
    let out = w.open().expect("a miss creates a session");
    assert!(!out.session_id.is_empty());
    assert_eq!(out.scope, "parts_new");
    assert!(out.tmp_prefix.ends_with('/'));
    assert_eq!(out.files.len(), 0);
    let stored = w.stored().expect("must exist");
    assert_eq!(stored.session_id, out.session_id);
}

#[test]
fn get_or_create_hit_with_long_expiry_does_not_renew() {
    let mut w = world(sts_long_expiry);
    let first = w.open().unwrap();
    let second = w.open().unwrap();
    assert_eq!(second.session_id, first.session_id);
    assert_eq!(w.issues, 1);
    assert_eq!(w.puts, 1);
    assert_eq!(w.touches, 1);
}

#[test]
fn service_get_or_create_hit_with_short_expiry_triggers_renew() {
    let mut w = world(sts_hour);
    let out1 = w.open().unwrap();
    let cred1_expired = out1.credentials.expired_time;
    let mut s = w.stored().unwrap();
    s.credentials.expired_time = 1_000_000;
    w.repo.put(&s, 86400).unwrap();
    let out2 = w.open().unwrap();
    assert_eq!(out2.session_id, out1.session_id);
    assert!(out2.credentials.expired_time >= 1_000_000);
    assert!((out2.credentials.expired_time - cred1_expired).abs() <= 3600);
}

#[test]
fn tests_get_or_create_hit_with_short_expiry_triggers_renew() {
    let mut w = world(sts_already_expired);
    let out1 = w.open().expect("expired credentials still open a session");
    let stored1 = w.stored().unwrap();
    assert_eq!(stored1.session_id, out1.session_id);
    assert!(stored1.credentials.expired_time < w.now);
    let out2 = w.open().expect("the second call renews");
    assert_eq!(out2.session_id, out1.session_id);
    assert_eq!(out2.tmp_prefix, out1.tmp_prefix);
}

#[test]
fn get_or_create_renew_threshold_triggers_renew() {
    let mut w = world(sts_long_expiry);
    let session_id = w.open().unwrap().session_id;
    let mut s = w.stored().unwrap();
    s.credentials.expired_time = w.now + 300;
    s.credentials.start_time = s.credentials.expired_time - 7200;
    w.repo.put(&s, 86400).unwrap();
    let out2 = w.open().unwrap();
    assert_eq!(out2.session_id, session_id);
    assert!(out2.credentials.expired_time > w.now + 600);
}

#[test]
fn credentials_at_the_threshold_are_kept() {
    let mut w = world(sts_long_expiry);
    w.open().unwrap();
    let mut s = w.stored().unwrap();
    s.credentials.expired_time = w.now + 600;
    w.repo.put(&s, 86400).unwrap();
    let out = w.open().unwrap();
    assert_eq!(out.credentials.expired_time, w.now + 600);
    assert_eq!(w.issues, 1);
}

#[test]
fn scope_whitelist_rejects() {
    let mut w = world(sts_long_expiry);
    let err = w.open_as("wrong_scope", &current_user()).expect_err("scope is not allowed");
    assert_eq!(err.code(), ErrorCode::BizUploadSessionScopeInvalid);
    assert!(err.message.contains("\"wrong_scope\""));
}

#[test]
fn scope_is_quoted_with_escapes() {
    let mut w = world(sts_long_expiry);
    let err = w.open_as("a\"b\n", &current_user()).unwrap_err();
    assert!(err.message.contains(&format!("{:?}", "a\"b\n")));
}

#[test]
fn clerk_role_also_allowed() {
    let mut w = world(sts_long_expiry);
    let out = w.open_as("parts_new", &user_with(Role::Clerk)).expect("clerks may upload");
    assert!(!out.session_id.is_empty());
}

#[test]
fn inspector_role_is_rejected() {
    let mut w = world(sts_long_expiry);
    let err = w.open_as("parts_new", &user_with(Role::Inspector)).expect_err("inspectors may not");
    assert_eq!(err.code(), ErrorCode::Forbidden);
}

#[test]
fn only_managers_and_clerks_may_upload() {
    assert!(require_role(&user_with(Role::Manager)).is_ok());
    assert!(require_role(&user_with(Role::Clerk)).is_ok());
    assert!(require_role(&user_with(Role::CncProgrammer)).is_err());
    assert!(require_role(&user_with(Role::ShelfAccount)).is_err());
}

#[test]
fn new_identities_are_random_uuids() {
    let a: SessionIdentity = UploadSessionService::new_identity();
    let b: SessionIdentity = UploadSessionService::new_identity();
    assert_ne!(a.session_id, b.session_id);
    assert_eq!(a.session_id.len(), 36);
    assert_eq!(a.session_id.as_bytes()[14], b'4');
    assert!(b"89ab".contains(&a.session_id.as_bytes()[19]));
    for (i, c) in a.session_id.chars().enumerate() {
        if i == 8 || i == 13 || i == 18 || i == 23 {
            assert_eq!(c, '-');
        } else {
            assert!(c.is_ascii_digit() || ('a'..='f').contains(&c));
        }
    }
    assert_eq!(a.tmp_prefix, format!("tmp/sess/{}/", a.session_id));
}

// Files ----------------------------------------------------------------------------

#[test]
fn session_id_mismatch_returns_409() {
    let mut w = world(sts_long_expiry);
    w.open().unwrap();
    let err = w
        .allocate("wrong-session-id", &announce(vec![item("r1", "a.pdf", 1024, "a")]))
        .expect_err("another session is stored");
    assert_eq!(err.code(), ErrorCode::BizUploadSessionMismatch);
}

#[test]
fn allocate_without_a_session_is_not_found() {
    let mut w = world(sts_long_expiry);
    let err = w.allocate("any", &announce(vec![item("r1", "a.pdf", 1024, "a")])).unwrap_err();
    assert_eq!(err.code(), ErrorCode::BizUploadSessionNotFound);
}

#[test]
fn allocate_idempotent_returns_existing_tmp_key() {
    let mut w = world(sts_long_expiry);
    let session_id = w.open().unwrap().session_id;
    let req = announce(vec![item("r1", "drawing.pdf", 1024, "a")]);
    let out_a = w.allocate(&session_id, &req).unwrap();
    assert_eq!(out_a.items.len(), 1);
    let first_tmp_key = out_a.items[0].tmp_key.clone();
    let out_b = w.allocate(&session_id, &req).unwrap();
    assert_eq!(out_b.items[0].tmp_key, first_tmp_key);
    assert_eq!(w.stored().unwrap().files.len(), 1);
}

#[test]
fn allocate_refuses_other_kinds_and_bad_hashes() {
    let mut w = world(sts_long_expiry);
    let session_id = w.open().unwrap().session_id;
    let mut bad_kind = item("r1", "a.pdf", 1024, "a");
    bad_kind.kind = "g_code".to_string();
    let err = w.allocate(&session_id, &announce(vec![bad_kind])).unwrap_err();
    assert_eq!(err.code(), ErrorCode::BizUploadSessionBadType);
    let mut bad_sha = item("r1", "a.pdf", 1024, "a");
    bad_sha.content_sha256 = "abcd".to_string();
    assert!(w.allocate(&session_id, &announce(vec![bad_sha])).is_err());
    assert_eq!(w.stored().unwrap().files.len(), 0);
}

#[test]
fn allocate_tmp_key_layout() {
    let key = build_tmp_key("tmp/sess/abc/", &"a".repeat(64), "图纸 v2.pdf");
    assert_eq!(key, "tmp/sess/abc/aaaaaaaaaaaaaaaa____v2.pdf");
}

#[test]
fn allocation_appends_and_keeps_what_was_there() {
    let files = vec![sample_file("r1", "abc")];
    let items = vec![item("r2", "b.pdf", 1, "b"), item("r1", "z.pdf", 9, "c")];
    let (list, slots) = allocate_into("tmp/sess/abc/", files, &items).unwrap();
    assert_eq!(list.len(), 2);
    assert_eq!(list[0].client_ref, "r1");
    assert_eq!(list[1].tmp_key, "tmp/sess/abc/bbbbbbbbbbbbbbbb_b.pdf");
    assert_eq!(slots[1].tmp_key, "tmp/sess/abc/aaaa_a.pdf");
    assert_eq!(find_file(&list, "r2"), Some(1));
    assert_eq!(find_file(&list, "r3"), None);
}

#[test]
fn removal_conserves_the_files() {
    let files = vec![sample_file("r1", "s"), sample_file("r2", "s"), sample_file("r3", "s")];
    let names = vec!["r3".to_string(), "nope".to_string(), "r1".to_string()];
    let (left, gone) = remove_from(files, &names);
    assert_eq!(left.len(), 1);
    assert_eq!(left[0].client_ref, "r2");
    assert_eq!(gone.len(), 2);
}

#[test]
fn complete_head_succeeds_marks_done() {
    let mut w = world(sts_long_expiry);
    let session_id = w.open().unwrap().session_id;
    w.allocate(&session_id, &announce(vec![item("r1", "a.pdf", 1024, "a")])).unwrap();
    let res = w.complete(&session_id, "r1", None).expect("the object is there");
    assert_eq!(res.status, "done");
    assert_eq!(res.etag.as_deref(), Some("noop"));
    assert!(res.uploaded_at.is_some());
    assert_eq!(res.uploaded_at.as_deref(), Some("2023-11-14T22:13:20+00:00"));
}

#[test]
fn complete_size_mismatch_marks_error() {
    let mut w = world(sts_long_expiry);
    let session_id = w.open().unwrap().session_id;
    w.allocate(&session_id, &announce(vec![item("r1", "a.pdf", 1024, "a")])).unwrap();
    let err = w.complete(&session_id, "r1", Some(999)).expect_err("sizes differ");
    assert_eq!(err.code(), ErrorCode::BizUploadSessionSizeMismatch);
    assert_eq!(w.stored().unwrap().files[0].status, "error");
}

#[test]
fn complete_without_the_object_marks_error() {
    let mut w = world(sts_long_expiry);
    let session_id = w.open().unwrap().session_id;
    w.allocate(&session_id, &announce(vec![item("r1", "a.pdf", 1024, "a")])).unwrap();
    w.head = Err("404".to_string());
    let err = w.complete(&session_id, "r1", None).unwrap_err();
    assert_eq!(err.code(), ErrorCode::BizUploadSessionHeadFailed);
    assert_eq!(w.stored().unwrap().files[0].status, "error");
}

#[test]
fn done_file_that_fails_later_loses_tag_and_time() {
    let mut w = world(sts_long_expiry);
    let session_id = w.open().unwrap().session_id;
    w.allocate(
        &session_id,
        &announce(vec![item("r1", "a.pdf", 1024, "a"), item("r2", "b.pdf", 2048, "b")]),
    )
    .unwrap();
    for client_ref in ["r1", "r2"] {
        w.head = Ok((1024, "e".to_string()));
        let done = w.complete(&session_id, client_ref, Some(1024)).unwrap();
        assert_eq!(done.status, "done");
        assert_eq!(done.etag.as_deref(), Some("e"));
        assert!(done.uploaded_at.is_some());
    }

    w.head = Err("404".to_string());
    let err = w.complete(&session_id, "r1", Some(1024)).unwrap_err();
    assert_eq!(err.code(), ErrorCode::BizUploadSessionHeadFailed);
    w.head = Ok((7, "e2".to_string()));
    let err2 = w.complete(&session_id, "r2", Some(1024)).unwrap_err();
    assert_eq!(err2.code(), ErrorCode::BizUploadSessionSizeMismatch);

    for file in w.stored().unwrap().files {
        assert_eq!(file.status, "error");
        assert_eq!(file.etag, None);
        assert_eq!(file.uploaded_at, None);
        assert_eq!(file.file_size, 1024);
    }
}

#[test]
fn completion_leaves_other_files_alone() {
    let mut w = world(sts_long_expiry);
    let session_id = w.open().unwrap().session_id;
    w.allocate(
        &session_id,
        &announce(vec![item("r1", "a.pdf", 1024, "a"), item("r2", "b.pdf", 2048, "b")]),
    )
    .unwrap();
    w.head = Ok((77, "tag".to_string()));
    w.complete(&session_id, "r2", Some(77)).unwrap();
    let files = w.stored().unwrap().files;
    assert_eq!((files[0].status.as_str(), files[0].file_size), ("pending", 1024));
    assert_eq!((files[1].status.as_str(), files[1].file_size), ("done", 77));
    assert_eq!(files[1].etag.as_deref(), Some("tag"));
}

#[test]
fn opened_credentials_have_the_threshold_left() {
    let mut w = world(sts_hour);
    for _ in 0..10 {
        let out = w.open().unwrap();
        assert!(out.credentials.expired_time - w.now >= 600);
        w.now += 1000;
    }
    assert!(w.issues > 1);
}

#[test]
fn complete_of_an_unknown_file_is_refused() {
    let mut w = world(sts_long_expiry);
    let session_id = w.open().unwrap().session_id;
    let err = w.complete(&session_id, "r9", None).unwrap_err();
    assert_eq!(err.code(), ErrorCode::BizUploadSessionFileNotFound);
}

#[test]
fn remove_files_drops_entries() {
    let mut w = world(sts_long_expiry);
    let session_id = w.open().unwrap().session_id;
    w.allocate(
        &session_id,
        &announce(vec![item("r1", "a.pdf", 1024, "a"), item("r2", "b.pdf", 2048, "b")]),
    )
    .unwrap();
    let key = w.stored().unwrap().files[0].tmp_key.clone();
    let out = w.remove(&session_id, &["r1", "not_exist"]).unwrap();
    assert_eq!(out.removed, vec!["r1".to_string()]);
    let stored = w.stored().unwrap();
    assert_eq!(stored.files.len(), 1);
    assert_eq!(stored.files[0].client_ref, "r2");
    assert_eq!(w.cleaned, vec![key]);
}

#[test]
fn consume_files_drops_without_cos_delete() {
    let mut w = world(sts_long_expiry);
    let session_id = w.open().unwrap().session_id;
    w.allocate(&session_id, &announce(vec![item("r1", "a.pdf", 1024, "a")])).unwrap();
    let res = w.consume(&session_id, &["r1"]).unwrap();
    assert_eq!(res.consumed, vec!["r1".to_string()]);
    assert_eq!(w.stored().unwrap().files.len(), 0);
    assert!(w.cleaned.is_empty());
}

// Renewing and discarding --------------------------------------------------------------

#[test]
fn renew_returns_new_credentials() {
    let mut w = world(sts_long_expiry);
    let out1 = w.open().unwrap();
    w.allocate(&out1.session_id, &announce(vec![item("r1", "a.pdf", 1024, "a")])).unwrap();
    let before = w.stored().unwrap();
    w.now += 5;
    let out = w.renew(&out1.session_id).unwrap();
    assert!(out.credentials.expired_time >= out1.credentials.expired_time);
    let after = w.stored().unwrap();
    assert_eq!(after.session_id, before.session_id);
    assert_eq!(after.tmp_prefix, before.tmp_prefix);
    assert_eq!(after.files.len(), 1);
    assert_eq!(after.created_at, NOW);
    assert_eq!(after.updated_at, NOW + 5);
    assert_eq!(after.expires_in, 86400);
}

#[test]
fn sts_forward_failure_propagates_error_code() {
    let mut w = world(sts_forward_failed);
    let err = w.open().expect_err("the failure is passed on");
    assert_eq!(err.code(), ErrorCode::BizUploadSessionStsForwardFailed);
    assert!(w.stored().is_none());

    let mut w2 = world(sts_long_expiry);
    let session_id = w2.open().unwrap().session_id;
    w2.sts = sts_forward_failed;
    let err2 = w2.renew(&session_id).expect_err("the failure is passed on");
    assert_eq!(err2.code(), ErrorCode::BizUploadSessionStsForwardFailed);
}

#[test]
fn renew_rejects_drifted_tmp_prefix() {
    let mut w = world(sts_long_expiry);
    let session_id = w.open().unwrap().session_id;
    w.sts = sts_drifted_prefix;
    let err = w.renew(&session_id).expect_err("credentials for another prefix");
    assert!(err.message.contains("prefix") && err.message.contains("漂移"));
    assert_eq!(err.code(), ErrorCode::Internal);
}

#[test]
fn opening_keeps_the_prefix_whatever_comes_with_credentials() {
    let mut w = world(sts_already_expired);
    let first = w.open().unwrap();
    w.sts = sts_drifted_prefix;
    let again = w.open().unwrap();
    assert_eq!(again.session_id, first.session_id);
    assert_eq!(again.tmp_prefix, first.tmp_prefix);
    assert_eq!(again.credentials.expired_time, NOW + 7200);
    assert_eq!(again.expires_in, 7200);
    assert_eq!(w.stored().unwrap().tmp_prefix, first.tmp_prefix);
}

#[test]
fn discard_mismatch_returns_409_when_redis_has_session() {
    let mut w = world(sts_long_expiry);
    let real = w.open().unwrap().session_id;
    let err = w.discard("wrong-session-id").expect_err("another session is stored");
    assert_eq!(err.code(), ErrorCode::BizUploadSessionMismatch);
    let mut empty = world(sts_long_expiry);
    empty.discard(&real).unwrap();
}

#[test]
fn discard_deletes_redis_key() {
    let mut w = world(sts_long_expiry);
    let session_id = w.open().unwrap().session_id;
    let out = w.discard(&session_id).unwrap();
    assert_eq!(out.session_id, session_id);
    assert!(w.stored().is_none());
    w.discard(&session_id).unwrap();
}
