//! Requests, answers and stored values of the upload sessions, and the checks on
//! what a client sends.
use crate::error::{AppError, ErrorCode};
use crate::text::{
    self, ascii_uppercase, copy_opt, decimal, is_alphanumeric, is_hex, opt_view, same,
};
use vstd::prelude::*;
use vstd::string::*;
use vstd::utf8::{encode_utf8, is_ascii_chars, is_ascii_chars_encode_utf8};

verus! {

// ---------------------------------------------------------------------------
// Stored values
// ---------------------------------------------------------------------------

/// One file of a session.
#[derive(Debug, PartialEq, Eq)]
pub struct SessionFile {
    pub client_ref: String,
    pub kind: String,
    pub original_filename: String,
    pub file_size: i64,
    pub content_type: String,
    pub content_sha256: String,
    pub tmp_key: String,
    /// `pending`, `done` or `error`.
    pub status: String,
    pub etag: Option<String>,
    pub uploaded_at: Option<String>,
}

/// The model of a [`SessionFile`].
pub struct FileModel {
    pub client_ref: Seq<char>,
    pub kind: Seq<char>,
    pub original_filename: Seq<char>,
    pub file_size: i64,
    pub content_type: Seq<char>,
    pub content_sha256: Seq<char>,
    pub tmp_key: Seq<char>,
    pub status: Seq<char>,
    pub etag: Option<Seq<char>>,
    pub uploaded_at: Option<Seq<char>>,
}

impl View for SessionFile {
    type V = FileModel;

    open spec fn view(&self) -> FileModel {
        FileModel {
            client_ref: self.client_ref@,
            kind: self.kind@,
            original_filename: self.original_filename@,
            file_size: self.file_size,
            content_type: self.content_type@,
            content_sha256: self.content_sha256@,
            tmp_key: self.tmp_key@,
            status: self.status@,
            etag: opt_view(self.etag),
            uploaded_at: opt_view(self.uploaded_at),
        }
    }
}

impl Clone for SessionFile {
    fn clone(&self) -> (r: Self)
        ensures
            r == *self,
    {
        SessionFile {
            client_ref: self.client_ref.clone(),
            kind: self.kind.clone(),
            original_filename: self.original_filename.clone(),
            file_size: self.file_size,
            content_type: self.content_type.clone(),
            content_sha256: self.content_sha256.clone(),
            tmp_key: self.tmp_key.clone(),
            status: self.status.clone(),
            etag: copy_opt(&self.etag),
            uploaded_at: copy_opt(&self.uploaded_at),
        }
    }
}

/// Short-lived credentials for the object storage.
#[derive(Debug, PartialEq, Eq)]
pub struct SessionCredentials {
    pub tmp_secret_id: String,
    pub tmp_secret_key: String,
    pub session_token: String,
    pub start_time: i64,
    pub expired_time: i64,
}

impl Clone for SessionCredentials {
    fn clone(&self) -> (r: Self)
        ensures
            r == *self,
    {
        SessionCredentials {
            tmp_secret_id: self.tmp_secret_id.clone(),
            tmp_secret_key: self.tmp_secret_key.clone(),
            session_token: self.session_token.clone(),
            start_time: self.start_time,
            expired_time: self.expired_time,
        }
    }
}

/// A stored upload session.
#[derive(Debug)]
pub struct UploadSession {
    pub session_id: String,
    pub user_id: i64,
    pub scope: String,
    pub tmp_prefix: String,
    pub bucket: String,
    pub region: String,
    pub credentials: SessionCredentials,
    pub expires_in: i64,
    pub files: Vec<SessionFile>,
    pub created_at: i64,
    pub updated_at: i64,
}

/// The model of an [`UploadSession`].
pub struct SessionModel {
    pub session_id: Seq<char>,
    pub user_id: i64,
    pub scope: Seq<char>,
    pub tmp_prefix: Seq<char>,
    pub bucket: Seq<char>,
    pub region: Seq<char>,
    pub credentials: SessionCredentials,
    pub expires_in: i64,
    pub files: Seq<FileModel>,
    pub created_at: i64,
    pub updated_at: i64,
}

/// The models of a list of files.
pub open spec fn files_view(files: Seq<SessionFile>) -> Seq<FileModel> {
    files.map_values(|f: SessionFile| f@)
}

impl View for UploadSession {
    type V = SessionModel;

    open spec fn view(&self) -> SessionModel {
        SessionModel {
            session_id: self.session_id@,
            user_id: self.user_id,
            scope: self.scope@,
            tmp_prefix: self.tmp_prefix@,
            bucket: self.bucket@,
            region: self.region@,
            credentials: self.credentials,
            expires_in: self.expires_in,
            files: files_view(self.files@),
            created_at: self.created_at,
            updated_at: self.updated_at,
        }
    }
}

/// A copy of a list of files.
pub fn copy_files(files: &Vec<SessionFile>) -> (r: Vec<SessionFile>)
    ensures
        r@ == files@,
{
    let mut out: Vec<SessionFile> = Vec::new();
    let mut i: usize = 0;
    while i < files.len()
        invariant
            i <= files@.len(),
            out@ == files@.take(i as int),
        decreases files@.len() - i,
    {
        out.push(files[i].clone());
        i = i + 1;
    }
    out
}

impl Clone for UploadSession {
    fn clone(&self) -> (r: Self)
        ensures
            r@ == self@,
            r.files@ == self.files@,
    {
        UploadSession {
            session_id: self.session_id.clone(),
            user_id: self.user_id,
            scope: self.scope.clone(),
            tmp_prefix: self.tmp_prefix.clone(),
            bucket: self.bucket.clone(),
            region: self.region.clone(),
            credentials: self.credentials.clone(),
            expires_in: self.expires_in,
            files: copy_files(&self.files),
            created_at: self.created_at,
            updated_at: self.updated_at,
        }
    }
}

// ---------------------------------------------------------------------------
// Requests and answers
// ---------------------------------------------------------------------------

#[derive(Debug, Clone)]
pub struct GetOrCreateIn {
    pub scope: String,
}

#[derive(Debug, Clone)]
pub struct GetOrCreateOut {
    pub session_id: String,
    pub scope: String,
    pub tmp_prefix: String,
    pub bucket: String,
    pub region: String,
    pub credentials: SessionCredentialsOut,
    pub expires_in: i64,
    pub files: Vec<SessionFile>,
}

#[derive(Debug, Clone)]
pub struct AllocateFilesIn {
    pub scope: String,
    pub files: Vec<AllocateFileItemIn>,
}

#[derive(Debug, Clone)]
pub struct AllocateFileItemIn {
    pub client_ref: String,
    pub kind: String,
    pub original_filename: String,
    pub file_size: i64,
    pub content_type: String,
    pub content_sha256: String,
}

#[derive(Debug, Clone)]
pub struct AllocateFilesOut {
    pub items: Vec<AllocateFileItemOut>,
}

#[derive(Debug, Clone)]
pub struct AllocateFileItemOut {
    pub client_ref: String,
    pub tmp_key: String,
}

/// `etag` is what the client believes; it decides nothing.
#[derive(Debug, Clone)]
pub struct CompleteFileIn {
    pub scope: String,
    pub etag: Option<String>,
    pub file_size: Option<i64>,
}

pub type CompleteFileOut = SessionFile;

#[derive(Debug, Clone)]
pub struct RemoveFilesIn {
    pub scope: String,
    pub client_refs: Vec<String>,
}

#[derive(Debug, Clone)]
pub struct RemoveFilesOut {
    pub removed: Vec<String>,
}

#[derive(Debug, Clone)]
pub struct RenewIn {
    pub scope: String,
}

#[derive(Debug, Clone)]
pub struct RenewOut {
    pub credentials: SessionCredentialsOut,
    pub expires_in: i64,
}

#[derive(Debug, Clone)]
pub struct ConsumeFilesIn {
    pub scope: String,
    pub client_refs: Vec<String>,
}

#[derive(Debug, Clone)]
pub struct ConsumeFilesOut {
    pub consumed: Vec<String>,
}

#[derive(Debug, Clone)]
pub struct DiscardIn {
    pub scope: String,
}

#[derive(Debug, Clone)]
pub struct DiscardOut {
    pub session_id: String,
}

/// The credentials as the client gets them.
#[derive(Debug, Clone, PartialEq, Eq)]
pub struct SessionCredentialsOut {
    pub tmp_secret_id: String,
    pub tmp_secret_key: String,
    pub session_token: String,
    pub start_time: i64,
    pub expired_time: i64,
}

/// The credentials of a session as the client gets them.
pub open spec fn shown_credentials(c: SessionCredentials) -> SessionCredentialsOut {
    SessionCredentialsOut {
        tmp_secret_id: c.tmp_secret_id,
        tmp_secret_key: c.tmp_secret_key,
        session_token: c.session_token,
        start_time: c.start_time,
        expired_time: c.expired_time,
    }
}

impl From<&SessionCredentials> for SessionCredentialsOut {
    fn from(c: &SessionCredentials) -> (r: Self) {
        SessionCredentialsOut {
            tmp_secret_id: c.tmp_secret_id.clone(),
            tmp_secret_key: c.tmp_secret_key.clone(),
            session_token: c.session_token.clone(),
            start_time: c.start_time,
            expired_time: c.expired_time,
        }
    }
}

impl vstd::std_specs::convert::FromSpecImpl<&SessionCredentials> for SessionCredentialsOut {
    open spec fn obeys_from_spec() -> bool {
        true
    }

    open spec fn from_spec(c: &SessionCredentials) -> Self {
        shown_credentials(*c)
    }
}

/// A file as the client gets it.
#[derive(Debug, Clone, PartialEq, Eq)]
pub struct SessionFileOut {
    pub client_ref: String,
    pub kind: String,
    pub original_filename: String,
    pub file_size: i64,
    pub content_type: String,
    pub content_sha256: String,
    pub tmp_key: String,
    pub status: String,
    pub etag: Option<String>,
    pub uploaded_at: Option<String>,
}

/// A file of a session as the client gets it.
pub open spec fn shown_file(f: SessionFile) -> SessionFileOut {
    SessionFileOut {
        client_ref: f.client_ref,
        kind: f.kind,
        original_filename: f.original_filename,
        file_size: f.file_size,
        content_type: f.content_type,
        content_sha256: f.content_sha256,
        tmp_key: f.tmp_key,
        status: f.status,
        etag: f.etag,
        uploaded_at: f.uploaded_at,
    }
}

impl From<&SessionFile> for SessionFileOut {
    fn from(f: &SessionFile) -> (r: Self) {
        SessionFileOut {
            client_ref: f.client_ref.clone(),
            kind: f.kind.clone(),
            original_filename: f.original_filename.clone(),
            file_size: f.file_size,
            content_type: f.content_type.clone(),
            content_sha256: f.content_sha256.clone(),
            tmp_key: f.tmp_key.clone(),
            status: f.status.clone(),
            etag: copy_opt(&f.etag),
            uploaded_at: copy_opt(&f.uploaded_at),
        }
    }
}

impl vstd::std_specs::convert::FromSpecImpl<&SessionFile> for SessionFileOut {
    open spec fn obeys_from_spec() -> bool {
        true
    }

    open spec fn from_spec(f: &SessionFile) -> Self {
        shown_file(*f)
    }
}

impl From<SessionFile> for SessionFileOut {
    fn from(f: SessionFile) -> (r: Self) {
        SessionFileOut {
            client_ref: f.client_ref,
            kind: f.kind,
            original_filename: f.original_filename,
            file_size: f.file_size,
            content_type: f.content_type,
            content_sha256: f.content_sha256,
            tmp_key: f.tmp_key,
            status: f.status,
            etag: f.etag,
            uploaded_at: f.uploaded_at,
        }
    }
}

impl vstd::std_specs::convert::FromSpecImpl<SessionFile> for SessionFileOut {
    open spec fn obeys_from_spec() -> bool {
        true
    }

    open spec fn from_spec(f: SessionFile) -> Self {
        shown_file(f)
    }
}

// ---------------------------------------------------------------------------
// Checks
// ---------------------------------------------------------------------------

/// The one scope that sessions are kept for.
pub open spec fn allowed_scope(scope: Seq<char>) -> bool {
    scope == "parts_new"@
}

/// Whether sessions are kept for this scope.
pub fn is_valid_scope(scope: &str) -> (r: bool)
    ensures
        r == allowed_scope(scope@),
{
    same(scope, "parts_new")
}

/// Drawings and 3D models may be uploaded; ASCII case does not matter.
pub open spec fn allowed_kind(kind: Seq<char>) -> bool {
    ascii_uppercase(kind) == "DRAWING"@ || ascii_uppercase(kind) == "3D_MODEL"@
}

/// Whether files of this kind may be uploaded.
pub fn is_valid_kind(kind: &str) -> (r: bool)
    ensures
        r == allowed_kind(kind@),
{
    let chars: Vec<char> = text::chars_of(kind);
    let mut upper = String::new();
    let mut i: usize = 0;
    while i < chars.len()
        invariant
            i <= chars@.len(),
            chars@ == kind@,
            upper@ == ascii_uppercase(kind@.take(i as int)),
        decreases chars@.len() - i,
    {
        upper.push(text::upper_of(chars[i]));
        i = i + 1;
        assert(upper@ =~= ascii_uppercase(kind@.take(i as int)));
    }
    assert(kind@.take(i as int) =~= kind@);
    same(upper.as_str(), "DRAWING") || same(upper.as_str(), "3D_MODEL")
}

/// A character that is kept in a file name; any other becomes an underscore.
pub open spec fn safe_char(c: char) -> char {
    if is_alphanumeric(c) || c == '.' || c == '-' || c == '_' {
        c
    } else {
        '_'
    }
}

/// The longest file name that is kept.
pub const MAX_FILENAME: usize = 80;

/// A file name fit for a storage key: safe characters only, cut to
/// [`MAX_FILENAME`], and `file` where nothing is left.
pub open spec fn safe_filename(name: Seq<char>) -> Seq<char> {
    let safe = name.map_values(|c: char| safe_char(c));
    if safe.len() == 0 {
        "file"@
    } else if safe.len() > MAX_FILENAME {
        safe.take(MAX_FILENAME as int)
    } else {
        safe
    }
}

/// Makes a file name fit for a storage key.
pub fn sanitize_filename(name: &str) -> (r: String)
    ensures
        r@ == safe_filename(name@),
{
    let chars: Vec<char> = text::chars_of(name);
    let mut out = String::new();
    let mut i: usize = 0;
    while i < chars.len() && i < MAX_FILENAME
        invariant
            i <= chars@.len(),
            i <= MAX_FILENAME,
            chars@ == name@,
            out@ == name@.take(i as int).map_values(|c: char| safe_char(c)),
        decreases chars@.len() - i,
    {
        let c: char = chars[i];
        let keep: bool = ('0' <= c && c <= '9') || ('a' <= c && c <= 'z') || ('A' <= c && c <= 'Z')
            || c == '.' || c == '-' || c == '_';
        out.push(
            if keep {
                c
            } else {
                '_'
            },
        );
        i = i + 1;
        assert(out@ =~= name@.take(i as int).map_values(|c: char| safe_char(c)));
    }
    let ghost safe = name@.map_values(|c: char| safe_char(c));
    assert(out@ =~= safe.take(i as int));
    if i == 0 {
        assert(safe.len() == 0);
        return "file".to_owned();
    }
    assert(out@ =~= safe_filename(name@));
    out
}

/// A SHA-256 digest as 64 hexadecimal digits of either case.
pub open spec fn is_sha256(sha: Seq<char>) -> bool {
    sha.len() == 64 && forall|i: int| 0 <= i < sha.len() ==> is_hex(#[trigger] sha[i])
}

/// The length of a text in bytes.
pub open spec fn byte_length(s: Seq<char>) -> int {
    encode_utf8(s).len() as usize as int
}

/// The message about a digest that is not one.
pub open spec fn bad_sha_text(sha: Seq<char>) -> Seq<char> {
    "content_sha256 必须是 64 个 hex 字符（大小写不敏感），got "@ + decimal(byte_length(sha))
        + " chars"@
}

/// Hexadecimal digits take one byte each.
pub proof fn lemma_hex_is_ascii(s: Seq<char>)
    requires
        forall|i: int| 0 <= i < s.len() ==> is_hex(#[trigger] s[i]),
    ensures
        is_ascii_chars(s),
        encode_utf8(s).len() == s.len(),
{
    assert forall|i: int| 0 <= i < s.len() implies '\0' <= #[trigger] s[i] <= '\u{7f}' by {
        assert(is_hex(s[i]));
    }
    is_ascii_chars_encode_utf8(s);
}

/// Refuses a digest that is not 64 hexadecimal digits.
pub fn check_sha256(sha: &str) -> (r: Result<(), AppError>)
    ensures
        r is Ok <==> is_sha256(sha@),
        r matches Err(e) ==> e.says(ErrorCode::ValidationError, bad_sha_text(sha@)),
{
    let bytes: usize = sha.len();
    let chars: Vec<char> = text::chars_of(sha);
    let mut hex: bool = true;
    let mut i: usize = 0;
    while i < chars.len()
        invariant
            i <= chars@.len(),
            chars@ == sha@,
            hex == (forall|j: int| 0 <= j < i ==> is_hex(#[trigger] sha@[j])),
        decreases chars@.len() - i,
    {
        let c: char = chars[i];
        let ok: bool = ('0' <= c && c <= '9') || ('a' <= c && c <= 'f') || ('A' <= c && c <= 'F');
        assert(ok == is_hex(sha@[i as int]));
        hex = hex && ok;
        i = i + 1;
    }
    proof {
        if hex {
            lemma_hex_is_ascii(sha@);
            assert(chars@.len() <= usize::MAX);
        }
    }
    if bytes != 64 || !hex {
        let message = text::join3(
            "content_sha256 必须是 64 个 hex 字符（大小写不敏感），got ",
            text::decimal_text(bytes as i128).as_str(),
            " chars",
        );
        return Err(AppError::validation(message.as_str()));
    }
    Ok(())
}

// ---------------------------------------------------------------------------
// Laws
// ---------------------------------------------------------------------------

/// Every file name fit for a storage key is non-empty, at most
/// [`MAX_FILENAME`] characters long and made of safe characters; making it fit
/// again changes nothing.
pub proof fn safe_filename_is_safe(name: Seq<char>)
    ensures
        0 < safe_filename(name).len() <= MAX_FILENAME,
        forall|i: int|
            0 <= i < safe_filename(name).len() ==> safe_char(#[trigger] safe_filename(name)[i])
                == safe_filename(name)[i],
        safe_filename(safe_filename(name)) == safe_filename(name),
{
    reveal_strlit("file");
    let out = safe_filename(name);
    assert forall|i: int| 0 <= i < out.len() implies safe_char(#[trigger] out[i]) == out[i] by {
        if name.len() > 0 {
            assert(out[i] == safe_char(name[i]));
        }
    }
    assert(out.map_values(|c: char| safe_char(c)) =~= out);
}

} // verus!
