//! Errors that an endpoint answers with.
use crate::text::{decimal, id_text, join3};
use vstd::prelude::*;

verus! {

/// What went wrong, as the client is told.
#[derive(Debug, Clone, Copy, PartialEq, Eq, Structural)]
pub enum ErrorCode {
    Forbidden,
    ValidationError,
    NotFound,
    VersionConflict,
    Internal,
    BizInvalidValue,
    ShelfMismatch,
    BizShelfNotFound,
    BizShelfDuplicateCode,
    BizShelfInUse,
    BizShelfProcessProcessNotFound,
    BizProcessNotFound,
    BizPartNotFound,
    BizPartBatchNotFound,
    BizPartBatchNotHeldByWorker,
    BizWorkTypeNotFound,
    BizWorkTypeDuplicateCode,
    BizWorkTypeInUse,
    BizWorkTypeMaxHeldNotSet,
    BizWorkTypeMaxHeldMinutesNotSet,
    BizWorkTypeNoProcessMapping,
    BizWorkerNotFound,
    BizWorkerInactive,
    BizWorkerInUse,
    BizWorkerNoWorkType,
    BizWorkerHoldLimitExceeded,
    BizAutoAllocateInvalidRatio,
    BizUploadSessionScopeInvalid,
    BizUploadSessionNotFound,
    BizUploadSessionMismatch,
    BizUploadSessionBadType,
    BizUploadSessionFileNotFound,
    BizUploadSessionHeadFailed,
    BizUploadSessionSizeMismatch,
    BizUploadSessionStsForwardFailed,
    BizUserNotFound,
    BizDuplicateUsername,
    BizOldPasswordMismatch,
    BizRoleDuplicate,
    BizRoleNotFound,
}

/// The number that clients know a code by, where it has one.
pub open spec fn number_of(code: ErrorCode) -> Option<i32> {
    match code {
        ErrorCode::Forbidden => Some(40300),
        ErrorCode::ValidationError => Some(40001),
        ErrorCode::NotFound => Some(40400),
        ErrorCode::VersionConflict => Some(40901),
        ErrorCode::BizInvalidValue => Some(20104),
        ErrorCode::BizPartBatchNotHeldByWorker => Some(20114),
        ErrorCode::BizWorkerNotFound => Some(20201),
        ErrorCode::BizWorkerInactive => Some(20202),
        ErrorCode::BizWorkerInUse => Some(20203),
        ErrorCode::BizWorkerHoldLimitExceeded => Some(20204),
        ErrorCode::BizWorkerNoWorkType => Some(20206),
        ErrorCode::BizShelfNotFound => Some(20501),
        ErrorCode::BizShelfDuplicateCode => Some(20502),
        ErrorCode::BizShelfInUse => Some(20503),
        ErrorCode::BizShelfProcessProcessNotFound => Some(20505),
        ErrorCode::BizWorkTypeMaxHeldMinutesNotSet => Some(20703),
        ErrorCode::BizAutoAllocateInvalidRatio => Some(20704),
        ErrorCode::BizProcessNotFound => Some(20801),
        ErrorCode::BizWorkTypeNotFound => Some(20901),
        ErrorCode::BizWorkTypeInUse => Some(20903),
        ErrorCode::BizWorkTypeMaxHeldNotSet => Some(20904),
        ErrorCode::BizWorkTypeNoProcessMapping => Some(20905),
        ErrorCode::BizUploadSessionSizeMismatch => Some(21107),
        ErrorCode::BizUploadSessionStsForwardFailed => Some(21608),
        _ => None,
    }
}

impl ErrorCode {
    /// The number that clients know the code by, where it has one.
    pub fn number(self) -> (r: Option<i32>)
        ensures
            r == number_of(self),
    {
        match self {
            ErrorCode::Forbidden => Some(40300),
            ErrorCode::ValidationError => Some(40001),
            ErrorCode::NotFound => Some(40400),
            ErrorCode::VersionConflict => Some(40901),
            ErrorCode::BizInvalidValue => Some(20104),
            ErrorCode::BizPartBatchNotHeldByWorker => Some(20114),
            ErrorCode::BizWorkerNotFound => Some(20201),
            ErrorCode::BizWorkerInactive => Some(20202),
            ErrorCode::BizWorkerInUse => Some(20203),
            ErrorCode::BizWorkerHoldLimitExceeded => Some(20204),
            ErrorCode::BizWorkerNoWorkType => Some(20206),
            ErrorCode::BizShelfNotFound => Some(20501),
            ErrorCode::BizShelfDuplicateCode => Some(20502),
            ErrorCode::BizShelfInUse => Some(20503),
            ErrorCode::BizShelfProcessProcessNotFound => Some(20505),
            ErrorCode::BizWorkTypeMaxHeldMinutesNotSet => Some(20703),
            ErrorCode::BizAutoAllocateInvalidRatio => Some(20704),
            ErrorCode::BizProcessNotFound => Some(20801),
            ErrorCode::BizWorkTypeNotFound => Some(20901),
            ErrorCode::BizWorkTypeInUse => Some(20903),
            ErrorCode::BizWorkTypeMaxHeldNotSet => Some(20904),
            ErrorCode::BizWorkTypeNoProcessMapping => Some(20905),
            ErrorCode::BizUploadSessionSizeMismatch => Some(21107),
            ErrorCode::BizUploadSessionStsForwardFailed => Some(21608),
            _ => None,
        }
    }
}

/// A number stands for one code alone.
pub proof fn numbers_tell_codes_apart(a: ErrorCode, b: ErrorCode)
    requires
        number_of(a) is Some,
        number_of(a) == number_of(b),
    ensures
        a == b,
{
}

/// The model of an error answer: its code and its message.
pub type Problem = (ErrorCode, Seq<char>);

/// An error answer: its code and the message shown to the client.
#[derive(Debug, Clone)]
pub struct AppError {
    pub code: ErrorCode,
    pub message: String,
}

impl AppError {
    /// The error has this code and this message.
    pub open spec fn says(&self, code: ErrorCode, message: Seq<char>) -> bool {
        self.code == code && self.message@ == message
    }

    /// An error of the business rules.
    pub fn biz(code: ErrorCode, message: &str) -> (r: AppError)
        ensures
            r.says(code, message@),
    {
        AppError { code, message: message.to_owned() }
    }

    /// A request that is malformed in itself.
    pub fn validation(message: &str) -> (r: AppError)
        ensures
            r.says(ErrorCode::ValidationError, message@),
    {
        AppError { code: ErrorCode::ValidationError, message: message.to_owned() }
    }

    /// A fault of the service itself.
    pub fn internal(message: &str) -> (r: AppError)
        ensures
            r.says(ErrorCode::Internal, message@),
    {
        AppError { code: ErrorCode::Internal, message: message.to_owned() }
    }

    /// The code of the error.
    pub fn code(&self) -> (r: ErrorCode)
        ensures
            r == self.code,
    {
        self.code
    }

    /// The same error again.
    pub fn copy(&self) -> (r: AppError)
        ensures
            r == *self,
    {
        AppError { code: self.code, message: self.message.clone() }
    }
}

/// The message about a row that was changed by someone else.
pub open spec fn conflict_text() -> Seq<char> {
    "数据已被他人修改，请刷新后重试"@
}

/// The error about a row that was changed by someone else.
pub fn version_conflict() -> (r: AppError)
    ensures
        r.says(ErrorCode::VersionConflict, conflict_text()),
{
    AppError::biz(ErrorCode::VersionConflict, "数据已被他人修改，请刷新后重试")
}

/// The SQLSTATE of a violated unique index.
pub open spec fn unique_violation() -> Seq<char> {
    "23505"@
}

/// A message about a numbered thing.
pub open spec fn about(what: Seq<char>, id: i64, rest: Seq<char>) -> Seq<char> {
    what + decimal(id as int) + rest
}

/// An error with a message about a numbered thing.
pub fn fail_about(code: ErrorCode, what: &str, id: i64, rest: &str) -> (r: AppError)
    ensures
        r.says(code, about(what@, id, rest@)),
{
    AppError::biz(code, join3(what, id_text(id).as_str(), rest).as_str())
}

/// A statement that the database refused: the SQLSTATE it reported, if any, and
/// the error that the statement is answered with where no rule says otherwise.
#[derive(Debug, Clone)]
pub struct DbFault {
    pub sqlstate: Option<String>,
    pub error: AppError,
}

impl DbFault {
    /// The database reported this SQLSTATE.
    pub open spec fn has_state(&self, state: Seq<char>) -> bool {
        self.sqlstate matches Some(s) && s@ == state
    }

    /// Whether the database reported this SQLSTATE.
    pub fn is_state(&self, state: &str) -> (r: bool)
        ensures
            r == self.has_state(state@),
    {
        match &self.sqlstate {
            Some(s) => crate::text::same(s.as_str(), state),
            None => false,
        }
    }
}

} // verus!
