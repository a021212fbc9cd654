//! The shape of an endpoint's answer: something to do first, or the outcome.
use crate::auth::{forbidden_text, CurrentUser, Role};
use crate::error::{AppError, ErrorCode};
use vstd::prelude::*;

verus! {

/// What an endpoint wants next.
///
/// An endpoint is called with everything that is known so far. It either asks
/// for one more read or write, after which it is called again with the reply
/// added, or it is done.
pub enum Next<A, T> {
    Ask(A),
    Done(Result<T, AppError>),
}

impl<A, T> Next<A, T> {
    /// The endpoint ends with an error of this code and message.
    pub open spec fn fails(self, code: ErrorCode, message: Seq<char>) -> bool {
        self matches Next::Done(Err(e)) && e.says(code, message)
    }

    /// The endpoint ends with exactly this error.
    pub open spec fn fails_with(self, error: AppError) -> bool {
        self matches Next::Done(Err(e)) && e == error
    }

    /// The endpoint ends well, with this value.
    pub open spec fn succeeds(self, value: T) -> bool {
        self matches Next::Done(Ok(v)) && v == value
    }

    /// The endpoint ends with an error of this code.
    pub open spec fn is_refused(self, code: ErrorCode) -> bool {
        self matches Next::Done(Err(e)) && e.code == code
    }

    /// The endpoint ends well.
    pub open spec fn is_ok(self) -> bool {
        self matches Next::Done(Ok(_))
    }

    /// The endpoint asks for this.
    pub open spec fn asks(self, ask: A) -> bool {
        self matches Next::Ask(a) && a == ask
    }
}

/// The endpoint is for managers: it refuses everyone else, and does for a manager
/// what `done` says.
pub open spec fn for_managers<A, T>(current: CurrentUser, n: Next<A, T>, done: bool) -> bool {
    if current.is(Role::Manager) {
        done
    } else {
        n.fails(ErrorCode::Forbidden, forbidden_text())
    }
}

/// Something was looked up and is not there.
pub open spec fn absent<T>(x: Option<Option<T>>) -> bool {
    x is Some && x->0 is None
}

/// Something was looked up and is there.
pub open spec fn present<T>(x: Option<Option<T>>) -> bool {
    x is Some && x->0 is Some
}

} // verus!
