//! Changes to parts of a row that can be left alone, cleared or set.
use crate::text::{opt_view, trim, trimmed};
use vstd::prelude::*;

verus! {

/// Whether a part is changed at all, and what it becomes: nothing, or a trimmed
/// text.
pub open spec fn text_change(change: Option<Option<String>>) -> (bool, Option<Seq<char>>) {
    match change {
        None => (false, None),
        Some(None) => (true, None),
        Some(Some(v)) => (true, Some(trimmed(v@))),
    }
}

/// Whether a part is changed at all, and what it becomes.
pub fn change_text(change: &Option<Option<String>>) -> (r: (bool, Option<String>))
    ensures
        (r.0, opt_view(r.1)) == text_change(*change),
{
    match change {
        None => (false, None),
        Some(None) => (true, None),
        Some(Some(v)) => (true, Some(trim(v.as_str()).to_owned())),
    }
}

/// A text that must not be blank where it is given.
pub open spec fn is_blank(v: Option<String>) -> bool {
    v matches Some(t) && trimmed(t@).len() == 0
}

/// The trimmed form of an optional text.
pub open spec fn trimmed_opt(v: Option<String>) -> Option<Seq<char>> {
    match v {
        Some(t) => Some(trimmed(t@)),
        None => None,
    }
}

/// The trimmed form of an optional text; `Err` where it is given and blank.
pub fn change_required(v: &Option<String>) -> (r: Result<Option<String>, ()>)
    ensures
        r is Err <==> is_blank(*v),
        r matches Ok(t) ==> opt_view(t) == trimmed_opt(*v),
{
    match v {
        None => Ok(None),
        Some(s) => {
            let t = trim(s.as_str());
            if t.is_empty() {
                Err(())
            } else {
                Ok(Some(t.to_owned()))
            }
        },
    }
}

} // verus!
