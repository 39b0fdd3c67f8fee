//! What a filter step tells the pipeline to do next.

use vstd::prelude::*;

use crate::reply::Error;

verus! {

/// The outcome of one filter step.
///
/// Simpler signals convert into it: `true` and `Some(())` continue, `false`
/// and `None` ignore, `Ok(())` continues and `Err(e)` rejects with `e`.
#[derive(Clone, Debug, PartialEq, Eq)]
pub enum Action {
    /// Go on with the next step.
    Continue,
    /// Stop here and accept the mail as it is now.
    Ignore,
    /// Stop here and reject the mail with this reply.
    Reject(Error),
}

impl From<bool> for Action {
    fn from(value: bool) -> (action: Action) {
        if value {
            Action::Continue
        } else {
            Action::Ignore
        }
    }
}

impl vstd::std_specs::convert::FromSpecImpl<bool> for Action {
    open spec fn obeys_from_spec() -> bool {
        true
    }

    open spec fn from_spec(value: bool) -> Action {
        if value {
            Action::Continue
        } else {
            Action::Ignore
        }
    }
}

impl From<Option<()>> for Action {
    fn from(o: Option<()>) -> (action: Action) {
        if o.is_some() {
            Action::Continue
        } else {
            Action::Ignore
        }
    }
}

impl vstd::std_specs::convert::FromSpecImpl<Option<()>> for Action {
    open spec fn obeys_from_spec() -> bool {
        true
    }

    open spec fn from_spec(o: Option<()>) -> Action {
        if o is Some {
            Action::Continue
        } else {
            Action::Ignore
        }
    }
}

impl From<Result<(), Error>> for Action {
    fn from(r: Result<(), Error>) -> (action: Action) {
        match r {
            Ok(()) => Action::Continue,
            Err(e) => Action::Reject(e),
        }
    }
}

impl vstd::std_specs::convert::FromSpecImpl<Result<(), Error>> for Action {
    open spec fn obeys_from_spec() -> bool {
        true
    }

    open spec fn from_spec(r: Result<(), Error>) -> Action {
        match r {
            Ok(_) => Action::Continue,
            Err(e) => Action::Reject(e),
        }
    }
}

} // verus!
