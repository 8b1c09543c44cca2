//! Status-based relay mapping for backend responses: success responses pass
//! through unchanged, everything else is answered with the backend's status
//! and a configurable error body.

use vstd::prelude::*;

verus! {

/// How a backend response is answered to the caller.
#[derive(Debug, PartialEq, Eq)]
pub enum RelayAction {
    /// Relay the backend response unchanged: status, headers and body.
    Relay,
    /// Answer with the backend's status and this body instead of the
    /// backend's own.
    ErrorBody { status: u16, message: String },
}

/// The mathematical form of a relay action.
pub enum RelayOutcome {
    Relay,
    ErrorBody { status: int, message: Seq<char> },
}

impl View for RelayAction {
    type V = RelayOutcome;

    open spec fn view(&self) -> RelayOutcome {
        match self {
            RelayAction::Relay => RelayOutcome::Relay,
            RelayAction::ErrorBody { status, message } => RelayOutcome::ErrorBody {
                status: *status as int,
                message: message@,
            },
        }
    }
}

/// The error body used when no override is configured.
pub open spec fn default_error_text() -> Seq<char> {
    "Unable to fetch the file. Check the path or TOKEN."@
}

/// The relay decision: a status in `[200, 300)` is relayed verbatim; any
/// other status is preserved but the body is replaced by the configured
/// override, or the default message when none is configured. The backend's
/// own error body is never relayed.
pub open spec fn relay_spec(status: u16, error_override: Option<Seq<char>>) -> RelayOutcome {
    if 200 <= status < 300 {
        RelayOutcome::Relay
    } else {
        RelayOutcome::ErrorBody {
            status: status as int,
            message: match error_override {
                Some(m) => m,
                None => default_error_text(),
            },
        }
    }
}

/// Decides how a backend response of the given status is answered.
pub fn relay_decision(status: u16, error_override: &Option<String>) -> (r: RelayAction)
    ensures
        r@ == relay_spec(status, error_override.deep_view()),
{
    if 200 <= status && status < 300 {
        RelayAction::Relay
    } else {
        let message = match error_override {
            Some(m) => m.clone(),
            None => String::from_str("Unable to fetch the file. Check the path or TOKEN."),
        };
        RelayAction::ErrorBody { status, message }
    }
}

} // verus!
