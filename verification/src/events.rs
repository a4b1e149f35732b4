//! The event vocabulary exchanged with the presentation surface, and the
//! errors the authority-facing call can end with.

use vstd::prelude::*;

verus! {

/// Events the agent emits towards the presentation surface.
pub enum AgentEvent {
    /// A new authentication session began for `cookie`.
    Started { cookie: String, message: String, names: Vec<String> },
    /// Terminal success for `cookie`.
    AuthorizationSucceeded { cookie: String },
    /// A verification attempt failed; the session continues and the caller
    /// may resubmit a credential.
    AuthorizationRetry { cookie: String, retry_message: Option<String> },
    /// The authority revoked the request out-of-band.
    Canceled { cookie: String },
}

/// Events the presentation surface sends back to the agent.
pub enum UserEvent {
    /// A credential attempt for `cookie`.
    ProvidedPassword { cookie: String, username: String, password: String },
    /// The user abandoned the request for `cookie`.
    Canceled { cookie: String },
}

/// The error kinds the authority-facing call distinguishes: the user gave
/// up, or the invocation cannot continue at all.
pub enum PolkitError {
    /// The user cancelled the authentication.
    Cancelled(String),
    /// The presentation side is gone or unreachable.
    Failed(String),
}

/// The cookie an agent event is addressed to.
pub open spec fn agent_event_cookie(e: AgentEvent) -> Seq<char> {
    match e {
        AgentEvent::Started { cookie, message, names } => cookie@,
        AgentEvent::AuthorizationSucceeded { cookie } => cookie@,
        AgentEvent::AuthorizationRetry { cookie, retry_message } => cookie@,
        AgentEvent::Canceled { cookie } => cookie@,
    }
}

} // verus!
