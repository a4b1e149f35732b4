//! Choosing and preparing the transport towards the verification helper.
//!
//! The two strategies are mutually exclusive and selected per attempt by
//! probing for the configured socket path. The socket strategy hands the
//! helper a two-line handshake of username and cookie; the spawn strategy
//! passes the username as the helper's sole argument, forces a neutral
//! locale, and writes only the cookie.

use vstd::prelude::*;

verus! {

/// The two mutually exclusive ways to reach the verification helper.
#[derive(Clone, Copy, Debug, PartialEq, Eq, Structural)]
pub enum TransportStrategy {
    /// Connect to a resident daemon at the configured socket path.
    Socket,
    /// Start the configured helper executable and use its standard streams.
    Spawn,
}

/// Why a transport could not be opened or used. Never fatal to the session:
/// every variant is folded into a retry.
#[derive(Clone, Copy, Debug, PartialEq, Eq, Structural)]
pub enum TransportError {
    /// Connecting to the socket failed.
    Connect,
    /// Spawning the helper or wiring its streams failed.
    Spawn,
    /// Reading from or writing to the open transport failed.
    Io,
}

/// Everything one attempt needs in order to open its transport: which
/// strategy to use, the exact handshake bytes to write before any codec
/// traffic, the helper argument for the spawn path, and the locale
/// variable forced on the spawned helper.
pub struct AttemptPlan {
    /// The selected strategy.
    pub strategy: TransportStrategy,
    /// Written, as is, before the codec reads its first line.
    pub handshake: String,
    /// The helper's sole argument; present exactly on the spawn path.
    pub helper_argument: Option<String>,
    /// The environment variable name forced on a spawned helper.
    pub locale_name: String,
    /// Its value: the neutral locale.
    pub locale_value: String,
}

/// Picks the strategy for one attempt: the socket wherever it exists,
/// the spawned helper otherwise, never both.
pub fn select_strategy(socket_exists: bool) -> (s: TransportStrategy)
    ensures
        s == (if socket_exists {
            TransportStrategy::Socket
        } else {
            TransportStrategy::Spawn
        }),
{
    if socket_exists {
        TransportStrategy::Socket
    } else {
        TransportStrategy::Spawn
    }
}

/// Prepares one attempt: the socket path carries `username`, newline,
/// `cookie`, newline; the spawn path carries only `cookie`, newline, and
/// passes the username positionally instead.
pub fn plan_attempt(socket_exists: bool, username: &str, cookie: &str) -> (p: AttemptPlan)
    ensures
        p.strategy == (if socket_exists {
            TransportStrategy::Socket
        } else {
            TransportStrategy::Spawn
        }),
        socket_exists ==> p.handshake@ == username@ + "\n"@ + cookie@ + "\n"@,
        socket_exists ==> p.helper_argument is None,
        !socket_exists ==> p.handshake@ == cookie@ + "\n"@,
        !socket_exists ==> (p.helper_argument matches Some(u) && u@ == username@),
        p.locale_name@ == "LC_ALL"@,
        p.locale_value@ == "C"@,
{
    if socket_exists {
        let mut handshake = username.to_owned();
        handshake.append("\n");
        handshake.append(cookie);
        handshake.append("\n");
        AttemptPlan {
            strategy: TransportStrategy::Socket,
            handshake,
            helper_argument: None,
            locale_name: "LC_ALL".to_owned(),
            locale_value: "C".to_owned(),
        }
    } else {
        let mut handshake = cookie.to_owned();
        handshake.append("\n");
        AttemptPlan {
            strategy: TransportStrategy::Spawn,
            handshake,
            helper_argument: Some(username.to_owned()),
            locale_name: "LC_ALL".to_owned(),
            locale_value: "C".to_owned(),
        }
    }
}

} // verus!
