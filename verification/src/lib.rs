//! A collaborative typing session: one coordinator holds a single shared,
//! append-only text; participants contribute single characters or words,
//! and every accepted contribution is broadcast to all subscribers as a
//! full snapshot of the text.
//!
//! This crate holds the verified core: the session store that validates
//! and appends contributions, a model of the lossy broadcast fan-out, the
//! per-connection coordinator logic, the participant-side state machine
//! with its typing metrics, and host-name validation. Terminal rendering
//! and the actual network transport live outside the library and drive it
//! through plain values.

use vstd::prelude::*;

pub mod client;
pub mod coord;
pub mod host;
pub mod hub;
pub mod store;
pub mod text;

verus! {

/// The fallback TCP port the coordinator listens on when none is given.
pub const DEFAULT_PORT: u16 = 9001;

/// Picks the listening port: the one requested on the command line, or the
/// well-known default when none was given.
pub fn get_port(requested: Option<u16>) -> (port: u16)
    ensures
        port == match requested {
            Some(p) => p,
            None => DEFAULT_PORT,
        },
{
    match requested {
        Some(p) => p,
        None => DEFAULT_PORT,
    }
}

/// Command-line options of the coordinator process. The surrounding binary
/// fills it from the real argument list.
pub struct Cli {
    /// TCP port to listen on; `None` selects `DEFAULT_PORT`.
    pub port: Option<u16>,
}

} // verus!
