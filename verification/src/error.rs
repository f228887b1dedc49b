//! What can go wrong while a request is served.

use vstd::prelude::*;

verus! {

/// Why a request was not served. Neither stops the server: the request is
/// dropped and the registry stays as it was.
#[derive(Clone, Copy, Debug, PartialEq, Eq, Structural)]
pub enum ServerError {
    /// The connection's write handle could not be kept: the client is gone.
    ClientDisconnected,
    /// The line matches no rule of the command grammar.
    InvalidRequest,
}

} // verus!
