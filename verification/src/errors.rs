//! Error taxonomy of the authentication core.
use vstd::prelude::*;

verus! {

/// Classified outcome of a failed authentication operation.
///
/// - `InvalidArgument`: the request shape is malformed (missing or empty
///   required fields, unknown provider code).
/// - `Unauthenticated`: bad credentials, or a missing, undecryptable,
///   forged or expired session token.
/// - `NotFound`: no user record with the requested username.
/// - `AlreadyExists`: registration of a username that is already taken.
/// - `Unavailable`: the external identity provider could not be consulted
///   or rejected the assertion, or a registration was attempted through a
///   provider that never registers explicitly.
/// - `Internal`: hashing failure, store failure, or a corrupted stored
///   credential (a password record without a usable hash).
#[derive(Clone, Copy, Debug, PartialEq, Eq, Structural)]
pub enum AuthError {
    InvalidArgument,
    Unauthenticated,
    NotFound,
    AlreadyExists,
    Unavailable,
    Internal,
}

} // verus!
