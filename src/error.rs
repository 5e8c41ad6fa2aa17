use crate::state::StateKind;
use vstd::prelude::*;

verus! {

/// Why a connection has to be closed.
#[derive(Debug, Clone, Copy, PartialEq, Eq, Structural)]
pub enum ProtocolError {
    /// The bytes ended before a field was complete.
    Truncated,
    /// A VarInt needed a sixth group of seven bits.
    VarIntOverflow,
    /// A string field held bytes that are not UTF-8.
    InvalidUtf8,
    /// A boolean field held a byte other than 0 or 1.
    InvalidBool,
    /// A handshake asked for a state other than status (1) or login (2).
    InvalidNextState,
    /// A handshake declared a protocol version other than the supported one.
    VersionMismatch,
    /// A login start came without a player identifier.
    MissingIdentifier,
    /// A message id that the current state has no action for.
    UnexpectedMessage(u64, StateKind),
}

} // verus!
