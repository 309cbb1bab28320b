//! Protocol-level errors shared by the frame codec and the identity parsers.
//!
//! Every variant is fatal for the connection it arose on: the caller must
//! treat the stream as protocol-violated and tear the connection down.

use vstd::prelude::*;

verus! {

/// A decode failure of the wire protocol.
#[derive(Clone, Copy, Debug, PartialEq, Eq)]
pub enum Error {
    /// A fixed-size field did not match the advertised length.
    InvalidSize { expected: usize, received: usize },
    /// The leading opcode byte matches no known frame kind.
    InvalidOpcode(u8),
    /// An opcode-specific payload byte could not be decoded; `kind` names the
    /// payload context (the command kind byte, or the opcode byte for frames
    /// without a command) and `value` is the offending byte.
    InvalidPayload { kind: u8, value: u8 },
}

} // verus!
