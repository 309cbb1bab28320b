//! The unit of wire exchange: a frame is an opcode plus an opcode-specific
//! payload. The set of opcodes is closed: an unknown opcode byte is a decode
//! error, never a silent skip. Command payloads are a tagged union keyed by
//! command kind, with an explicit fallback variant for kinds this version
//! does not know, so newer devices stay decodable.

use crate::ids::ClientID;
use vstd::prelude::*;

verus! {

/// Closed tag identifying a frame's semantic kind.
#[derive(Clone, Copy, Debug, PartialEq, Eq, Structural)]
pub enum Opcode {
    /// Connection establishment, carrying the client's identity.
    Connect,
    /// Acknowledgement of a connection attempt.
    ConnACK,
    /// A command pushed to the device, correlated by request id.
    Execute,
    /// The device's answer to an `Execute`, echoing its request id.
    ExecuteResponse,
}

/// Status carried by acknowledgement and result frames.
#[derive(Clone, Copy, Debug, PartialEq, Eq, Structural)]
pub enum ResponseCode {
    Accepted,
    Rejected,
}

/// A device command: a kind plus its strongly-typed parameters. `Unknown`
/// carries any kind byte this version does not define, parameters untouched.
#[derive(Clone, Copy, Debug, PartialEq, Eq, Structural)]
pub enum Command {
    OnOff { on: bool },
    OpenPercent { open_percent: u8 },
    Unknown { kind: u8, value: u8 },
}

impl Command {
    /// Well-formed commands never spell a known kind through the fallback
    /// variant, so each command has exactly one wire form.
    pub open spec fn wf(self) -> bool {
        match self {
            Command::Unknown { kind, value: _ } => kind != 1 && kind != 2,
            _ => true,
        }
    }
}

/// One self-delimiting unit of the device wire protocol.
#[derive(Clone, Copy, Debug, PartialEq, Eq)]
pub enum Frame {
    Connect { client_id: ClientID },
    ConnACK { response_code: ResponseCode },
    Execute { id: u32, command: Command },
    ExecuteResponse { id: u32, response_code: ResponseCode },
}

/// The mathematical model of a frame: identical to `Frame`, with the
/// identity laid out as its byte sequence.
pub enum FrameData {
    Connect { client_id: Seq<u8> },
    ConnACK { response_code: ResponseCode },
    Execute { id: u32, command: Command },
    ExecuteResponse { id: u32, response_code: ResponseCode },
}

impl FrameData {
    /// Valid frame values: identities have their fixed size and commands are
    /// well-formed.
    pub open spec fn wf(self) -> bool {
        match self {
            FrameData::Connect { client_id } => client_id.len() == 16,
            FrameData::ConnACK { .. } => true,
            FrameData::Execute { id: _, command } => command.wf(),
            FrameData::ExecuteResponse { .. } => true,
        }
    }
}

impl View for Frame {
    type V = FrameData;

    open spec fn view(&self) -> FrameData {
        match *self {
            Frame::Connect { client_id } => FrameData::Connect { client_id: client_id@ },
            Frame::ConnACK { response_code } => FrameData::ConnACK { response_code },
            Frame::Execute { id, command } => FrameData::Execute { id, command },
            Frame::ExecuteResponse { id, response_code } => FrameData::ExecuteResponse {
                id,
                response_code,
            },
        }
    }
}

impl Frame {
    /// Every frame built from executable values is valid, except a fallback
    /// command that spells a known kind.
    pub open spec fn wf(self) -> bool {
        self@.wf()
    }

    /// The frame's opcode.
    pub fn opcode(&self) -> (r: Opcode)
        ensures
            r == self@.opcode(),
    {
        match *self {
            Frame::Connect { .. } => Opcode::Connect,
            Frame::ConnACK { .. } => Opcode::ConnACK,
            Frame::Execute { .. } => Opcode::Execute,
            Frame::ExecuteResponse { .. } => Opcode::ExecuteResponse,
        }
    }
}

impl FrameData {
    /// The model's opcode.
    pub open spec fn opcode(self) -> Opcode {
        match self {
            FrameData::Connect { .. } => Opcode::Connect,
            FrameData::ConnACK { .. } => Opcode::ConnACK,
            FrameData::Execute { .. } => Opcode::Execute,
            FrameData::ExecuteResponse { .. } => Opcode::ExecuteResponse,
        }
    }
}

} // verus!
