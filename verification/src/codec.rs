//! Bidirectional mapping between frames and their binary wire form.
//!
//! The wire form is self-delimiting: the leading bytes (opcode, and for
//! command frames the command kind) fix the total length before the payload
//! is parsed, so frames can be cut out of a continuous byte stream without
//! ambiguity. Decoding is purely functional over a buffer and never blocks:
//! a buffer that holds only part of a frame yields `Incomplete`, not an
//! error and not a corrupt frame.
//!
//! Layout, opcode byte first:
//! - `Connect`: `0x01`, then the 16 identity bytes — 17 bytes.
//! - `ConnACK`: `0x02`, then the response code byte — 2 bytes.
//! - `Execute`: `0x03`, the request id as 4 little-endian bytes, the
//!   command kind byte, the parameter byte — 7 bytes.
//! - `ExecuteResponse`: `0x04`, the request id as 4 little-endian bytes,
//!   the response code byte — 6 bytes.

use crate::error::Error;
use crate::frame::{Command, Frame, FrameData, Opcode, ResponseCode};
use crate::ids::ClientID;
use vstd::bytes::{
    lemma_auto_spec_u32_to_from_le_bytes, spec_u32_from_le_bytes, spec_u32_to_le_bytes,
    u32_from_le_bytes, u32_to_le_bytes,
};
use vstd::prelude::*;
use vstd::slice::slice_subrange;

verus! {

/// The wire byte of each opcode.
pub open spec fn opcode_byte(op: Opcode) -> u8 {
    match op {
        Opcode::Connect => 1,
        Opcode::ConnACK => 2,
        Opcode::Execute => 3,
        Opcode::ExecuteResponse => 4,
    }
}

/// The opcode a wire byte names, if any.
pub open spec fn byte_to_opcode(b: u8) -> Option<Opcode> {
    if b == 1 {
        Some(Opcode::Connect)
    } else if b == 2 {
        Some(Opcode::ConnACK)
    } else if b == 3 {
        Some(Opcode::Execute)
    } else if b == 4 {
        Some(Opcode::ExecuteResponse)
    } else {
        None
    }
}

/// The wire byte of a response code.
pub open spec fn response_code_byte(rc: ResponseCode) -> u8 {
    match rc {
        ResponseCode::Accepted => 0,
        ResponseCode::Rejected => 1,
    }
}

/// The response code a wire byte names, if any.
pub open spec fn byte_to_response_code(b: u8) -> Option<ResponseCode> {
    if b == 0 {
        Some(ResponseCode::Accepted)
    } else if b == 1 {
        Some(ResponseCode::Rejected)
    } else {
        None
    }
}

/// The kind byte of a command.
pub open spec fn command_kind(c: Command) -> u8 {
    match c {
        Command::OnOff { .. } => 1,
        Command::OpenPercent { .. } => 2,
        Command::Unknown { kind, .. } => kind,
    }
}

/// The parameter byte of a command.
pub open spec fn command_value(c: Command) -> u8 {
    match c {
        Command::OnOff { on } => if on {
            1
        } else {
            0
        },
        Command::OpenPercent { open_percent } => open_percent,
        Command::Unknown { kind: _, value } => value,
    }
}

/// The command a kind and parameter byte decode to; `None` exactly when a
/// known kind carries a parameter it does not admit.
pub open spec fn byte_to_command(kind: u8, value: u8) -> Option<Command> {
    if kind == 1 {
        if value == 0 {
            Some(Command::OnOff { on: false })
        } else if value == 1 {
            Some(Command::OnOff { on: true })
        } else {
            None
        }
    } else if kind == 2 {
        Some(Command::OpenPercent { open_percent: value })
    } else {
        Some(Command::Unknown { kind, value })
    }
}

/// The wire form of a frame: opcode byte, then the opcode-specific payload.
/// Request ids travel as four little-endian bytes.
pub open spec fn spec_encode(f: FrameData) -> Seq<u8> {
    match f {
        FrameData::Connect { client_id } => seq![1u8] + client_id,
        FrameData::ConnACK { response_code } => seq![2u8, response_code_byte(response_code)],
        FrameData::Execute { id, command } => seq![3u8] + spec_u32_to_le_bytes(id)
            + seq![command_kind(command), command_value(command)],
        FrameData::ExecuteResponse { id, response_code } => seq![4u8] + spec_u32_to_le_bytes(id)
            + seq![response_code_byte(response_code)],
    }
}

/// What a buffer decodes to: a frame and the bytes it occupied, `None` when
/// the buffer holds only a prefix of a frame, or the error that makes the
/// stream unrecoverable.
pub open spec fn spec_decode(s: Seq<u8>) -> Result<Option<(FrameData, int)>, Error> {
    if s.len() == 0 {
        Ok(None)
    } else {
        match byte_to_opcode(s[0]) {
            None => Err(Error::InvalidOpcode(s[0])),
            Some(Opcode::Connect) => if s.len() < 17 {
                Ok(None)
            } else {
                Ok(Some((FrameData::Connect { client_id: s.subrange(1, 17) }, 17)))
            },
            Some(Opcode::ConnACK) => if s.len() < 2 {
                Ok(None)
            } else {
                match byte_to_response_code(s[1]) {
                    Some(rc) => Ok(Some((FrameData::ConnACK { response_code: rc }, 2))),
                    None => Err(Error::InvalidPayload { kind: 2u8, value: s[1] }),
                }
            },
            Some(Opcode::Execute) => if s.len() < 7 {
                Ok(None)
            } else {
                match byte_to_command(s[5], s[6]) {
                    Some(c) => Ok(
                        Some(
                            (
                                FrameData::Execute {
                                    id: spec_u32_from_le_bytes(s.subrange(1, 5)),
                                    command: c,
                                },
                                7,
                            ),
                        ),
                    ),
                    None => Err(Error::InvalidPayload { kind: s[5], value: s[6] }),
                }
            },
            Some(Opcode::ExecuteResponse) => if s.len() < 6 {
                Ok(None)
            } else {
                match byte_to_response_code(s[5]) {
                    Some(rc) => Ok(
                        Some(
                            (
                                FrameData::ExecuteResponse {
                                    id: spec_u32_from_le_bytes(s.subrange(1, 5)),
                                    response_code: rc,
                                },
                                6,
                            ),
                        ),
                    ),
                    None => Err(Error::InvalidPayload { kind: 4u8, value: s[5] }),
                }
            },
        }
    }
}

/// Encoding then decoding gives the frame back, whole: the codec loses
/// nothing on any valid frame.
pub proof fn lemma_round_trip(f: FrameData)
    requires
        f.wf(),
    ensures
        spec_decode(spec_encode(f)) == Ok::<Option<(FrameData, int)>, Error>(
            Some((f, spec_encode(f).len() as int)),
        ),
{
    lemma_auto_spec_u32_to_from_le_bytes();
    let s = spec_encode(f);
    match f {
        FrameData::Connect { client_id } => {
            assert(s.subrange(1, 17) =~= client_id);
        },
        FrameData::ConnACK { response_code: _ } => {},
        FrameData::Execute { id, command } => {
            assert(s.subrange(1, 5) =~= spec_u32_to_le_bytes(id));
            assert(s[5] == command_kind(command));
            assert(s[6] == command_value(command));
            assert(byte_to_command(command_kind(command), command_value(command))
                == Some(command));
        },
        FrameData::ExecuteResponse { id, response_code: _ } => {
            assert(s.subrange(1, 5) =~= spec_u32_to_le_bytes(id));
        },
    }
}

/// Any strict prefix of a valid frame's encoding decodes to the incomplete
/// signal: truncation is never an error and never a frame.
pub proof fn lemma_truncated_incomplete(f: FrameData, n: int)
    requires
        f.wf(),
        0 <= n < spec_encode(f).len(),
    ensures
        spec_decode(spec_encode(f).subrange(0, n)) == Ok::<Option<(FrameData, int)>, Error>(None),
{
    lemma_auto_spec_u32_to_from_le_bytes();
    let s = spec_encode(f);
    let t = s.subrange(0, n);
    if n > 0 {
        assert(t[0] == s[0]);
    }
}

/// A buffer opening with an unknown opcode byte always decodes to
/// `InvalidOpcode`, never to a frame and never to the incomplete signal.
pub proof fn lemma_unknown_opcode(s: Seq<u8>)
    requires
        s.len() > 0,
        byte_to_opcode(s[0]) is None,
    ensures
        spec_decode(s) == Err::<Option<(FrameData, int)>, Error>(Error::InvalidOpcode(s[0])),
{
}

/// Whatever decodes successfully is the encoding of a valid frame, laid out
/// over exactly the consumed prefix: decoding is inverse to encoding on all
/// of its successes, and always consumes at least one byte.
pub proof fn lemma_decode_exact(s: Seq<u8>)
    ensures
        spec_decode(s) matches Ok(Some((f, n))) ==> {
            &&& f.wf()
            &&& 1 <= n <= s.len()
            &&& spec_encode(f) == s.subrange(0, n)
        },
{
    lemma_auto_spec_u32_to_from_le_bytes();
    if s.len() > 0 {
        match byte_to_opcode(s[0]) {
            Some(Opcode::Connect) => {
                if s.len() >= 17 {
                    assert(seq![1u8] + s.subrange(1, 17) =~= s.subrange(0, 17));
                }
            },
            Some(Opcode::ConnACK) => {
                if s.len() >= 2 && byte_to_response_code(s[1]) is Some {
                    let rc = byte_to_response_code(s[1]).unwrap();
                    assert(seq![2u8, response_code_byte(rc)] =~= s.subrange(0, 2));
                }
            },
            Some(Opcode::Execute) => {
                if s.len() >= 7 && byte_to_command(s[5], s[6]) is Some {
                    let c = byte_to_command(s[5], s[6]).unwrap();
                    let id = spec_u32_from_le_bytes(s.subrange(1, 5));
                    assert(command_kind(c) == s[5] && command_value(c) == s[6]);
                    assert(spec_u32_to_le_bytes(id) =~= s.subrange(1, 5));
                    assert(seq![3u8] + spec_u32_to_le_bytes(id) + seq![command_kind(c), command_value(c)]
                        =~= s.subrange(0, 7));
                }
            },
            Some(Opcode::ExecuteResponse) => {
                if s.len() >= 6 && byte_to_response_code(s[5]) is Some {
                    let rc = byte_to_response_code(s[5]).unwrap();
                    let id = spec_u32_from_le_bytes(s.subrange(1, 5));
                    assert(spec_u32_to_le_bytes(id) =~= s.subrange(1, 5));
                    assert(seq![4u8] + spec_u32_to_le_bytes(id) + seq![response_code_byte(rc)]
                        =~= s.subrange(0, 6));
                }
            },
            None => {},
        }
    }
}

/// Outcome of one decode step over a buffer.
#[derive(Clone, Copy, Debug, PartialEq, Eq)]
pub enum DecodeOutcome {
    /// A whole frame, and how many leading bytes it occupied.
    Decoded(Frame, usize),
    /// The buffer ends inside a frame; feed more bytes and try again.
    Incomplete,
}

impl Frame {
    /// Serializes the frame into its self-delimiting wire form.
    pub fn encode(&self) -> (r: Vec<u8>)
        ensures
            r@ == spec_encode(self@),
    {
        let mut out: Vec<u8> = Vec::new();
        match self {
            Frame::Connect { client_id } => {
                out.push(1u8);
                let bytes = client_id.into_bytes();
                let mut i: usize = 0;
                while i < 16
                    invariant
                        bytes@.len() == 16,
                        0 <= i <= 16,
                        out@ =~= seq![1u8] + bytes@.subrange(0, i as int),
                    decreases 16 - i,
                {
                    out.push(bytes[i]);
                    i = i + 1;
                }
                assert(bytes@.subrange(0, 16) =~= bytes@);
                assert(out@ =~= spec_encode(self@));
            },
            Frame::ConnACK { response_code } => {
                out.push(2u8);
                out.push(response_code_to_byte(*response_code));
                assert(out@ =~= spec_encode(self@));
            },
            Frame::Execute { id, command } => {
                out.push(3u8);
                let mut idb = u32_to_le_bytes(*id);
                out.append(&mut idb);
                out.push(command_kind_byte(*command));
                out.push(command_value_byte(*command));
                assert(out@ =~= spec_encode(self@));
            },
            Frame::ExecuteResponse { id, response_code } => {
                out.push(4u8);
                let mut idb = u32_to_le_bytes(*id);
                out.append(&mut idb);
                out.push(response_code_to_byte(*response_code));
                assert(out@ =~= spec_encode(self@));
            },
        }
        out
    }
}

/// Executable form of `response_code_byte`.
pub fn response_code_to_byte(rc: ResponseCode) -> (r: u8)
    ensures
        r == response_code_byte(rc),
{
    match rc {
        ResponseCode::Accepted => 0,
        ResponseCode::Rejected => 1,
    }
}

/// Executable form of `command_kind`.
pub fn command_kind_byte(c: Command) -> (r: u8)
    ensures
        r == command_kind(c),
{
    match c {
        Command::OnOff { .. } => 1,
        Command::OpenPercent { .. } => 2,
        Command::Unknown { kind, .. } => kind,
    }
}

/// Executable form of `command_value`.
pub fn command_value_byte(c: Command) -> (r: u8)
    ensures
        r == command_value(c),
{
    match c {
        Command::OnOff { on } => if on {
            1
        } else {
            0
        },
        Command::OpenPercent { open_percent } => open_percent,
        Command::Unknown { kind: _, value } => value,
    }
}

/// Decodes the longest frame the buffer's head holds, consuming nothing:
/// the caller drains the consumed count itself. Purely functional over the
/// buffer; a short buffer yields `Incomplete`, a byte stream that can no
/// longer frame yields the fatal error.
pub fn decode(buf: &[u8]) -> (r: Result<DecodeOutcome, Error>)
    ensures
        r matches Ok(DecodeOutcome::Decoded(f, n)) ==> spec_decode(buf@) == Ok::<
            Option<(FrameData, int)>,
            Error,
        >(Some((f@, n as int))),
        r matches Ok(DecodeOutcome::Incomplete) ==> spec_decode(buf@) == Ok::<
            Option<(FrameData, int)>,
            Error,
        >(None),
        r matches Err(e) ==> spec_decode(buf@) == Err::<Option<(FrameData, int)>, Error>(e),
{
    if buf.len() == 0 {
        return Ok(DecodeOutcome::Incomplete);
    }
    let op = buf[0];
    if op == 1 {
        if buf.len() < 17 {
            Ok(DecodeOutcome::Incomplete)
        } else {
            let inner: [u8; 16] = [
                buf[1],
                buf[2],
                buf[3],
                buf[4],
                buf[5],
                buf[6],
                buf[7],
                buf[8],
                buf[9],
                buf[10],
                buf[11],
                buf[12],
                buf[13],
                buf[14],
                buf[15],
                buf[16],
            ];
            assert(inner@ =~= buf@.subrange(1, 17));
            Ok(DecodeOutcome::Decoded(Frame::Connect { client_id: ClientID::from_bytes(inner) }, 17))
        }
    } else if op == 2 {
        if buf.len() < 2 {
            Ok(DecodeOutcome::Incomplete)
        } else if buf[1] == 0 {
            Ok(DecodeOutcome::Decoded(Frame::ConnACK { response_code: ResponseCode::Accepted }, 2))
        } else if buf[1] == 1 {
            Ok(DecodeOutcome::Decoded(Frame::ConnACK { response_code: ResponseCode::Rejected }, 2))
        } else {
            Err(Error::InvalidPayload { kind: 2, value: buf[1] })
        }
    } else if op == 3 {
        if buf.len() < 7 {
            Ok(DecodeOutcome::Incomplete)
        } else {
            let id = u32_from_le_bytes(slice_subrange(buf, 1, 5));
            let kind = buf[5];
            let value = buf[6];
            let command: Command = if kind == 1 {
                if value == 0 {
                    Command::OnOff { on: false }
                } else if value == 1 {
                    Command::OnOff { on: true }
                } else {
                    return Err(Error::InvalidPayload { kind, value });
                }
            } else if kind == 2 {
                Command::OpenPercent { open_percent: value }
            } else {
                Command::Unknown { kind, value }
            };
            Ok(DecodeOutcome::Decoded(Frame::Execute { id, command }, 7))
        }
    } else if op == 4 {
        if buf.len() < 6 {
            Ok(DecodeOutcome::Incomplete)
        } else {
            let id = u32_from_le_bytes(slice_subrange(buf, 1, 5));
            let rc: ResponseCode = if buf[5] == 0 {
                ResponseCode::Accepted
            } else if buf[5] == 1 {
                ResponseCode::Rejected
            } else {
                return Err(Error::InvalidPayload { kind: 4, value: buf[5] });
            };
            Ok(DecodeOutcome::Decoded(Frame::ExecuteResponse { id, response_code: rc }, 6))
        }
    } else {
        Err(Error::InvalidOpcode(op))
    }
}

} // verus!
