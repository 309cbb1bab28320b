//! One session per connected device: decodes the device's inbound byte
//! stream into frames, tracks at most one in-flight outbound command, and
//! correlates the device's answer with the caller that issued the command.
//!
//! The in-flight invariant is an explicit guarded slot: while a request is
//! pending the session refuses a second one fast with `Busy` rather than
//! queueing, so a stalled device can never grow a backlog. A pending slot is
//! always released: by the matching answer, by the timeout, or by the
//! connection closing.

use crate::codec::{decode, spec_decode, DecodeOutcome};
use crate::error::Error;
use crate::frame::{Frame, FrameData};
use crate::ids::DeviceID;
use vstd::prelude::*;
use vstd::slice::{slice_subrange, slice_to_vec};

verus! {

/// Where a session stands in its life: `Idle ⇄ AwaitingResponse`, then
/// `Closed`, which is terminal.
#[derive(Clone, Copy, Debug, PartialEq, Eq, Structural)]
pub enum SessionState {
    /// Connected, no command in flight.
    Idle,
    /// Exactly one command in flight, correlated by this request id.
    AwaitingResponse { request_id: u32 },
    /// The connection is gone; no transition leaves this state.
    Closed,
}

/// The dispatch error taxonomy surfaced verbatim to internal callers.
#[derive(Clone, Copy, Debug, PartialEq, Eq, Structural)]
pub enum DispatchError {
    /// No live session for the identity; the caller may retry later.
    DeviceNotConnected,
    /// A request is already in flight on this session; retry with backoff.
    Busy,
    /// The device did not answer within the bound; soft failure.
    Timeout,
    /// The connection dropped while the request was pending.
    Disconnected,
}

/// What the caller waiting on an in-flight command finally observes.
#[derive(Clone, Copy, Debug, PartialEq, Eq)]
pub enum CommandOutcome {
    /// The device answered: here is its result frame.
    Completed(Frame),
    /// The bounded wait elapsed first.
    TimedOut,
    /// The connection went away first.
    Disconnected,
}

impl CommandOutcome {
    /// The outcome as the dispatch call's result.
    pub fn into_result(self) -> (r: Result<Frame, DispatchError>)
        ensures
            (match self {
                CommandOutcome::Completed(f) => r == Ok::<Frame, DispatchError>(f),
                CommandOutcome::TimedOut => r == Err::<Frame, DispatchError>(DispatchError::Timeout),
                CommandOutcome::Disconnected => r == Err::<Frame, DispatchError>(
                    DispatchError::Disconnected,
                ),
            }),
    {
        match self {
            CommandOutcome::Completed(f) => Ok(f),
            CommandOutcome::TimedOut => Err(DispatchError::Timeout),
            CommandOutcome::Disconnected => Err(DispatchError::Disconnected),
        }
    }
}

/// The mathematical model of a session.
pub struct SessionData {
    pub device_id: Seq<u8>,
    pub state: SessionState,
    pub next_request_id: u32,
    pub rx: Seq<u8>,
}

/// Splits a byte stream into every whole frame at its head: the frames in
/// arrival order, the bytes left over, and the error that stopped the walk,
/// if one did.
pub open spec fn drain_frames(s: Seq<u8>) -> (Seq<FrameData>, Seq<u8>, Option<Error>)
    decreases s.len(),
{
    match spec_decode(s) {
        Err(e) => (Seq::<FrameData>::empty(), s, Some(e)),
        Ok(None) => (Seq::<FrameData>::empty(), s, None),
        Ok(Some((f, n))) => if 1 <= n <= s.len() {
            let rest = drain_frames(s.subrange(n, s.len() as int));
            (seq![f] + rest.0, rest.1, rest.2)
        } else {
            (Seq::<FrameData>::empty(), s, None)
        },
    }
}

/// Whether `f` answers the command in flight in `state`: a result frame
/// whose echoed id equals the pending request id.
pub open spec fn is_matching_response(state: SessionState, f: FrameData) -> bool {
    &&& state matches SessionState::AwaitingResponse { request_id }
    &&& f matches FrameData::ExecuteResponse { id, response_code: _ } && id == request_id
}

/// The request id that follows `id`, wrapping at the top.
pub open spec fn next_id(id: u32) -> u32 {
    if id == u32::MAX {
        0
    } else {
        (id + 1) as u32
    }
}

/// Broker-side stateful handle to one connected device.
pub struct Session {
    device_id: DeviceID,
    state: SessionState,
    next_request_id: u32,
    rx: Vec<u8>,
}

impl View for Session {
    type V = SessionData;

    closed spec fn view(&self) -> SessionData {
        SessionData {
            device_id: self.device_id@,
            state: self.state,
            next_request_id: self.next_request_id,
            rx: self.rx@,
        }
    }
}

impl Session {
    /// A fresh session for a device that just authenticated: idle, request
    /// ids from zero, nothing buffered.
    pub fn new(device_id: DeviceID) -> (r: Session)
        ensures
            r@.device_id == device_id@,
            r@.state == SessionState::Idle,
            r@.next_request_id == 0u32,
            r@.rx == Seq::<u8>::empty(),
    {
        Session { device_id, state: SessionState::Idle, next_request_id: 0, rx: Vec::new() }
    }

    /// The identity this session serves.
    pub fn device_id(&self) -> (r: DeviceID)
        ensures
            r@ == self@.device_id,
    {
        self.device_id
    }

    /// Where the session stands.
    pub fn state(&self) -> (r: SessionState)
        ensures
            r == self@.state,
    {
        self.state
    }

    /// Claims the single in-flight slot and builds the command frame to send
    /// to the device. Fails fast with `Busy` while a request is pending and
    /// with `Disconnected` on a closed session; in either failure the
    /// session is untouched.
    pub fn begin_execute(&mut self, command: crate::frame::Command) -> (r: Result<
        Frame,
        DispatchError,
    >)
        ensures
            final(self)@.device_id == old(self)@.device_id,
            final(self)@.rx == old(self)@.rx,
            (match old(self)@.state {
                SessionState::Idle => {
                    &&& r matches Ok(f) && f@ == (FrameData::Execute {
                        id: old(self)@.next_request_id,
                        command,
                    })
                    &&& final(self)@.state == (SessionState::AwaitingResponse {
                        request_id: old(self)@.next_request_id,
                    })
                    &&& final(self)@.next_request_id == next_id(old(self)@.next_request_id)
                },
                SessionState::AwaitingResponse { .. } => {
                    &&& r == Err::<Frame, DispatchError>(DispatchError::Busy)
                    &&& final(self)@ == old(self)@
                },
                SessionState::Closed => {
                    &&& r == Err::<Frame, DispatchError>(DispatchError::Disconnected)
                    &&& final(self)@ == old(self)@
                },
            }),
    {
        match self.state {
            SessionState::Idle => {
                let id = self.next_request_id;
                self.state = SessionState::AwaitingResponse { request_id: id };
                self.next_request_id = if id == u32::MAX {
                    0
                } else {
                    id + 1
                };
                Ok(Frame::Execute { id, command })
            },
            SessionState::AwaitingResponse { .. } => Err(DispatchError::Busy),
            SessionState::Closed => Err(DispatchError::Disconnected),
        }
    }

    /// Offers one decoded inbound frame to the correlation slot. The frame
    /// is delivered only if it answers the pending request; every other
    /// frame — a stray acknowledgement, an unexpected opcode, a late answer
    /// to a request already resolved — is discarded and changes nothing.
    pub fn handle_frame(&mut self, frame: Frame) -> (r: Option<Frame>)
        ensures
            final(self)@.device_id == old(self)@.device_id,
            final(self)@.rx == old(self)@.rx,
            final(self)@.next_request_id == old(self)@.next_request_id,
            is_matching_response(old(self)@.state, frame@) ==> {
                &&& r == Some(frame)
                &&& final(self)@.state == SessionState::Idle
            },
            !is_matching_response(old(self)@.state, frame@) ==> {
                &&& r is None
                &&& final(self)@ == old(self)@
            },
    {
        match self.state {
            SessionState::AwaitingResponse { request_id } => {
                match frame {
                    Frame::ExecuteResponse { id, response_code: _ } => {
                        if id == request_id {
                            self.state = SessionState::Idle;
                            Some(frame)
                        } else {
                            None
                        }
                    },
                    _ => None,
                }
            },
            _ => None,
        }
    }

    /// The bounded wait for the pending request elapsed: releases the slot
    /// so the device stays usable, and says whether a caller was waiting.
    /// The request id already moved on, so the late answer, if it ever
    /// arrives, is discarded by `handle_frame`.
    pub fn on_timeout(&mut self) -> (r: bool)
        ensures
            final(self)@.device_id == old(self)@.device_id,
            final(self)@.rx == old(self)@.rx,
            final(self)@.next_request_id == old(self)@.next_request_id,
            (old(self)@.state matches SessionState::AwaitingResponse { .. }) ==> {
                &&& r == true
                &&& final(self)@.state == SessionState::Idle
            },
            !(old(self)@.state matches SessionState::AwaitingResponse { .. }) ==> {
                &&& r == false
                &&& final(self)@ == old(self)@
            },
    {
        match self.state {
            SessionState::AwaitingResponse { .. } => {
                self.state = SessionState::Idle;
                true
            },
            _ => false,
        }
    }

    /// The connection is gone, by either side or by eviction: the session
    /// becomes `Closed` for good, and the answer says whether a pending
    /// caller must be failed with `Disconnected`.
    pub fn close(&mut self) -> (r: bool)
        ensures
            final(self)@.device_id == old(self)@.device_id,
            final(self)@.rx == old(self)@.rx,
            final(self)@.next_request_id == old(self)@.next_request_id,
            final(self)@.state == SessionState::Closed,
            r == (old(self)@.state matches SessionState::AwaitingResponse { .. }),
    {
        let was_pending = match self.state {
            SessionState::AwaitingResponse { .. } => true,
            _ => false,
        };
        self.state = SessionState::Closed;
        was_pending
    }

    /// Feeds one chunk read from the connection into the stream buffer and
    /// cuts out every whole frame, in arrival order. A trailing partial
    /// frame stays buffered for the next chunk. A decode error is fatal for
    /// the connection: the caller must tear this session down.
    pub fn feed(&mut self, data: &[u8]) -> (r: (Vec<Frame>, Option<Error>))
        ensures
            final(self)@.device_id == old(self)@.device_id,
            final(self)@.state == old(self)@.state,
            final(self)@.next_request_id == old(self)@.next_request_id,
            ({
                let dr = drain_frames(old(self)@.rx + data@);
                &&& r.0@.map_values(|fr: Frame| fr@) == dr.0
                &&& r.1 == dr.2
                &&& final(self)@.rx == dr.1
            }),
    {
        let ghost combined: Seq<u8> = self@.rx + data@;
        let mut i: usize = 0;
        while i < data.len()
            invariant
                0 <= i <= data@.len(),
                self@.rx == old(self)@.rx + data@.subrange(0, i as int),
                self@.device_id == old(self)@.device_id,
                self@.state == old(self)@.state,
                self@.next_request_id == old(self)@.next_request_id,
            decreases data@.len() - i,
        {
            self.rx.push(data[i]);
            i = i + 1;
        }
        assert(data@.subrange(0, data@.len() as int) =~= data@);
        assert(self@.rx == combined);

        let mut frames: Vec<Frame> = Vec::new();
        loop
            invariant
                combined == old(self)@.rx + data@,
                self@.device_id == old(self)@.device_id,
                self@.state == old(self)@.state,
                self@.next_request_id == old(self)@.next_request_id,
                drain_frames(combined) == (
                    frames@.map_values(|fr: Frame| fr@) + drain_frames(self@.rx).0,
                    drain_frames(self@.rx).1,
                    drain_frames(self@.rx).2,
                ),
            decreases self@.rx.len(),
        {
            let step = decode(self.rx.as_slice());
            match step {
                Ok(DecodeOutcome::Incomplete) => {
                    assert(drain_frames(self@.rx) == (
                        Seq::<FrameData>::empty(),
                        self@.rx,
                        None::<Error>,
                    ));
                    assert(frames@.map_values(|fr: Frame| fr@) + Seq::<FrameData>::empty()
                        =~= frames@.map_values(|fr: Frame| fr@));
                    return (frames, None);
                },
                Ok(DecodeOutcome::Decoded(f, n)) => {
                    proof {
                        crate::codec::lemma_decode_exact(self@.rx);
                    }
                    let ghost before = self@.rx;
                    let len = self.rx.len();
                    let rest = slice_to_vec(slice_subrange(self.rx.as_slice(), n, len));
                    self.rx = rest;
                    frames.push(f);
                    proof {
                        assert(self@.rx =~= before.subrange(n as int, before.len() as int));
                        assert(frames@.map_values(|fr: Frame| fr@) =~= frames@.drop_last()
                            .map_values(|fr: Frame| fr@).push(f@));
                        assert(frames@.drop_last().map_values(|fr: Frame| fr@).push(f@)
                            + drain_frames(self@.rx).0 =~= frames@.drop_last().map_values(
                            |fr: Frame| fr@,
                        ) + (seq![f@] + drain_frames(self@.rx).0));
                    }
                },
                Err(e) => {
                    assert(drain_frames(self@.rx) == (
                        Seq::<FrameData>::empty(),
                        self@.rx,
                        Some(e),
                    ));
                    assert(frames@.map_values(|fr: Frame| fr@) + Seq::<FrameData>::empty()
                        =~= frames@.map_values(|fr: Frame| fr@));
                    return (frames, Some(e));
                },
            }
        }
    }
}

} // verus!
