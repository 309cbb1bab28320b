//! The dispatch front door: accepts device connections after checking their
//! credentials against the provisioned secrets, registers a session per
//! device, routes command-execution requests to the matching session, and
//! feeds bytes read from each device's connection through the codec into
//! that device's correlation slot.
//!
//! Unauthenticated bytes are never decoded: a connection is rejected before
//! any session exists unless its identity and secret match a provisioned
//! row. Per-connection failures stay isolated: a malformed frame tears down
//! that one session and nothing else.

use crate::error::Error;
use crate::frame::{Command, Frame, FrameData};
use crate::ids::{spec_parse_id, DeviceID, DevicePassword};
use crate::registry::Registry;
use crate::session::{
    drain_frames, is_matching_response, next_id, CommandOutcome, DispatchError, Session,
    SessionData, SessionState,
};
use crate::scan::{find_byte, find_byte_at, lemma_find_byte};
use vstd::prelude::*;
use vstd::slice::{slice_subrange, slice_to_vec};

verus! {

/// Why a connection attempt was rejected before any session was created.
#[derive(Clone, Copy, Debug, PartialEq, Eq)]
pub enum AuthError {
    /// The challenge header is empty.
    MissingAuthType,
    /// The challenge header does not open with the `Basic` scheme.
    InvalidAuthType,
    /// The scheme is there but no credentials follow it.
    MissingCredentials,
    /// The credentials hold no secret after the identity.
    MissingPassword,
    /// The identity is not a well-formed 16-byte hex string.
    InvalidDeviceId(Error),
    /// No device with this identity is provisioned.
    UnknownDevice,
    /// The identity is provisioned, but the secret does not match.
    InvalidPassword,
}

/// The parse a challenge header must have: the `Basic` scheme, one space,
/// then `identity:secret`, the identity in canonical hex. The secret runs
/// to the next colon or to the end, so a secret may itself be empty but the
/// separator must be there.
pub open spec fn spec_parse_auth(s: Seq<u8>) -> Result<(Seq<u8>, Seq<u8>), AuthError> {
    if s.len() == 0 {
        Err(AuthError::MissingAuthType)
    } else {
        let p = find_byte(s, 32);
        if s.subrange(0, p) != seq![66u8, 97u8, 115u8, 105u8, 99u8] {
            Err(AuthError::InvalidAuthType)
        } else if p >= s.len() || p + 1 == s.len() {
            Err(AuthError::MissingCredentials)
        } else {
            let creds = s.subrange(p + 1, s.len() as int);
            let q = find_byte(creds, 58);
            if q >= creds.len() || q + 1 == creds.len() {
                Err(AuthError::MissingPassword)
            } else {
                let rest = creds.subrange(q + 1, creds.len() as int);
                let q2 = find_byte(rest, 58);
                match spec_parse_id(creds.subrange(0, q)) {
                    Ok(idb) => Ok((idb, rest.subrange(0, q2))),
                    Err(e) => Err(AuthError::InvalidDeviceId(e)),
                }
            }
        }
    }
}

/// Parses the credential pair a device presents once, at connection
/// establishment, out of its challenge header.
pub fn parse_authorization_header(header: &[u8]) -> (r: Result<
    (DeviceID, DevicePassword),
    AuthError,
>)
    ensures
        (match r {
            Ok(p) => spec_parse_auth(header@) matches Ok(sp) && p.0@ == sp.0 && p.1@ == sp.1,
            Err(e) => spec_parse_auth(header@) == Err::<(Seq<u8>, Seq<u8>), AuthError>(e),
        }),
{
    let n = header.len();
    if n == 0 {
        return Err(AuthError::MissingAuthType);
    }
    proof {
        lemma_find_byte(header@, 32);
    }
    let p = find_byte_at(header, 32);
    if p != 5 {
        assert(header@.subrange(0, p as int).len() != 5);
        return Err(AuthError::InvalidAuthType);
    }
    if !(header[0] == 66 && header[1] == 97 && header[2] == 115 && header[3] == 105 && header[4]
        == 99) {
        assert(header@.subrange(0, 5)[0] == header@[0]);
        assert(header@.subrange(0, 5)[1] == header@[1]);
        assert(header@.subrange(0, 5)[2] == header@[2]);
        assert(header@.subrange(0, 5)[3] == header@[3]);
        assert(header@.subrange(0, 5)[4] == header@[4]);
        return Err(AuthError::InvalidAuthType);
    }
    assert(header@.subrange(0, 5) =~= seq![66u8, 97u8, 115u8, 105u8, 99u8]);
    if p >= n || p + 1 == n {
        return Err(AuthError::MissingCredentials);
    }
    let creds = slice_subrange(header, p + 1, n);
    proof {
        lemma_find_byte(creds@, 58);
    }
    let q = find_byte_at(creds, 58);
    let cn = creds.len();
    if q >= cn || q + 1 == cn {
        return Err(AuthError::MissingPassword);
    }
    let idp = slice_subrange(creds, 0, q);
    let rest = slice_subrange(creds, q + 1, cn);
    proof {
        lemma_find_byte(rest@, 58);
    }
    let q2 = find_byte_at(rest, 58);
    let pwb = slice_subrange(rest, 0, q2);
    match DeviceID::try_from(idp) {
        Ok(d) => Ok((d, DevicePassword::from_bytes(slice_to_vec(pwb)))),
        Err(e) => Err(AuthError::InvalidDeviceId(e)),
    }
}

/// The first frame in `fs` that answers the command pending in `state`.
pub open spec fn first_response(state: SessionState, fs: Seq<FrameData>) -> Option<FrameData>
    decreases fs.len(),
{
    if fs.len() == 0 {
        None
    } else if is_matching_response(state, fs[0]) {
        Some(fs[0])
    } else {
        first_response(state, fs.drop_first())
    }
}

/// What one chunk of connection bytes did: the outcome delivered to the
/// caller waiting on this device, if one resolved, and the protocol error
/// that tore the session down, if one arose.
#[derive(Clone, Copy, Debug, PartialEq, Eq)]
pub struct Delivery {
    pub outcome: Option<CommandOutcome>,
    pub error: Option<Error>,
}

/// The broker: the provisioned identity-to-secret table, read-only after
/// load, and the registry of live sessions.
pub struct Broker {
    secrets: Vec<(DeviceID, DevicePassword)>,
    registry: Registry,
}

impl Broker {
    /// The provisioning table as pairs of identity and secret bytes.
    pub closed spec fn secrets_view(&self) -> Seq<(Seq<u8>, Seq<u8>)> {
        self.secrets@.map_values(|p: (DeviceID, DevicePassword)| (p.0@, p.1@))
    }

    /// The live sessions, keyed by device identity.
    pub closed spec fn sessions(&self) -> Map<Seq<u8>, SessionData> {
        self.registry@
    }

    /// Internal well-formedness, established by `new` and kept by every
    /// operation.
    pub closed spec fn wf(&self) -> bool {
        self.registry.wf()
    }

    /// Whether some provisioned row names this identity.
    pub open spec fn known_device(&self, id: Seq<u8>) -> bool {
        exists|i: int| 0 <= i < self.secrets_view().len() && (#[trigger] self.secrets_view()[i]).0
            == id
    }

    /// Whether this identity-and-secret pair matches a provisioned row:
    /// the whole authentication rule.
    pub open spec fn authorized(&self, id: Seq<u8>, pw: Seq<u8>) -> bool {
        exists|i: int| 0 <= i < self.secrets_view().len() && #[trigger] self.secrets_view()[i] == (
            id,
            pw,
        )
    }

    /// A broker holding the given provisioning table and no sessions.
    pub fn new(secrets: Vec<(DeviceID, DevicePassword)>) -> (r: Broker)
        ensures
            r.wf(),
            r.sessions() == Map::<Seq<u8>, SessionData>::empty(),
            r.secrets_view() == secrets@.map_values(
                |p: (DeviceID, DevicePassword)| (p.0@, p.1@),
            ),
    {
        Broker { secrets, registry: Registry::new() }
    }

    /// Whether a session is currently registered for this identity.
    pub fn is_connected(&self, id: &DeviceID) -> (r: bool)
        ensures
            r == self.sessions().contains_key(id@),
    {
        self.registry.contains(id)
    }

    /// Checks a credential pair against the provisioning table.
    fn check_auth(&self, id: &DeviceID, password: &DevicePassword) -> (r: Result<(), AuthError>)
        ensures
            r == Ok::<(), AuthError>(()) <==> self.authorized(id@, password@),
            r == Err::<(), AuthError>(AuthError::UnknownDevice) <==> !self.known_device(id@),
            r == Err::<(), AuthError>(AuthError::InvalidPassword) <==> (self.known_device(id@)
                && !self.authorized(id@, password@)),
    {
        let n = self.secrets.len();
        let mut known = false;
        let mut i: usize = 0;
        while i < n
            invariant
                n == self.secrets@.len(),
                0 <= i <= n,
                known == exists|j: int| 0 <= j < i && (#[trigger] self.secrets_view()[j]).0 == id@,
                forall|j: int| 0 <= j < i ==> (#[trigger] self.secrets_view()[j]) != (id@, password@),
            decreases n - i,
        {
            if self.secrets[i].0.equals(id) {
                known = true;
                if self.secrets[i].1.equals(password) {
                    assert(self.secrets_view()[i as int] == (id@, password@));
                    return Ok(());
                }
            }
            assert(self.secrets_view()[i as int] == (self.secrets@[i as int].0@, self.secrets@[i as int].1@));
            i = i + 1;
        }
        if known {
            Err(AuthError::InvalidPassword)
        } else {
            Err(AuthError::UnknownDevice)
        }
    }

    /// Accepts a device connection: checks the credentials, and on success
    /// registers a fresh idle session for the identity, atomically evicting
    /// and tearing down any previous one — the evicted session's pending
    /// caller, if any, observes `Disconnected`, never silence. On failure
    /// nothing changes: no session is created and no frame of this
    /// connection will ever be decoded.
    pub fn connect(&mut self, id: &DeviceID, password: &DevicePassword) -> (r: Result<
        Option<CommandOutcome>,
        AuthError,
    >)
        requires
            old(self).wf(),
        ensures
            final(self).wf(),
            final(self).secrets_view() == old(self).secrets_view(),
            old(self).authorized(id@, password@) ==> {
                &&& r matches Ok(ev) && ev == (if old(self).sessions().contains_key(id@) && (
                    old(self).sessions()[id@].state matches SessionState::AwaitingResponse { .. }
                ) {
                    Some(CommandOutcome::Disconnected)
                } else {
                    None::<CommandOutcome>
                })
                &&& final(self).sessions() == old(self).sessions().insert(
                    id@,
                    SessionData {
                        device_id: id@,
                        state: SessionState::Idle,
                        next_request_id: 0u32,
                        rx: Seq::<u8>::empty(),
                    },
                )
            },
            !old(self).authorized(id@, password@) ==> {
                &&& final(self).sessions() == old(self).sessions()
                &&& r == Err::<Option<CommandOutcome>, AuthError>(
                    if !old(self).known_device(id@) {
                        AuthError::UnknownDevice
                    } else {
                        AuthError::InvalidPassword
                    },
                )
            },
    {
        match self.check_auth(id, password) {
            Ok(()) => {
                let session = Session::new(*id);
                let evicted = self.registry.register(id, session);
                Ok(evicted)
            },
            Err(e) => Err(e),
        }
    }

    /// Routes a command to the device's session: claims its single
    /// in-flight slot and hands back the encoded-ready command frame the
    /// connection must now carry to the device. Fails verbatim with the
    /// dispatch taxonomy: `DeviceNotConnected` when no session is live,
    /// `Busy` while an earlier command is still pending.
    pub fn execute_command(&mut self, id: &DeviceID, command: Command) -> (r: Result<
        Frame,
        DispatchError,
    >)
        requires
            old(self).wf(),
        ensures
            final(self).wf(),
            final(self).secrets_view() == old(self).secrets_view(),
            !old(self).sessions().contains_key(id@) ==> {
                &&& r == Err::<Frame, DispatchError>(DispatchError::DeviceNotConnected)
                &&& final(self).sessions() == old(self).sessions()
            },
            old(self).sessions().contains_key(id@) && (old(self).sessions()[id@].state
                matches SessionState::AwaitingResponse { .. }) ==> {
                &&& r == Err::<Frame, DispatchError>(DispatchError::Busy)
                &&& final(self).sessions() == old(self).sessions()
            },
            old(self).sessions().contains_key(id@) && old(self).sessions()[id@].state
                == SessionState::Idle ==> {
                &&& r matches Ok(f) && f@ == (FrameData::Execute {
                    id: old(self).sessions()[id@].next_request_id,
                    command,
                })
                &&& final(self).sessions() == old(self).sessions().insert(
                    id@,
                    SessionData {
                        device_id: old(self).sessions()[id@].device_id,
                        state: SessionState::AwaitingResponse {
                            request_id: old(self).sessions()[id@].next_request_id,
                        },
                        next_request_id: next_id(old(self).sessions()[id@].next_request_id),
                        rx: old(self).sessions()[id@].rx,
                    },
                )
            },
    {
        match self.registry.take(id) {
            None => Err(DispatchError::DeviceNotConnected),
            Some(mut s) => {
                let res = s.begin_execute(command);
                match res {
                    Ok(f) => {
                        self.registry.put(id, s);
                        proof {
                            assert(old(self).sessions().remove(id@).insert(id@, s@)
                                =~= old(self).sessions().insert(id@, s@));
                        }
                        Ok(f)
                    },
                    Err(e) => {
                        self.registry.put(id, s);
                        proof {
                            assert(old(self).sessions().remove(id@).insert(id@, s@)
                                =~= old(self).sessions());
                        }
                        Err(e)
                    },
                }
            },
        }
    }

    /// Feeds one chunk read from the device's connection through the codec:
    /// every whole frame is processed in arrival order, a frame answering
    /// the pending command resolves that caller, every other frame is
    /// discarded, and a decode error fatally tears the session down — with
    /// the pending caller, if still unanswered, observing `Disconnected`.
    /// Bytes for an identity with no session are dropped.
    pub fn deliver_bytes(&mut self, id: &DeviceID, data: &[u8]) -> (r: Delivery)
        requires
            old(self).wf(),
        ensures
            final(self).wf(),
            final(self).secrets_view() == old(self).secrets_view(),
            !old(self).sessions().contains_key(id@) ==> {
                &&& r == (Delivery { outcome: None::<CommandOutcome>, error: None::<Error> })
                &&& final(self).sessions() == old(self).sessions()
            },
            old(self).sessions().contains_key(id@) ==> ({
                let sd = old(self).sessions()[id@];
                let dr = drain_frames(sd.rx + data@);
                let fm = first_response(sd.state, dr.0);
                &&& r.error == dr.2
                &&& (fm matches Some(f) ==> r.outcome matches Some(
                    CommandOutcome::Completed(fr),
                ) && fr@ == f)
                &&& (fm is None ==> r.outcome == (if (dr.2 is Some) && (sd.state
                    matches SessionState::AwaitingResponse { .. }) {
                    Some(CommandOutcome::Disconnected)
                } else {
                    None::<CommandOutcome>
                }))
                &&& (dr.2 is Some ==> final(self).sessions() == old(self).sessions().remove(id@))
                &&& (dr.2 is None ==> final(self).sessions() == old(self).sessions().insert(
                    id@,
                    SessionData {
                        device_id: sd.device_id,
                        state: if fm is Some {
                            SessionState::Idle
                        } else {
                            sd.state
                        },
                        next_request_id: sd.next_request_id,
                        rx: dr.1,
                    },
                ))
            }),
    {
        match self.registry.take(id) {
            None => Delivery { outcome: None, error: None },
            Some(mut s) => {
                let ghost sd = old(self).sessions()[id@];
                let (frames, err) = s.feed(data);
                let ghost fs = frames@.map_values(|fr: Frame| fr@);
                proof {
                    assert(fs.subrange(0, fs.len() as int) =~= fs);
                }
                let mut completed: Option<Frame> = None;
                let n = frames.len();
                let mut i: usize = 0;
                while i < n
                    invariant
                        n == frames@.len(),
                        0 <= i <= n,
                        fs == frames@.map_values(|fr: Frame| fr@),
                        s@.device_id == sd.device_id,
                        s@.next_request_id == sd.next_request_id,
                        s@.rx == drain_frames(sd.rx + data@).1,
                        completed is None ==> {
                            &&& s@.state == sd.state
                            &&& first_response(sd.state, fs) == first_response(
                                sd.state,
                                fs.subrange(i as int, fs.len() as int),
                            )
                        },
                        completed matches Some(fr) ==> {
                            &&& (first_response(sd.state, fs) matches Some(f) && fr@ == f)
                            &&& s@.state == SessionState::Idle
                        },
                    decreases n - i,
                {
                    let f = frames[i];
                    let ghost pre_state = s@.state;
                    let ghost pre_completed = completed;
                    let delivered = s.handle_frame(f);
                    proof {
                        let tail = fs.subrange(i as int, fs.len() as int);
                        assert(tail.len() > 0);
                        assert(tail[0] == fs[i as int]);
                        assert(fs[i as int] == f@);
                        assert(tail.drop_first() =~= fs.subrange(i as int + 1, fs.len() as int));
                        if pre_completed is None {
                            if is_matching_response(sd.state, f@) {
                                assert(first_response(sd.state, tail) == Some(f@));
                            } else {
                                assert(first_response(sd.state, tail) == first_response(
                                    sd.state,
                                    tail.drop_first(),
                                ));
                            }
                        } else {
                            assert(!is_matching_response(SessionState::Idle, f@));
                        }
                    }
                    match delivered {
                        Some(resp) => {
                            completed = Some(resp);
                        },
                        None => {},
                    }
                    i = i + 1;
                }
                proof {
                    if completed is None {
                        assert(fs.subrange(n as int, fs.len() as int) =~= Seq::<FrameData>::empty());
                        assert(first_response(sd.state, fs) is None);
                    }
                }
                match err {
                    None => {
                        self.registry.put(id, s);
                        proof {
                            assert(old(self).sessions().remove(id@).insert(id@, s@)
                                =~= old(self).sessions().insert(id@, s@));
                        }
                        match completed {
                            Some(fr) => Delivery {
                                outcome: Some(CommandOutcome::Completed(fr)),
                                error: None,
                            },
                            None => Delivery { outcome: None, error: None },
                        }
                    },
                    Some(e) => {
                        let was_pending = s.close();
                        let outcome = match completed {
                            Some(fr) => Some(CommandOutcome::Completed(fr)),
                            None => if was_pending {
                                Some(CommandOutcome::Disconnected)
                            } else {
                                None
                            },
                        };
                        Delivery { outcome, error: Some(e) }
                    },
                }
            },
        }
    }

    /// The bounded wait on this device's pending command elapsed: releases
    /// the slot — the session stays usable for the next command — and hands
    /// back the `TimedOut` its caller observes. Without a pending command
    /// this changes nothing.
    pub fn deliver_timeout(&mut self, id: &DeviceID) -> (r: Option<CommandOutcome>)
        requires
            old(self).wf(),
        ensures
            final(self).wf(),
            final(self).secrets_view() == old(self).secrets_view(),
            (old(self).sessions().contains_key(id@) && (old(self).sessions()[id@].state
                matches SessionState::AwaitingResponse { .. })) ==> {
                &&& r == Some(CommandOutcome::TimedOut)
                &&& final(self).sessions() == old(self).sessions().insert(
                    id@,
                    SessionData {
                        device_id: old(self).sessions()[id@].device_id,
                        state: SessionState::Idle,
                        next_request_id: old(self).sessions()[id@].next_request_id,
                        rx: old(self).sessions()[id@].rx,
                    },
                )
            },
            !(old(self).sessions().contains_key(id@) && (old(self).sessions()[id@].state
                matches SessionState::AwaitingResponse { .. })) ==> {
                &&& r is None
                &&& final(self).sessions() == old(self).sessions()
            },
    {
        match self.registry.take(id) {
            None => None,
            Some(mut s) => {
                let fired = s.on_timeout();
                self.registry.put(id, s);
                proof {
                    if fired {
                        assert(old(self).sessions().remove(id@).insert(id@, s@)
                            =~= old(self).sessions().insert(id@, s@));
                    } else {
                        assert(old(self).sessions().remove(id@).insert(id@, s@)
                            =~= old(self).sessions());
                    }
                }
                if fired {
                    Some(CommandOutcome::TimedOut)
                } else {
                    None
                }
            },
        }
    }

    /// The device's connection closed, by either side: the session is
    /// removed and torn down, and the pending caller, if any, observes
    /// `Disconnected`. Disconnecting an identity with no session is a
    /// no-op.
    pub fn disconnect(&mut self, id: &DeviceID) -> (r: Option<CommandOutcome>)
        requires
            old(self).wf(),
        ensures
            final(self).wf(),
            final(self).secrets_view() == old(self).secrets_view(),
            final(self).sessions() == old(self).sessions().remove(id@),
            r == (if old(self).sessions().contains_key(id@) && (old(self).sessions()[id@].state
                matches SessionState::AwaitingResponse { .. }) {
                Some(CommandOutcome::Disconnected)
            } else {
                None::<CommandOutcome>
            }),
    {
        self.registry.remove(id)
    }
}

} // verus!
