//! The broker-wide table mapping a device identity to its one live session.
//!
//! The registry is the single source of truth for "is this device currently
//! connected". Its contract guarantees the replace-and-tear-down step as one
//! atomic operation: registering over an existing identity evicts the old
//! session, closes it, and reports the outcome its pending caller, if any,
//! must observe — the evicted session can never leak a waiting caller.

use crate::ids::DeviceID;
use crate::session::{CommandOutcome, Session, SessionData, SessionState};
use vstd::prelude::*;

verus! {

/// The model of the registry's entry list as a map.
pub open spec fn entries_map(es: Seq<(DeviceID, Session)>) -> Map<Seq<u8>, SessionData>
    decreases es.len(),
{
    if es.len() == 0 {
        Map::<Seq<u8>, SessionData>::empty()
    } else {
        entries_map(es.drop_last()).insert(es.last().0@, es.last().1@)
    }
}

/// No identity occurs twice in the entry list.
pub open spec fn entries_unique(es: Seq<(DeviceID, Session)>) -> bool {
    forall|i: int, j: int| 0 <= i < j < es.len() ==> es[i].0@ != es[j].0@
}

/// A key is in the map exactly when some entry carries it.
proof fn lemma_entries_map_contains(es: Seq<(DeviceID, Session)>, k: Seq<u8>)
    ensures
        entries_map(es).contains_key(k) <==> exists|i: int| 0 <= i < es.len() && es[i].0@ == k,
    decreases es.len(),
{
    if es.len() > 0 {
        lemma_entries_map_contains(es.drop_last(), k);
        if es.last().0@ == k {
            assert(es[es.len() - 1].0@ == k);
        } else if entries_map(es).contains_key(k) {
            let i = choose|i: int| 0 <= i < es.drop_last().len() && es.drop_last()[i].0@ == k;
            assert(es[i].0@ == k);
        } else if exists|i: int| 0 <= i < es.len() && es[i].0@ == k {
            let i = choose|i: int| 0 <= i < es.len() && es[i].0@ == k;
            assert(es.drop_last()[i].0@ == k);
        }
    }
}

/// With unique identities, the map's value at an entry's key is that
/// entry's session.
proof fn lemma_entries_map_get(es: Seq<(DeviceID, Session)>, i: int)
    requires
        entries_unique(es),
        0 <= i < es.len(),
    ensures
        entries_map(es).contains_key(es[i].0@),
        entries_map(es)[es[i].0@] == es[i].1@,
    decreases es.len(),
{
    if i == es.len() - 1 {
    } else {
        assert(es.drop_last()[i] == es[i]);
        lemma_entries_map_get(es.drop_last(), i);
        assert(es[i].0@ != es.last().0@);
    }
}

/// Removing an entry removes exactly its key from the map.
proof fn lemma_entries_map_remove(es: Seq<(DeviceID, Session)>, i: int)
    requires
        entries_unique(es),
        0 <= i < es.len(),
    ensures
        entries_map(es.remove(i)) == entries_map(es).remove(es[i].0@),
    decreases es.len(),
{
    let k = es[i].0@;
    if i == es.len() - 1 {
        assert(es.remove(i) =~= es.drop_last());
        lemma_entries_map_contains(es.drop_last(), k);
        assert(!entries_map(es.drop_last()).contains_key(k));
        assert(entries_map(es.drop_last()).insert(k, es.last().1@).remove(k) =~= entries_map(
            es.drop_last(),
        ));
    } else {
        assert(es.remove(i).drop_last() =~= es.drop_last().remove(i));
        assert(es.remove(i).last() == es.last());
        assert(es.drop_last()[i] == es[i]);
        lemma_entries_map_remove(es.drop_last(), i);
        assert(entries_map(es.remove(i)) == entries_map(es.drop_last().remove(i)).insert(
            es.last().0@,
            es.last().1@,
        ));
        assert(es.last().0@ != k);
        assert(entries_map(es.drop_last()).remove(k).insert(es.last().0@, es.last().1@)
            =~= entries_map(es.drop_last()).insert(es.last().0@, es.last().1@).remove(k));
    }
}

/// At most one live session per identity at any instant: registering a
/// second session under an identity leaves the registry mapping that
/// identity to the second session alone — the first is gone from the view
/// entirely, whatever else the table holds.
pub proof fn lemma_register_replaces(
    m: Map<Seq<u8>, SessionData>,
    id: Seq<u8>,
    s1: SessionData,
    s2: SessionData,
)
    ensures
        m.insert(id, s1).insert(id, s2) == m.insert(id, s2),
        m.insert(id, s1).insert(id, s2)[id] == s2,
{
    assert(m.insert(id, s1).insert(id, s2) =~= m.insert(id, s2));
}

/// Broker-wide table from device identity to its active session. One
/// instance per broker; at most one live session per identity at any
/// instant.
pub struct Registry {
    entries: Vec<(DeviceID, Session)>,
}

impl View for Registry {
    type V = Map<Seq<u8>, SessionData>;

    closed spec fn view(&self) -> Map<Seq<u8>, SessionData> {
        entries_map(self.entries@)
    }
}

impl Registry {
    /// Internal well-formedness: identities unique, every session keyed by
    /// its own identity, and no closed session is ever kept.
    pub closed spec fn wf(&self) -> bool {
        &&& entries_unique(self.entries@)
        &&& forall|i: int|
            0 <= i < self.entries@.len() ==> {
                &&& (#[trigger] self.entries@[i]).1@.device_id == self.entries@[i].0@
                &&& !(self.entries@[i].1@.state matches SessionState::Closed)
            }
    }

    /// An empty registry.
    pub fn new() -> (r: Registry)
        ensures
            r.wf(),
            r@ == Map::<Seq<u8>, SessionData>::empty(),
    {
        Registry { entries: Vec::new() }
    }

    /// Index of the entry holding `id`, if one does.
    fn find_index(&self, id: &DeviceID) -> (r: Option<usize>)
        ensures
            r matches Some(i) ==> i < self.entries@.len() && self.entries@[i as int].0@ == id@,
            r is None ==> forall|i: int| 0 <= i < self.entries@.len() ==> self.entries@[i].0@ != id@,
    {
        let mut i: usize = 0;
        while i < self.entries.len()
            invariant
                0 <= i <= self.entries@.len(),
                forall|j: int| 0 <= j < i ==> self.entries@[j].0@ != id@,
            decreases self.entries@.len() - i,
        {
            if self.entries[i].0.equals(id) {
                return Some(i);
            }
            i = i + 1;
        }
        None
    }

    /// Whether a session is registered for this identity.
    pub fn contains(&self, id: &DeviceID) -> (r: bool)
        ensures
            r == self@.contains_key(id@),
    {
        proof {
            lemma_entries_map_contains(self.entries@, id@);
        }
        match self.find_index(id) {
            Some(_) => true,
            None => false,
        }
    }

    /// The live session registered for this identity, if any. Non-blocking
    /// with respect to every other identity.
    pub fn lookup(&self, id: &DeviceID) -> (r: Option<&Session>)
        requires
            self.wf(),
        ensures
            r matches Some(s) ==> self@.contains_key(id@) && s@ == self@[id@],
            r is None ==> !self@.contains_key(id@),
    {
        proof {
            lemma_entries_map_contains(self.entries@, id@);
        }
        match self.find_index(id) {
            Some(i) => {
                proof {
                    lemma_entries_map_get(self.entries@, i as int);
                }
                Some(&self.entries[i].1)
            },
            None => None,
        }
    }

    /// Takes the session for this identity out of the table, alive, leaving
    /// the identity unregistered.
    pub fn take(&mut self, id: &DeviceID) -> (r: Option<Session>)
        requires
            old(self).wf(),
        ensures
            final(self).wf(),
            final(self)@ == old(self)@.remove(id@),
            r matches Some(s) ==> {
                &&& old(self)@.contains_key(id@)
                &&& s@ == old(self)@[id@]
                &&& s@.device_id == id@
                &&& !(s@.state matches SessionState::Closed)
            },
            r is None ==> !old(self)@.contains_key(id@) && final(self)@ == old(self)@,
    {
        proof {
            lemma_entries_map_contains(self.entries@, id@);
        }
        match self.find_index(id) {
            Some(i) => {
                proof {
                    lemma_entries_map_get(self.entries@, i as int);
                    lemma_entries_map_remove(self.entries@, i as int);
                }
                let (_, session) = self.entries.remove(i);
                Some(session)
            },
            None => {
                proof {
                    assert(old(self)@.remove(id@) =~= old(self)@);
                }
                None
            },
        }
    }

    /// Puts a live session in under its identity; the identity must be free.
    /// (Replacement with eviction goes through `register`.)
    pub fn put(&mut self, id: &DeviceID, session: Session)
        requires
            old(self).wf(),
            !old(self)@.contains_key(id@),
            session@.device_id == id@,
            !(session@.state matches SessionState::Closed),
        ensures
            final(self).wf(),
            final(self)@ == old(self)@.insert(id@, session@),
    {
        proof {
            lemma_entries_map_contains(self.entries@, id@);
        }
        let key = *id;
        self.entries.push((key, session));
        proof {
            assert(self.entries@.drop_last() =~= old(self).entries@);
        }
    }

    /// Registers a session for an identity, atomically replacing and tearing
    /// down whatever session was there: the old session is closed and
    /// dropped, and the outcome its pending caller must observe — a
    /// `Disconnected`, if a request was in flight — is handed back. After
    /// the call the identity maps to the new session, whatever was there
    /// before.
    pub fn register(&mut self, id: &DeviceID, session: Session) -> (evicted: Option<CommandOutcome>)
        requires
            old(self).wf(),
            session@.device_id == id@,
            !(session@.state matches SessionState::Closed),
        ensures
            final(self).wf(),
            final(self)@ == old(self)@.insert(id@, session@),
            evicted == (if old(self)@.contains_key(id@) && (old(self)@[id@].state
                matches SessionState::AwaitingResponse { .. }) {
                Some(CommandOutcome::Disconnected)
            } else {
                None::<CommandOutcome>
            }),
    {
        let taken = self.take(id);
        let evicted = match taken {
            Some(mut old_session) => {
                let was_pending = old_session.close();
                if was_pending {
                    Some(CommandOutcome::Disconnected)
                } else {
                    None
                }
            },
            None => None,
        };
        self.put(id, session);
        proof {
            assert(old(self)@.remove(id@).insert(id@, session@) =~= old(self)@.insert(
                id@,
                session@,
            ));
        }
        evicted
    }

    /// Removes the identity's session, closing it; the outcome its pending
    /// caller must observe is handed back. Removing an identity that is not
    /// present is a no-op, not an error.
    pub fn remove(&mut self, id: &DeviceID) -> (r: Option<CommandOutcome>)
        requires
            old(self).wf(),
        ensures
            final(self).wf(),
            final(self)@ == old(self)@.remove(id@),
            r == (if old(self)@.contains_key(id@) && (old(self)@[id@].state
                matches SessionState::AwaitingResponse { .. }) {
                Some(CommandOutcome::Disconnected)
            } else {
                None::<CommandOutcome>
            }),
    {
        match self.take(id) {
            Some(mut old_session) => {
                let was_pending = old_session.close();
                if was_pending {
                    Some(CommandOutcome::Disconnected)
                } else {
                    None
                }
            },
            None => None,
        }
    }
}

} // verus!
