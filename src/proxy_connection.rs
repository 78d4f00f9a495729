//! The mirror's session table: one tunnel to the proxy, many sessions
//! multiplexed over it and keyed by a 32-bit id.
//!
//! `U` is the sending end of the current tunnel, `T` the delivery end of a
//! session; both are handed in by the caller, who owns the channels.

use std::collections::HashMap;
use vstd::prelude::*;

use crate::down_stream::Opcode;
use crate::up_stream;

verus! {

broadcast use vstd::std_specs::hash::group_hash_axioms;

/// Number of distinct session ids.
pub const ID_SPACE: u64 = 0x1_0000_0000;

/// Why a download could not begin.
#[derive(PartialEq, Eq, Structural, Debug, Clone, Copy)]
pub enum Error {
    /// No tunnel to a proxy is open.
    NoUplink,
    /// The open tunnel was lost while the request was being sent.
    UpLinkReset,
    /// Every session id is taken by a live session.
    NoSessionId,
}

/// Steps from `from` forward to `to`, wrapping around: between 1 and 2^32.
pub open spec fn distance(from: u32, to: u32) -> int {
    let d = (to as int - from as int) % (ID_SPACE as int);
    if d == 0 {
        ID_SPACE as int
    } else {
        d
    }
}

/// What becomes of a downstream message.
pub enum Delivery<T> {
    /// No live session has the message's id: the message is dropped.
    Unknown,
    /// Hand the opcode to the session's delivery end, which stays live.
    Forward,
    /// Hand the opcode to this delivery end: the session has ended and has
    /// left the table.
    Last(T),
}

/// State shared by the tunnel acceptor, the inbound loop and the HTTP front
/// end.
pub struct State<U, T> {
    last_mux: u32,
    uplink: Option<U>,
    sessions: HashMap<u32, T>,
}

impl<U, T> State<U, T> {
    /// The last session id handed out.
    pub closed spec fn last_id(&self) -> u32 {
        self.last_mux
    }

    /// The sending end of the current tunnel.
    pub closed spec fn uplink_spec(&self) -> Option<U> {
        self.uplink
    }

    /// Live sessions by id.
    pub closed spec fn sessions(&self) -> Map<u32, T> {
        self.sessions@
    }

    /// Sessions live only while a tunnel is.
    pub open spec fn wf(&self) -> bool {
        self.uplink_spec() is None ==> self.sessions().is_empty()
    }

    /// `self` is `before` after a tunnel reset to `uplink` that evicted
    /// `evicted`.
    pub open spec fn is_reset_of(&self, before: Self, uplink: U, evicted: Map<u32, T>) -> bool {
        &&& evicted == before.sessions()
        &&& self.sessions().is_empty()
        &&& self.uplink_spec() == Some(uplink)
        &&& self.last_id() == before.last_id()
    }

    /// A table with no tunnel and no session.
    pub fn new() -> (r: Self)
        ensures
            r.last_id() == 0,
            r.uplink_spec() is None,
            r.sessions().is_empty(),
            r.wf(),
    {
        State { last_mux: 0, uplink: None, sessions: HashMap::new() }
    }

    /// The sending end of the current tunnel, if one is open.
    pub fn uplink(&self) -> (r: Option<&U>)
        ensures
            r matches Some(u) ==> self.uplink_spec() == Some(*u),
            r is None <==> self.uplink_spec() is None,
    {
        match &self.uplink {
            Some(u) => Some(u),
            None => None,
        }
    }

    /// The delivery end of session `id`, if it is live.
    pub fn session(&self, id: u32) -> (r: Option<&T>)
        ensures
            r is Some <==> self.sessions().contains_key(id),
            r matches Some(t) ==> *t == self.sessions()[id],
    {
        self.sessions.get(&id)
    }

    /// Number of live sessions.
    pub fn session_count(&self) -> (r: usize)
        ensures
            r == self.sessions().len(),
    {
        self.sessions.len()
    }

    /// Binds `tx` to the first id after the last one handed out that no live
    /// session holds, wrapping around past `u32::MAX`.
    fn add_session(&mut self, tx: T) -> (r: Option<u32>)
        ensures
            final(self).uplink_spec() == old(self).uplink_spec(),
            match r {
                Some(id) => {
                    &&& !old(self).sessions().contains_key(id)
                    &&& forall|x: u32|
                        distance(old(self).last_id(), x) < distance(old(self).last_id(), id)
                            ==> old(self).sessions().contains_key(x)
                    &&& final(self).sessions() == old(self).sessions().insert(id, tx)
                    &&& final(self).last_id() == id
                },
                None => {
                    &&& forall|x: u32| old(self).sessions().contains_key(x)
                    &&& final(self).sessions() == old(self).sessions()
                    &&& final(self).last_id() == old(self).last_id()
                },
            },
    {
        let start = self.last_mux;
        let mut tries: u64 = 0;
        let mut candidate: u32 = if start == u32::MAX {
            0
        } else {
            start + 1
        };
        while tries < ID_SPACE
            invariant
                self.sessions@ == old(self).sessions@,
                self.uplink == old(self).uplink,
                self.last_mux == start,
                start == old(self).last_mux,
                tries < ID_SPACE,
                candidate as int == (start as int + tries + 1) % (ID_SPACE as int),
                forall|x: u32|
                    distance(start, x) <= tries ==> #[trigger] self.sessions@.contains_key(x),
            decreases ID_SPACE - tries,
        {
            assert(distance(start, candidate) == tries + 1);
            if !self.sessions.contains_key(&candidate) {
                self.sessions.insert(candidate, tx);
                self.last_mux = candidate;
                return Some(candidate);
            }
            assert forall|x: u32| distance(start, x) <= tries + 1 implies
                #[trigger] self.sessions@.contains_key(x) by {
                if distance(start, x) == tries + 1 {
                    assert(x == candidate);
                }
            }
            if tries + 1 == ID_SPACE {
                assert forall|x: u32| #[trigger] self.sessions@.contains_key(x) by {
                    assert(distance(start, x) <= tries + 1);
                }
                return None;
            }
            tries = tries + 1;
            candidate = if candidate == u32::MAX {
                0
            } else {
                candidate + 1
            };
        }
        None
    }

    /// Makes `uplink` the current tunnel. Every live session belongs to the
    /// tunnel being replaced and is evicted: the returned map holds their
    /// delivery ends, each owed a `reset_notice`.
    pub fn reset_uplink_to(&mut self, uplink: U) -> (evicted: HashMap<u32, T>)
        ensures
            final(self).is_reset_of(*old(self), uplink, evicted@),
            final(self).wf(),
    {
        let mut evicted: HashMap<u32, T> = HashMap::new();
        std::mem::swap(&mut self.sessions, &mut evicted);
        self.uplink = Some(uplink);
        evicted
    }

    /// Binds `tx` to a fresh session and builds the request that asks the
    /// proxy for `package` at `version` on that session.
    pub fn begin_download(&mut self, tx: T, package: String, version: String) -> (r: Result<
        up_stream::Request,
        Error,
    >)
        requires
            old(self).wf(),
        ensures
            final(self).wf(),
            final(self).uplink_spec() == old(self).uplink_spec(),
            old(self).uplink_spec() is None ==> r == Err::<up_stream::Request, Error>(
                Error::NoUplink,
            ) && *final(self) == *old(self),
            old(self).uplink_spec() is Some && (forall|x: u32|
                old(self).sessions().contains_key(x)) ==> r == Err::<up_stream::Request, Error>(
                Error::NoSessionId,
            ) && final(self).sessions() == old(self).sessions() && final(self).last_id() == old(
                self,
            ).last_id(),
            old(self).uplink_spec() is Some && (exists|x: u32|
                !old(self).sessions().contains_key(x)) ==> (r matches Ok(req) && {
                &&& req.package@ == package@
                &&& req.version@ == version@
                &&& !old(self).sessions().contains_key(req.session_id)
                &&& forall|x: u32|
                    distance(old(self).last_id(), x) < distance(
                        old(self).last_id(),
                        req.session_id,
                    ) ==> old(self).sessions().contains_key(x)
                &&& final(self).sessions() == old(self).sessions().insert(req.session_id, tx)
                &&& final(self).last_id() == req.session_id
            }),
    {
        if self.uplink.is_none() {
            return Err(Error::NoUplink);
        }
        match self.add_session(tx) {
            Some(session_id) => Ok(up_stream::Request { session_id, package, version }),
            None => Err(Error::NoSessionId),
        }
    }

    /// Decides what becomes of an opcode addressed to session `id`. A
    /// `Complete` ends the session, which then leaves the table.
    pub fn route(&mut self, id: u32, opcode: &Opcode) -> (r: Delivery<T>)
        requires
            old(self).wf(),
        ensures
            final(self).wf(),
            !old(self).sessions().contains_key(id) ==> r is Unknown && *final(self) == *old(self),
            old(self).sessions().contains_key(id) && !(opcode is Complete) ==> r is Forward
                && *final(self) == *old(self),
            old(self).sessions().contains_key(id) && opcode is Complete ==> {
                &&& r == Delivery::Last(old(self).sessions()[id])
                &&& final(self).sessions() == old(self).sessions().remove(id)
                &&& final(self).uplink_spec() == old(self).uplink_spec()
                &&& final(self).last_id() == old(self).last_id()
            },
    {
        if !self.sessions.contains_key(&id) {
            return Delivery::Unknown;
        }
        match opcode {
            Opcode::Complete(_) => match self.sessions.remove(&id) {
                Some(tx) => Delivery::Last(tx),
                None => Delivery::Unknown,
            },
            _ => Delivery::Forward,
        }
    }

    /// Drops session `id`, whose delivery end has gone away.
    pub fn remove_session(&mut self, id: u32) -> (r: Option<T>)
        requires
            old(self).wf(),
        ensures
            final(self).wf(),
            final(self).sessions() == old(self).sessions().remove(id),
            final(self).uplink_spec() == old(self).uplink_spec(),
            final(self).last_id() == old(self).last_id(),
            match r {
                Some(t) => old(self).sessions().contains_key(id) && t == old(self).sessions()[id],
                None => !old(self).sessions().contains_key(id),
            },
    {
        self.sessions.remove(&id)
    }
}

/// After a tunnel reset, a session that was live before it is cut off from
/// the table: an opcode addressed to its id is dropped unless the id has
/// been handed out again, and its delivery end is among those evicted, which
/// are owed only the reset notice.
pub proof fn lemma_reset_detaches_sessions<U, T>(
    before: State<U, T>,
    after: State<U, T>,
    uplink: U,
    evicted: Map<u32, T>,
    id: u32,
)
    requires
        after.is_reset_of(before, uplink, evicted),
        before.sessions().contains_key(id),
    ensures
        !after.sessions().contains_key(id),
        evicted.contains_key(id),
        evicted[id] == before.sessions()[id],
{
}

} // verus!
