//! The control-plane conversation: the mirror answers each request with one
//! response carrying the request's sequence number, in order; the client
//! numbers its requests and checks what comes back.

use vstd::prelude::*;

use crate::cpm_api::{Error, Overlapped, PackageId, Request, Response};

verus! {

/// A response envelope.
pub type Reply = Overlapped<Result<Response, Error>>;

/// The mirror's side of one control-plane connection.
pub struct ControlSession {
    pending: Option<u32>,
    requests: Ghost<Seq<u32>>,
    responses: Ghost<Seq<u32>>,
}

impl ControlSession {
    /// Sequence numbers of the requests accepted, in order.
    pub closed spec fn requests(&self) -> Seq<u32> {
        self.requests@
    }

    /// Sequence numbers of the responses sent, in order.
    pub closed spec fn responses(&self) -> Seq<u32> {
        self.responses@
    }

    /// Whether a request awaits its response.
    pub closed spec fn awaiting(&self) -> bool {
        self.pending is Some
    }

    #[verifier::type_invariant]
    spec fn inv(&self) -> bool {
        &&& self.responses@.len() <= self.requests@.len()
        &&& forall|i: int|
            0 <= i < self.responses@.len() ==> #[trigger] self.responses@[i] == self.requests@[i]
        &&& match self.pending {
            Some(s) => self.requests@.len() == self.responses@.len() + 1 && s
                == self.requests@.last(),
            None => self.requests@.len() == self.responses@.len(),
        }
    }

    /// A connection on which nothing was asked yet.
    pub fn new() -> (r: Self)
        ensures
            r.requests() == Seq::<u32>::empty(),
            r.responses() == Seq::<u32>::empty(),
            !r.awaiting(),
    {
        ControlSession { pending: None, requests: Ghost(Seq::empty()), responses: Ghost(Seq::empty()) }
    }

    /// Accepts the next request; `None` while the previous one still awaits
    /// its response.
    pub fn accept(&mut self, envelope: Overlapped<Request>) -> (r: Option<Request>)
        ensures
            !old(self).awaiting() ==> (r matches Some(q) && q == envelope.payload
                && final(self).requests() == old(self).requests().push(envelope.sequence)
                && final(self).responses() == old(self).responses() && final(self).awaiting()),
            old(self).awaiting() ==> r is None && final(self).requests() == old(self).requests()
                && final(self).responses() == old(self).responses() && final(self).awaiting(),
    {
        proof {
            use_type_invariant(&*self);
        }
        if self.pending.is_some() {
            return None;
        }
        let ghost requests = self.requests@.push(envelope.sequence);
        *self = ControlSession {
            pending: Some(envelope.sequence),
            requests: Ghost(requests),
            responses: self.responses,
        };
        Some(envelope.payload)
    }

    /// The response to the request awaiting one, tagged with that request's
    /// sequence number; `None` when no request awaits. Once it is sent, the
    /// responses echo the requests' sequence numbers one for one, in order.
    pub fn respond(&mut self, payload: Result<Response, Error>) -> (r: Option<Reply>)
        ensures
            old(self).awaiting() ==> (r matches Some(e) && e.payload == payload && e.sequence
                == old(self).requests().last() && final(self).requests() == old(self).requests()
                && final(self).responses() == old(self).responses().push(e.sequence)),
            !old(self).awaiting() ==> r is None && final(self).requests() == old(self).requests()
                && final(self).responses() == old(self).responses(),
            !final(self).awaiting(),
            final(self).responses() == final(self).requests(),
    {
        proof {
            use_type_invariant(&*self);
        }
        match self.pending {
            None => {
                proof {
                    assert(self.responses@ =~= self.requests@);
                }
                None
            },
            Some(sequence) => {
                let ghost responses = self.responses@.push(sequence);
                proof {
                    assert(responses =~= self.requests@);
                }
                *self = ControlSession {
                    pending: None,
                    requests: self.requests,
                    responses: Ghost(responses),
                };
                Some(Overlapped { sequence, payload })
            },
        }
    }
}

/// Why a control-plane exchange failed on the client's side.
#[derive(PartialEq, Eq, Structural, Debug, Clone, Copy)]
pub enum ClientError {
    /// A response of the wrong kind for the request.
    UnexpectedResponse,
    /// The mirror reported this error.
    ProtocolError(Error),
    /// The response carried another sequence number than the request.
    SequenceError,
    /// A file name in an archive is not `name/version`.
    BadTarFileName,
    /// A line of a package list is not `name/version`.
    IllegalCrateListFormat,
}

/// The number after `n`, wrapping to zero after `u32::MAX`.
pub open spec fn next_sequence(n: u32) -> u32 {
    if n == u32::MAX {
        0
    } else {
        (n + 1) as u32
    }
}

/// Numbers a client's requests: 1, 2, 3, ...
pub struct Sequencer {
    last: u32,
}

impl Sequencer {
    /// The number given to the last request.
    pub closed spec fn last_spec(&self) -> u32 {
        self.last
    }

    /// A sequencer that has numbered nothing.
    pub fn new() -> (r: Self)
        ensures
            r.last_spec() == 0,
    {
        Sequencer { last: 0 }
    }

    /// The number given to the last request.
    pub fn last(&self) -> (r: u32)
        ensures
            r == self.last_spec(),
    {
        self.last
    }

    /// Wraps `request` in an envelope with the next sequence number.
    pub fn envelope(&mut self, request: Request) -> (r: Overlapped<Request>)
        ensures
            final(self).last_spec() == next_sequence(old(self).last_spec()),
            r.sequence == final(self).last_spec(),
            r.payload == request,
    {
        self.last = if self.last == u32::MAX {
            0
        } else {
            self.last + 1
        };
        Overlapped { sequence: self.last, payload: request }
    }
}

/// The response carried by `reply` to the request numbered `sent`.
pub fn check_reply(sent: u32, reply: Reply) -> (r: Result<Response, ClientError>)
    ensures
        reply.sequence != sent ==> r == Err::<Response, ClientError>(ClientError::SequenceError),
        reply.sequence == sent ==> match reply.payload {
            Ok(resp) => r == Ok::<Response, ClientError>(resp),
            Err(e) => r == Err::<Response, ClientError>(ClientError::ProtocolError(e)),
        },
{
    if reply.sequence != sent {
        return Err(ClientError::SequenceError);
    }
    match reply.payload {
        Ok(resp) => Ok(resp),
        Err(e) => Err(ClientError::ProtocolError(e)),
    }
}

/// Checks that `response` answers an upload.
pub fn expect_upload(response: Response) -> (r: Result<(), ClientError>)
    ensures
        response is UploadCrate ==> r is Ok,
        !(response is UploadCrate) ==> r == Err::<(), ClientError>(
            ClientError::UnexpectedResponse,
        ),
{
    match response {
        Response::UploadCrate => Ok(()),
        _ => Err(ClientError::UnexpectedResponse),
    }
}

/// The missing packages that `response` lists, if it answers a check.
pub fn expect_missing(response: Response) -> (r: Result<Vec<PackageId>, ClientError>)
    ensures
        response matches Response::CheckMissing(ps) ==> r == Ok::<Vec<PackageId>, ClientError>(ps),
        !(response is CheckMissing) ==> r == Err::<Vec<PackageId>, ClientError>(
            ClientError::UnexpectedResponse,
        ),
{
    match response {
        Response::CheckMissing(ps) => Ok(ps),
        _ => Err(ClientError::UnexpectedResponse),
    }
}

} // verus!
