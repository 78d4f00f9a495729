//! The mirror's HTTP front end: which requests it serves, and how the
//! opcodes of a proxied download become a response body.

use vstd::prelude::*;

use crate::down_stream::{chunk_bytes, is_session_trace, Headers, Opcode};
use crate::proxy_connection;
use crate::text::{ends_with, find_char, first_index_of, starts_with, substring};

verus! {

/// Start of the path of a download request.
pub const API_PREFIX: &'static str = "/api/v1/crates/";

/// End of the path of a download request.
pub const DOWNLOAD_SUFFIX: &'static str = "/download";

/// Content type of a package served from the cache: a gzipped tarball.
pub const CACHED_CONTENT_TYPE: &'static str = "application/gzip";

/// Status for a malformed request.
pub const BAD_REQUEST: u16 = 400;

/// Status for a path that names no download, or a download with no way to
/// fetch it.
pub const NOT_FOUND: u16 = 404;

/// Status for a failure inside the mirror.
pub const INTERNAL_ERROR: u16 = 500;

/// Package and version named by the path and query of a request, or the
/// status to refuse it with.
pub open spec fn download_target(target: Option<Seq<char>>) -> Result<(Seq<char>, Seq<char>), u16> {
    match target {
        None => Err(400),
        Some(t) => {
            if first_index_of(t, '?') is Some {
                Err(400)
            } else if !API_PREFIX@.is_prefix_of(t) {
                Err(404)
            } else {
                let rest = t.skip(API_PREFIX@.len() as int);
                if !(DOWNLOAD_SUFFIX@.len() <= rest.len() && rest.subrange(
                    rest.len() - DOWNLOAD_SUFFIX@.len(),
                    rest.len() as int,
                ) == DOWNLOAD_SUFFIX@) {
                    Err(404)
                } else {
                    let middle = rest.subrange(0, rest.len() - DOWNLOAD_SUFFIX@.len());
                    match first_index_of(middle, '/') {
                        None => Err(404),
                        Some(i) => {
                            let version = middle.skip(i + 1);
                            if first_index_of(version, '/') is Some {
                                Err(404)
                            } else {
                                Ok((middle.take(i), version))
                            }
                        },
                    }
                }
            }
        },
    }
}

/// The view of a parse result.
pub open spec fn parsed_view(r: Result<(String, String), u16>) -> Result<
    (Seq<char>, Seq<char>),
    u16,
> {
    match r {
        Ok((p, v)) => Ok((p@, v@)),
        Err(c) => Err(c),
    }
}

/// The view of an optional string.
pub open spec fn opt_view(s: Option<&str>) -> Option<Seq<char>> {
    match s {
        Some(t) => Some(t@),
        None => None,
    }
}

/// Reads package and version from the path and query of a request:
/// `/api/v1/crates/<package>/<version>/download`, with no query.
pub fn parse_download_request(target: Option<&str>) -> (r: Result<(String, String), u16>)
    ensures
        parsed_view(r) == download_target(opt_view(target)),
{
    let t = match target {
        None => return Err(BAD_REQUEST),
        Some(t) => t,
    };
    if find_char(t, '?').is_some() {
        return Err(BAD_REQUEST);
    }
    if !starts_with(t, API_PREFIX) {
        return Err(NOT_FOUND);
    }
    let n = t.unicode_len();
    let rest = substring(t, API_PREFIX.unicode_len(), n);
    assert(rest@ == t@.skip(API_PREFIX@.len() as int));
    if !ends_with(rest.as_str(), DOWNLOAD_SUFFIX) {
        return Err(NOT_FOUND);
    }
    let m = rest.as_str().unicode_len() - DOWNLOAD_SUFFIX.unicode_len();
    let middle = substring(rest.as_str(), 0, m);
    match find_char(middle.as_str(), '/') {
        None => Err(NOT_FOUND),
        Some(i) => {
            let k = middle.as_str().unicode_len();
            let version = substring(middle.as_str(), i + 1, k);
            assert(version@ =~= middle@.skip(i + 1));
            if find_char(version.as_str(), '/').is_some() {
                return Err(NOT_FOUND);
            }
            let package = substring(middle.as_str(), 0, i);
            assert(package@ =~= middle@.take(i as int));
            Ok((package, version))
        },
    }
}

/// Package and version of a request with method GET (`is_get`) or another,
/// and path and query `target`; or the status to refuse it with.
pub fn route_request(is_get: bool, target: Option<&str>) -> (r: Result<(String, String), u16>)
    ensures
        !is_get ==> r == Err::<(String, String), u16>(400),
        is_get ==> parsed_view(r) == download_target(opt_view(target)),
{
    if !is_get {
        return Err(BAD_REQUEST);
    }
    parse_download_request(target)
}

/// The status for a download that could not begin: no tunnel, or the
/// tunnel lost, both read as "not found" to the client.
pub fn begin_error_status(e: proxy_connection::Error) -> (r: u16)
    ensures
        r == 404,
{
    match e {
        proxy_connection::Error::NoUplink | proxy_connection::Error::UpLinkReset
        | proxy_connection::Error::NoSessionId => NOT_FOUND,
    }
}

/// Where a proxied response body stands.
#[derive(PartialEq, Eq, Structural, Debug, Clone, Copy)]
pub enum Phase {
    /// Chunks are flowing.
    Streaming,
    /// The body ended cleanly.
    Finished,
    /// The body broke off; the client sees it truncated.
    Failed,
}

/// The next item of a proxied response body.
#[derive(Debug)]
pub enum BodyItem {
    /// Bytes of the body.
    Data(Vec<u8>),
    /// The body is complete.
    End,
    /// The body breaks off here.
    Failed,
}

/// What a body item stands for.
pub enum BodyEvent {
    Data(Seq<u8>),
    End,
    Failed,
}

impl View for BodyItem {
    type V = BodyEvent;

    open spec fn view(&self) -> BodyEvent {
        match self {
            BodyItem::Data(b) => BodyEvent::Data(b@),
            BodyItem::End => BodyEvent::End,
            BodyItem::Failed => BodyEvent::Failed,
        }
    }
}

/// The next phase and body item, from the current phase and the next opcode
/// (`None`: the session's queue closed).
pub open spec fn body_step(phase: Phase, op: Option<Opcode>) -> (Phase, BodyEvent) {
    match phase {
        Phase::Streaming => match op {
            Some(Opcode::Chunk(b)) => (Phase::Streaming, BodyEvent::Data(b@)),
            Some(Opcode::Complete(Ok(()))) => (Phase::Finished, BodyEvent::End),
            _ => (Phase::Failed, BodyEvent::Failed),
        },
        Phase::Finished => (Phase::Finished, BodyEvent::End),
        Phase::Failed => (Phase::Failed, BodyEvent::Failed),
    }
}

/// The phase reached, and the body bytes handed out, after `ops` follow the
/// `Init` of a proxied download.
pub open spec fn body_after(ops: Seq<Opcode>) -> (Phase, Seq<u8>)
    decreases ops.len(),
{
    if ops.len() == 0 {
        (Phase::Streaming, Seq::empty())
    } else {
        let (phase, bytes) = body_after(ops.drop_last());
        let (next, event) = body_step(phase, Some(ops.last()));
        (
            next,
            match event {
                BodyEvent::Data(b) => bytes + b,
                _ => bytes,
            },
        )
    }
}

/// The body of a proxied download, fed one opcode at a time.
pub struct ResponseStream {
    phase: Phase,
}

impl ResponseStream {
    /// Where the body stands.
    pub closed spec fn phase_spec(&self) -> Phase {
        self.phase
    }

    /// Where the body stands.
    pub fn phase(&self) -> (r: Phase)
        ensures
            r == self.phase_spec(),
    {
        self.phase
    }

    /// Turns the next opcode of the session (`None`: its queue closed) into
    /// the next body item. Chunks pass through; `Complete(Ok)` ends the body;
    /// anything else breaks it off.
    pub fn next_item(&mut self, op: Option<Opcode>) -> (r: BodyItem)
        ensures
            (final(self).phase_spec(), r@) == body_step(old(self).phase_spec(), op),
    {
        match self.phase {
            Phase::Streaming => match op {
                Some(Opcode::Chunk(b)) => BodyItem::Data(b.into_vec()),
                Some(Opcode::Complete(Ok(()))) => {
                    self.phase = Phase::Finished;
                    BodyItem::End
                },
                _ => {
                    self.phase = Phase::Failed;
                    BodyItem::Failed
                },
            },
            Phase::Finished => BodyItem::End,
            Phase::Failed => BodyItem::Failed,
        }
    }
}

/// Starts the response to a proxied download from the session's first
/// opcode: its headers and the body to come, or status 500 when the first
/// opcode is anything but `Init`.
pub fn start_response(first: Option<Opcode>) -> (r: Result<(Headers, ResponseStream), u16>)
    ensures
        first matches Some(Opcode::Init(h)) ==> (r matches Ok((h2, s)) && h2 == h
            && s.phase_spec() == Phase::Streaming),
        !(first matches Some(Opcode::Init(_))) ==> r matches Err(500),
{
    match first {
        Some(Opcode::Init(h)) => Ok((h, ResponseStream { phase: Phase::Streaming })),
        _ => Err(INTERNAL_ERROR),
    }
}

proof fn lemma_body_after_chunks(t: Seq<Opcode>, k: int)
    requires
        is_session_trace(t),
        1 <= k <= t.len() - 1,
    ensures
        body_after(t.subrange(1, k)) == (Phase::Streaming, chunk_bytes(t.subrange(0, k))),
    decreases k,
{
    if k == 1 {
        assert(t.subrange(0, 1).drop_last() =~= Seq::<Opcode>::empty());
        assert(t.subrange(1, 1) =~= Seq::<Opcode>::empty());
        assert(t.subrange(0, 1).last() == t[0]);
        assert(chunk_bytes(t.subrange(0, 1).drop_last()) =~= Seq::<u8>::empty());
        assert(t[0] is Init);
        assert(chunk_bytes(t.subrange(0, 1)) =~= Seq::<u8>::empty());
    } else {
        lemma_body_after_chunks(t, k - 1);
        assert(t.subrange(1, k).drop_last() =~= t.subrange(1, k - 1));
        assert(t.subrange(0, k).drop_last() =~= t.subrange(0, k - 1));
        assert(t[k - 1] is Chunk);
        assert(t.subrange(1, k).last() == t[k - 1]);
        assert(t.subrange(0, k).last() == t[k - 1]);
    }
}

/// A download whose opcodes have the shape `Init Chunk* Complete(Ok)`
/// yields a body that ends cleanly and holds exactly the bytes of its
/// chunks, in the order they were sent.
pub proof fn lemma_clean_download_delivers_chunks(t: Seq<Opcode>)
    requires
        is_session_trace(t),
        t.last() == Opcode::Complete(Ok(())),
    ensures
        body_after(t.drop_first()) == (Phase::Finished, chunk_bytes(t)),
{
    let n = t.len() as int;
    lemma_body_after_chunks(t, n - 1);
    assert(t.drop_first() =~= t.subrange(1, n));
    assert(t.subrange(1, n).drop_last() =~= t.subrange(1, n - 1));
    assert(t.drop_last() =~= t.subrange(0, n - 1));
    assert(chunk_bytes(t) == chunk_bytes(t.drop_last()));
}

/// Whatever opcodes arrive after `Init`: while the body is streaming, each
/// of them was a chunk and the bytes handed out are exactly theirs, in
/// order; and the body finishes only on a `Complete(Ok)` that follows such
/// chunks, with those bytes.
pub proof fn lemma_body_is_chunks(ops: Seq<Opcode>)
    ensures
        body_after(ops).0 == Phase::Streaming ==> body_after(ops).1 == chunk_bytes(ops) && forall|
            i: int,
        | 0 <= i < ops.len() ==> #[trigger] ops[i] is Chunk,
        ops.len() > 0 && body_after(ops.drop_last()).0 == Phase::Streaming && body_after(ops).0
            == Phase::Finished ==> ops.last() == Opcode::Complete(Ok(())) && body_after(ops).1
            == chunk_bytes(ops),
    decreases ops.len(),
{
    if ops.len() > 0 {
        let init = ops.drop_last();
        lemma_body_is_chunks(init);
        if body_after(ops).0 == Phase::Streaming {
            assert(body_after(init).0 == Phase::Streaming);
            assert forall|i: int| 0 <= i < ops.len() implies #[trigger] ops[i] is Chunk by {
                if i < ops.len() - 1 {
                    assert(ops[i] == init[i]);
                }
            }
        }
        if body_after(init).0 == Phase::Streaming && body_after(ops).0 == Phase::Finished {
            match ops.last() {
                Opcode::Complete(r) => {
                    assert(r is Ok);
                    let u: () = r->Ok_0;
                    assert(u == ());
                    assert(r == Ok::<(), crate::down_stream::Error>(()));
                },
                _ => {},
            }
            assert(chunk_bytes(ops) =~= chunk_bytes(init));
        }
    }
}

} // verus!
