//! The proxy's side of a download: where to fetch a package, how redirects
//! are chased, which headers are passed on, the opcodes sent back for the
//! session, and how failed tunnel connections are reported.

use vstd::prelude::*;

use hyper::http::Uri;

use crate::down_stream::{
    is_session_prefix, is_session_trace, Buffer, Error, Headers, Message, Opcode,
};
use crate::text::join3;
use crate::up_stream;

verus! {

#[verifier::external_type_specification]
#[verifier::external_body]
pub struct ExUri(Uri);

/// Whether `s` is a URI that `http::Uri` accepts.
pub uninterp spec fn uri_accepts(s: Seq<char>) -> bool;

/// Relies on `http::Uri`'s `TryFrom<&str>`, which parses `s` and fails on
/// text that is no valid URI; the outcome depends on `s` alone.
#[verifier::external_body]
fn parse_uri(s: &str) -> (r: Option<Uri>)
    ensures
        r is Some <==> uri_accepts(s@),
{
    Uri::try_from(s).ok()
}

/// Default base URL of the upstream registry's download API.
pub const DEFAULT_BASE_URL: &'static str = "https://crates.io/api/v1/crates";

/// Most redirects chased for one download.
pub const MAX_REDIRECTS: u32 = 10;

/// Pause before reconnecting the tunnel, in milliseconds.
pub const RETRY_DELAY_MS: u64 = 1000;

/// Capacity of the queue of messages waiting for the tunnel.
pub const TX_QUEUE_LENGTH: usize = 256;

/// `<base>/<package>/<version>/download`.
pub open spec fn download_url(base: Seq<char>, package: Seq<char>, version: Seq<char>) -> Seq<
    char,
> {
    base + seq!['/'] + package + seq!['/'] + version + "/download"@
}

/// The URL to fetch `package` at `version` from, under `base`.
pub fn download_uri(base: &str, package: &str, version: &str) -> (r: String)
    ensures
        r@ == download_url(base@, package@, version@),
{
    let a = join3(base, "/", package);
    let b = join3(a.as_str(), "/", version);
    let r = join3(b.as_str(), "/download", "");
    proof {
        reveal_strlit("/");
        reveal_strlit("/download");
        reveal_strlit("");
        assert(r@ =~= download_url(base@, package@, version@));
    }
    r
}

/// The URI to fetch what `request` asks for, under `base`; `None` when the
/// URL built is no valid URI.
pub fn request_uri(base: &str, request: &up_stream::Request) -> (r: Option<Uri>)
    ensures
        r is Some <==> uri_accepts(download_url(base@, request.package@, request.version@)),
{
    let url = download_uri(base, request.package.as_str(), request.version.as_str());
    parse_uri(url.as_str())
}

/// A response header that a download needs.
#[derive(PartialEq, Eq, Structural, Debug, Clone, Copy)]
pub enum HeaderKind {
    ContentType,
    ContentLength,
}

/// Why a download failed.
#[derive(PartialEq, Eq, Structural, Debug, Clone, Copy)]
pub enum DownloadError {
    /// The registry answered with this status, neither success nor redirect.
    NotAvailable(u16),
    /// A redirect came without a usable `Location`.
    BadRedirect,
    /// More than `MAX_REDIRECTS` redirects in a row.
    TooManyRedirects,
    /// The header is missing or unreadable.
    BadOrMissingHeader(HeaderKind),
    /// The download URL built from the request is no valid URI.
    BadUri,
}

/// A 2xx status.
pub open spec fn is_success(status: u16) -> bool {
    200 <= status <= 299
}

/// A 3xx status.
pub open spec fn is_redirection(status: u16) -> bool {
    300 <= status <= 399
}

/// What to do after a response.
#[derive(Debug)]
pub enum Hop {
    /// The response carries the package: stream its body.
    Fetched,
    /// Fetch from this URI instead.
    Follow(Uri),
    /// Give up.
    Fail(DownloadError),
}

/// Counts the redirects chased for one download.
pub struct RedirectChaser {
    redirects: u32,
}

impl RedirectChaser {
    /// Redirects chased so far.
    pub closed spec fn redirects_spec(&self) -> u32 {
        self.redirects
    }

    /// A chaser that has followed no redirect.
    pub fn new() -> (r: Self)
        ensures
            r.redirects_spec() == 0,
    {
        RedirectChaser { redirects: 0 }
    }

    /// The next step after a response with `status`, whose `Location`
    /// header, if it holds a valid URI, is `location`.
    pub fn next_hop(&mut self, status: u16, location: Option<Uri>) -> (r: Hop)
        ensures
            is_success(status) ==> r is Fetched,
            !is_success(status) && !is_redirection(status) ==> r == Hop::Fail(
                DownloadError::NotAvailable(status),
            ),
            is_redirection(status) && old(self).redirects_spec() >= MAX_REDIRECTS ==> r
                == Hop::Fail(DownloadError::TooManyRedirects),
            is_redirection(status) && old(self).redirects_spec() < MAX_REDIRECTS
                && location is None ==> r == Hop::Fail(DownloadError::BadRedirect),
            is_redirection(status) && old(self).redirects_spec() < MAX_REDIRECTS
                && location is Some ==> r == Hop::Follow(location->0),
            r is Follow ==> final(self).redirects_spec() == old(self).redirects_spec() + 1,
            !(r is Follow) ==> final(self).redirects_spec() == old(self).redirects_spec(),
    {
        if 200 <= status && status <= 299 {
            Hop::Fetched
        } else if !(300 <= status && status <= 399) {
            Hop::Fail(DownloadError::NotAvailable(status))
        } else if self.redirects >= MAX_REDIRECTS {
            Hop::Fail(DownloadError::TooManyRedirects)
        } else {
            match location {
                None => Hop::Fail(DownloadError::BadRedirect),
                Some(uri) => {
                    self.redirects = self.redirects + 1;
                    Hop::Follow(uri)
                },
            }
        }
    }

    /// The next step after a response with `status` and `Location` header
    /// text `location`, if it has one.
    pub fn on_response(&mut self, status: u16, location: Option<&str>) -> (r: Hop)
        ensures
            is_success(status) ==> r is Fetched,
            !is_success(status) && !is_redirection(status) ==> r == Hop::Fail(
                DownloadError::NotAvailable(status),
            ),
            is_redirection(status) && old(self).redirects_spec() >= MAX_REDIRECTS ==> r
                == Hop::Fail(DownloadError::TooManyRedirects),
            is_redirection(status) && old(self).redirects_spec() < MAX_REDIRECTS ==> match location {
                Some(l) => if uri_accepts(l@) {
                    r is Follow
                } else {
                    r == Hop::Fail(DownloadError::BadRedirect)
                },
                None => r == Hop::Fail(DownloadError::BadRedirect),
            },
            r is Follow ==> final(self).redirects_spec() == old(self).redirects_spec() + 1,
            !(r is Follow) ==> final(self).redirects_spec() == old(self).redirects_spec(),
    {
        let uri = if 300 <= status && status <= 399 {
            match location {
                Some(l) => parse_uri(l),
                None => None,
            }
        } else {
            None
        };
        self.next_hop(status, uri)
    }
}

/// Whether `c` is a decimal digit.
pub open spec fn is_digit(c: char) -> bool {
    '0' <= c <= '9'
}

/// The number that the decimal digits `s` stand for.
pub open spec fn digits_value(s: Seq<char>) -> int
    decreases s.len(),
{
    if s.len() == 0 {
        0
    } else {
        digits_value(s.drop_last()) * 10 + (s.last() as int - '0' as int)
    }
}

/// `s` without the `+` it may start with.
pub open spec fn unsigned_digits(s: Seq<char>) -> Seq<char> {
    if s.len() > 0 && s[0] == '+' {
        s.drop_first()
    } else {
        s
    }
}

/// Every character of `d` is a decimal digit.
pub open spec fn all_digits(d: Seq<char>) -> bool {
    forall|i: int| 0 <= i < d.len() ==> #[trigger] is_digit(d[i])
}

/// The unsigned number that `s` spells: an optional `+`, then one or more
/// decimal digits, with a value that fits in 64 bits.
pub open spec fn u64_of(s: Seq<char>) -> Option<u64> {
    let d = unsigned_digits(s);
    if d.len() > 0 && all_digits(d) && digits_value(d) <= u64::MAX {
        Some(digits_value(d) as u64)
    } else {
        None
    }
}

proof fn lemma_digits_value_grows(d: Seq<char>, k: int)
    requires
        0 <= k <= d.len(),
        forall|i: int| 0 <= i < d.len() ==> #[trigger] is_digit(d[i]),
    ensures
        digits_value(d.take(k)) <= digits_value(d),
    decreases d.len() - k,
{
    if k < d.len() {
        lemma_digits_value_grows(d, k + 1);
        let t = d.take(k);
        assert(d.take(k + 1).drop_last() =~= t);
        assert(d.take(k + 1).last() == d[k]);
        assert(is_digit(d[k]));
        assert forall|i: int| 0 <= i < t.len() implies #[trigger] is_digit(t[i]) by {
            assert(t[i] == d[i]);
        }
        lemma_digits_nonneg(t);
    } else {
        assert(d.take(k) =~= d);
    }
}

proof fn lemma_digits_nonneg(d: Seq<char>)
    requires
        forall|i: int| 0 <= i < d.len() ==> #[trigger] is_digit(d[i]),
    ensures
        0 <= digits_value(d),
    decreases d.len(),
{
    if d.len() > 0 {
        let t = d.drop_last();
        assert forall|i: int| 0 <= i < t.len() implies #[trigger] is_digit(t[i]) by {
            assert(t[i] == d[i]);
        }
        lemma_digits_nonneg(t);
        assert(is_digit(d[d.len() - 1]));
    }
}

/// Reads a header value as an unsigned decimal number, as `u64::from_str`
/// does.
pub fn parse_u64(s: &str) -> (r: Option<u64>)
    ensures
        r == u64_of(s@),
{
    let n = s.unicode_len();
    let start: usize = if n > 0 && s.get_char(0) == '+' {
        1
    } else {
        0
    };
    let ghost d = unsigned_digits(s@);
    assert(d =~= s@.skip(start as int));
    if start == n {
        return None;
    }
    let mut value: u64 = 0;
    let mut i: usize = start;
    while i < n
        invariant
            n == s@.len(),
            start <= i <= n,
            d == s@.skip(start as int),
            d == unsigned_digits(s@),
            forall|j: int| 0 <= j < i - start ==> #[trigger] is_digit(d[j]),
            value == digits_value(d.take(i - start)),
        decreases n - i,
    {
        let c = s.get_char(i);
        if !('0' <= c && c <= '9') {
            proof {
                assert(d[i - start] == c);
                assert(!is_digit(d[i - start]));
                assert(!all_digits(d));
            }
            return None;
        }
        let digit = (c as u32 - '0' as u32) as u64;
        proof {
            assert(d.take(i - start + 1).drop_last() =~= d.take(i - start));
            assert(d[i - start] == c);
            assert(d.take(i - start + 1).last() == c);
            assert(digits_value(d.take(i - start + 1)) == value * 10 + digit);
        }
        if value > (u64::MAX - digit) / 10 {
            proof {
                assert forall|j: int| 0 <= j < i - start + 1 implies #[trigger] is_digit(
                    d.take(i - start + 1)[j],
                ) by {
                    assert(d.take(i - start + 1)[j] == d[j]);
                }
                assert(digits_value(d.take(i - start + 1)) == value * 10 + digit);
                assert(value * 10 + digit > u64::MAX) by (nonlinear_arith)
                    requires
                        value > (u64::MAX - digit) / 10,
                        digit <= 9,
                ;
                if all_digits(d) {
                    lemma_digits_value_grows(d, i - start + 1);
                }
            }
            return None;
        }
        assert(value * 10 + digit <= u64::MAX) by (nonlinear_arith)
            requires
                value <= (u64::MAX - digit) / 10,
                digit <= 9,
        ;
        value = value * 10 + digit;
        i = i + 1;
    }
    assert(d.take(n - start) =~= d);
    Some(value)
}

/// The headers to pass on, from the text of the registry's `Content-Type`
/// and `Content-Length` headers, when present and readable.
pub fn headers_from(content_type: Option<&str>, content_length: Option<&str>) -> (r: Result<
    Headers,
    DownloadError,
>)
    ensures
        content_type is None ==> r == Err::<Headers, DownloadError>(
            DownloadError::BadOrMissingHeader(HeaderKind::ContentType),
        ),
        content_type matches Some(t) ==> match content_length {
            None => r == Err::<Headers, DownloadError>(
                DownloadError::BadOrMissingHeader(HeaderKind::ContentLength),
            ),
            Some(l) => match u64_of(l@) {
                None => r == Err::<Headers, DownloadError>(
                    DownloadError::BadOrMissingHeader(HeaderKind::ContentLength),
                ),
                Some(n) => r matches Ok(h) && h.content_type@ == t@ && h.content_length == n,
            },
        },
{
    let content_type = match content_type {
        None => return Err(DownloadError::BadOrMissingHeader(HeaderKind::ContentType)),
        Some(t) => t.to_owned(),
    };
    let content_length = match content_length {
        None => return Err(DownloadError::BadOrMissingHeader(HeaderKind::ContentLength)),
        Some(l) => match parse_u64(l) {
            None => return Err(DownloadError::BadOrMissingHeader(HeaderKind::ContentLength)),
            Some(n) => n,
        },
    };
    Ok(Headers { content_type, content_length })
}

/// Where a download stands in `Init Chunk* Complete`.
#[derive(PartialEq, Eq, Structural, Debug, Clone, Copy)]
pub enum StreamPhase {
    /// Nothing sent yet.
    Start,
    /// `Init` sent; chunks may follow.
    Body,
    /// `Complete` sent.
    Done,
}

/// `t` is a download that failed before it could send `Init`.
pub open spec fn is_failed_early(t: Seq<Opcode>) -> bool {
    t == seq![Opcode::Complete(Err(Error::Unspecified))]
}

/// Builds the messages of one download for its session, in an order the
/// mirror accepts.
pub struct DownloadStream {
    session_id: u32,
    phase: StreamPhase,
    sent: Ghost<Seq<Opcode>>,
}

impl DownloadStream {
    /// The session the download belongs to.
    pub closed spec fn session_id_spec(&self) -> u32 {
        self.session_id
    }

    /// Where the download stands.
    pub closed spec fn phase_spec(&self) -> StreamPhase {
        self.phase
    }

    /// The opcodes sent so far, in order.
    pub closed spec fn sent(&self) -> Seq<Opcode> {
        self.sent@
    }

    #[verifier::type_invariant]
    spec fn inv(&self) -> bool {
        &&& self.phase == StreamPhase::Start ==> self.sent@.len() == 0
        &&& self.phase == StreamPhase::Body ==> self.sent@.len() >= 1 && is_session_prefix(
            self.sent@,
        ) && !(self.sent@.last() is Complete)
        &&& self.phase == StreamPhase::Done ==> is_session_trace(self.sent@) || is_failed_early(
            self.sent@,
        )
    }

    /// A download for session `session_id` that has sent nothing.
    pub fn new(session_id: u32) -> (r: Self)
        ensures
            r.session_id_spec() == session_id,
            r.phase_spec() == StreamPhase::Start,
            r.sent() == Seq::<Opcode>::empty(),
    {
        DownloadStream { session_id, phase: StreamPhase::Start, sent: Ghost(Seq::empty()) }
    }

    /// The session the download belongs to.
    pub fn session_id(&self) -> (r: u32)
        ensures
            r == self.session_id_spec(),
    {
        self.session_id
    }

    /// Where the download stands.
    pub fn phase(&self) -> (r: StreamPhase)
        ensures
            r == self.phase_spec(),
    {
        self.phase
    }

    /// The `Init` message carrying `headers`; `None` once anything was sent.
    pub fn init(&mut self, headers: Headers) -> (r: Option<Message>)
        ensures
            final(self).session_id_spec() == old(self).session_id_spec(),
            old(self).phase_spec() == StreamPhase::Start ==> (r matches Some(m) && m.session_id
                == old(self).session_id_spec() && m.opcode == Opcode::Init(headers)
                && final(self).sent() == old(self).sent().push(m.opcode)
                && final(self).phase_spec() == StreamPhase::Body),
            old(self).phase_spec() != StreamPhase::Start ==> r is None && final(self).sent() == old(
                self,
            ).sent() && final(self).phase_spec() == old(self).phase_spec(),
            r is Some ==> is_session_prefix(final(self).sent()),
    {
        proof {
            use_type_invariant(&*self);
        }
        if self.phase != StreamPhase::Start {
            return None;
        }
        let opcode = Opcode::Init(headers);
        let ghost sent = self.sent@.push(opcode);
        *self = DownloadStream { session_id: self.session_id, phase: StreamPhase::Body, sent: Ghost(sent) };
        Some(Message { session_id: self.session_id, opcode })
    }

    /// The `Chunk` message carrying `bytes`; `None` unless `Init` was sent
    /// and `Complete` was not.
    pub fn chunk(&mut self, bytes: Vec<u8>) -> (r: Option<Message>)
        ensures
            final(self).session_id_spec() == old(self).session_id_spec(),
            final(self).phase_spec() == old(self).phase_spec(),
            old(self).phase_spec() == StreamPhase::Body ==> (r matches Some(m) && m.session_id
                == old(self).session_id_spec() && m.opcode == Opcode::Chunk(Buffer(bytes))
                && final(self).sent() == old(self).sent().push(m.opcode)),
            old(self).phase_spec() != StreamPhase::Body ==> r is None && final(self).sent() == old(
                self,
            ).sent(),
            r is Some ==> is_session_prefix(final(self).sent()),
    {
        proof {
            use_type_invariant(&*self);
        }
        if self.phase != StreamPhase::Body {
            return None;
        }
        let opcode = Opcode::Chunk(Buffer(bytes));
        let ghost sent = self.sent@.push(opcode);
        *self = DownloadStream { session_id: self.session_id, phase: self.phase, sent: Ghost(sent) };
        Some(Message { session_id: self.session_id, opcode })
    }

    /// The `Complete(Ok)` message that ends a download whose body was read
    /// to its end; `None` unless `Init` was sent and `Complete` was not.
    pub fn succeed(&mut self) -> (r: Option<Message>)
        ensures
            final(self).session_id_spec() == old(self).session_id_spec(),
            old(self).phase_spec() == StreamPhase::Body ==> (r matches Some(m) && m.session_id
                == old(self).session_id_spec() && m.opcode == Opcode::Complete(Ok(()))
                && final(self).sent() == old(self).sent().push(m.opcode)
                && final(self).phase_spec() == StreamPhase::Done),
            old(self).phase_spec() != StreamPhase::Body ==> r is None && final(self).sent() == old(
                self,
            ).sent() && final(self).phase_spec() == old(self).phase_spec(),
            r is Some ==> is_session_trace(final(self).sent()),
    {
        proof {
            use_type_invariant(&*self);
        }
        if self.phase != StreamPhase::Body {
            return None;
        }
        let opcode = Opcode::Complete(Ok(()));
        let ghost sent = self.sent@.push(opcode);
        *self = DownloadStream { session_id: self.session_id, phase: StreamPhase::Done, sent: Ghost(sent) };
        Some(Message { session_id: self.session_id, opcode })
    }

    /// The `Complete(Err)` message that ends a failed download; `None` once
    /// `Complete` was sent.
    pub fn fail(&mut self) -> (r: Option<Message>)
        ensures
            final(self).session_id_spec() == old(self).session_id_spec(),
            old(self).phase_spec() != StreamPhase::Done ==> (r matches Some(m) && m.session_id
                == old(self).session_id_spec() && m.opcode == Opcode::Complete(
                Err(Error::Unspecified),
            ) && final(self).sent() == old(self).sent().push(m.opcode)
                && final(self).phase_spec() == StreamPhase::Done),
            old(self).phase_spec() == StreamPhase::Done ==> r is None && final(self).sent() == old(
                self,
            ).sent() && final(self).phase_spec() == StreamPhase::Done,
            r is Some ==> is_session_trace(final(self).sent()) || is_failed_early(final(self).sent()),
            r is Some && old(self).sent().len() > 0 ==> is_session_trace(final(self).sent()),
    {
        proof {
            use_type_invariant(&*self);
        }
        if self.phase == StreamPhase::Done {
            return None;
        }
        let opcode = Opcode::Complete(Err(Error::Unspecified));
        let ghost sent = self.sent@.push(opcode);
        proof {
            if self.phase == StreamPhase::Start {
                assert(sent =~= seq![opcode]);
            } else {
                assert forall|i: int| 0 < i < sent.len() - 1 implies #[trigger] sent[i] is Chunk by {
                    assert(sent[i] == self.sent@[i]);
                }
            }
        }
        *self = DownloadStream { session_id: self.session_id, phase: StreamPhase::Done, sent: Ghost(sent) };
        Some(Message { session_id: self.session_id, opcode })
    }
}

/// How loudly a failed tunnel connection is reported.
#[derive(PartialEq, Eq, Structural, Debug, Clone, Copy)]
pub enum LogLevel {
    Error,
    Debug,
}

/// Reports the first failure after a working connection, or after start,
/// as an error, and the repeats that follow quietly.
pub struct ReconnectPolicy {
    show_error: bool,
}

impl ReconnectPolicy {
    /// Whether the next failure is reported as an error whatever its kind.
    pub closed spec fn show_error_spec(&self) -> bool {
        self.show_error
    }

    /// A policy that reports the first failure as an error.
    pub fn new() -> (r: Self)
        ensures
            r.show_error_spec(),
    {
        ReconnectPolicy { show_error: true }
    }

    /// A connection attempt failed; `did_connect` says whether it had been
    /// established first.
    pub fn on_failure(&mut self, did_connect: bool) -> (r: LogLevel)
        ensures
            old(self).show_error_spec() || did_connect ==> r == LogLevel::Error
                && !final(self).show_error_spec(),
            !old(self).show_error_spec() && !did_connect ==> r == LogLevel::Debug
                && !final(self).show_error_spec(),
    {
        if self.show_error || did_connect {
            self.show_error = false;
            LogLevel::Error
        } else {
            LogLevel::Debug
        }
    }

    /// A connection was established.
    pub fn on_connected(&mut self)
        ensures
            final(self).show_error_spec(),
    {
        self.show_error = true;
    }
}

} // verus!
