//! Messages from the proxy to the mirror over the tunnel, and the shape that
//! the opcodes of one session take: `Init`, then any number of `Chunk`s,
//! then `Complete`.

use vstd::prelude::*;

verus! {

/// Headers of a package download that the mirror passes on to its client.
#[derive(Debug, Clone)]
pub struct Headers {
    pub content_type: String,
    pub content_length: u64,
}

/// Why a download failed; the detail stays on the proxy.
#[derive(Debug, Clone)]
pub enum Error {
    Unspecified,
    Generic(String),
}

/// A fragment of a package being downloaded.
#[derive(Debug, Clone)]
pub struct Buffer(pub Vec<u8>);

impl View for Buffer {
    type V = Seq<u8>;

    open spec fn view(&self) -> Seq<u8> {
        self.0@
    }
}

impl Buffer {
    /// A buffer holding `bytes`.
    pub fn new(bytes: Vec<u8>) -> (r: Buffer)
        ensures
            r@ == bytes@,
    {
        Buffer(bytes)
    }

    /// The bytes held.
    pub fn into_vec(self) -> (r: Vec<u8>)
        ensures
            r@ == self@,
    {
        self.0
    }

    /// The bytes held, borrowed.
    pub fn as_slice(&self) -> (r: &[u8])
        ensures
            r@ == self@,
    {
        self.0.as_slice()
    }
}

impl From<Vec<u8>> for Buffer {
    fn from(bytes: Vec<u8>) -> (r: Buffer) {
        Buffer(bytes)
    }
}

impl vstd::std_specs::convert::FromSpecImpl<Vec<u8>> for Buffer {
    open spec fn obeys_from_spec() -> bool {
        true
    }

    open spec fn from_spec(v: Vec<u8>) -> Buffer {
        Buffer(v)
    }
}

/// One step of a package download.
#[derive(Debug)]
pub enum Opcode {
    Init(Headers),
    Chunk(Buffer),
    Complete(Result<(), Error>),
}

/// An opcode addressed to one session.
#[derive(Debug)]
pub struct Message {
    pub session_id: u32,
    pub opcode: Opcode,
}

/// The opcode sent to every session that a tunnel reset cuts off.
pub fn reset_notice() -> (r: Opcode)
    ensures
        r == Opcode::Complete(Err(Error::Unspecified)),
{
    Opcode::Complete(Err(Error::Unspecified))
}

/// `t` has the shape `Init Chunk* Complete`.
pub open spec fn is_session_trace(t: Seq<Opcode>) -> bool {
    &&& t.len() >= 2
    &&& t[0] is Init
    &&& t.last() is Complete
    &&& forall|i: int| 0 < i < t.len() - 1 ==> #[trigger] t[i] is Chunk
}

/// `t` can be extended to the shape `Init Chunk* Complete`.
pub open spec fn is_session_prefix(t: Seq<Opcode>) -> bool {
    &&& t.len() > 0 ==> t[0] is Init
    &&& forall|i: int| 0 < i < t.len() ==> #[trigger] t[i] is Chunk || (t[i] is Complete && i
        == t.len() - 1)
}

/// The bytes of the chunks in `t`, in order.
pub open spec fn chunk_bytes(t: Seq<Opcode>) -> Seq<u8>
    decreases t.len(),
{
    if t.len() == 0 {
        Seq::empty()
    } else {
        chunk_bytes(t.drop_last()) + match t.last() {
            Opcode::Chunk(b) => b@,
            _ => Seq::empty(),
        }
    }
}

} // verus!
