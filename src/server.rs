//! The per-connection read and dispatch decisions.
//!
//! A connection accumulates the bytes read from its client. After each read
//! the buffer is parsed from its start; once a request head is complete, the
//! declared body length decides whether the request can be forwarded now,
//! after reading the rest of its body, or not at all.

use vstd::prelude::*;
use vstd::slice::slice_subrange;

use crate::bytes::push_all;
use crate::headers::{content_length_of, HeaderError};
use crate::request::{parse, parsed, Request, RequestError};

verus! {

/// How many bytes one read from a client asks for.
pub const READ_CHUNK: usize = 65536;

/// How many headers a request head may hold.
pub const HEADER_SLOTS: usize = 16;

/// Where the proxy listens.
pub struct Server {
    interface: String,
    port: u16,
}

impl Server {
    pub closed spec fn spec_interface(&self) -> Seq<char> {
        self.interface@
    }

    pub closed spec fn spec_port(&self) -> u16 {
        self.port
    }

    pub fn new(interface: &str, port: u16) -> (r: Server)
        ensures
            r.spec_interface() == interface@,
            r.spec_port() == port,
    {
        Server { interface: interface.to_owned(), port }
    }

    pub fn interface(&self) -> (r: &str)
        ensures
            r@ == self.spec_interface(),
    {
        self.interface.as_str()
    }

    pub fn port(&self) -> (r: u16)
        ensures
            r == self.spec_port(),
    {
        self.port
    }
}

/// Appends to `buffer` the `n` bytes that a read put at the start of
/// `read_buf`, and nothing of the rest of it. Returns `n`; zero means that
/// the peer closed the connection, and leaves `buffer` as it was.
pub fn read_into_buffer(buffer: &mut Vec<u8>, read_buf: &[u8], n: usize) -> (r: usize)
    requires
        n <= read_buf@.len(),
    ensures
        r == n,
        final(buffer)@ == old(buffer)@ + read_buf@.subrange(0, n as int),
{
    push_all(buffer, slice_subrange(read_buf, 0, n));
    n
}

/// Why a complete request head is not forwarded.
#[derive(Debug, PartialEq, Eq)]
pub enum Rejection {
    /// The bytes are not a request, or the request cannot be built.
    Request(RequestError),
    /// The `Content-Length` value is not a plain decimal number.
    MalformedLength,
    /// More than one `Content-Length` entry.
    ConflictingLength,
    /// Body bytes came without a `Content-Length` header.
    BodyWithoutLength,
    /// More body bytes came than `Content-Length` declares.
    BodyTooLong,
}

/// What the connection does next.
pub enum Step {
    /// The head is not complete: read more.
    ReadMore,
    /// The peer closed the connection.
    Closed,
    /// The input is refused: close the connection.
    Rejected(Rejection),
    /// Read exactly `remaining` more bytes, append them to `body`, then forward.
    ReadBody { request: Request, body: Vec<u8>, remaining: usize },
    /// Forward `request` with `body`.
    Dispatch { request: Request, body: Vec<u8> },
}

/// `r` is the step for a complete request head whose body starts with
/// `leftover`: the declared length must match what has been and will be read.
pub open spec fn framed(request: Request, leftover: Seq<u8>, r: Step) -> bool {
    match content_length_of(request.headers@) {
        Err(HeaderError::MalformedLength) => r == Step::Rejected(Rejection::MalformedLength),
        Err(HeaderError::Conflicting) => r == Step::Rejected(Rejection::ConflictingLength),
        Ok(None) => if leftover.len() == 0 {
            r matches Step::Dispatch { request: q, body } && q == request && body@ == leftover
        } else {
            r == Step::Rejected(Rejection::BodyWithoutLength)
        },
        Ok(Some(n)) => if n == leftover.len() {
            r matches Step::Dispatch { request: q, body } && q == request && body@ == leftover
        } else if n > leftover.len() {
            r matches Step::ReadBody { request: q, body, remaining } && q == request && body@
                == leftover && remaining == n - leftover.len()
        } else {
            r == Step::Rejected(Rejection::BodyTooLong)
        },
    }
}

/// `r` is the step for a parse outcome.
pub open spec fn step_for(p: Result<Option<(Request, Vec<u8>)>, RequestError>, r: Step) -> bool {
    match p {
        Err(e) => r == Step::Rejected(Rejection::Request(e)),
        Ok(None) => r is ReadMore,
        Ok(Some((request, leftover))) => framed(request, leftover@, r),
    }
}

/// Decides how a complete request head is handled, from its declared body
/// length and the body bytes already read.
pub fn frame(request: Request, leftover: Vec<u8>) -> (r: Step)
    ensures
        framed(request, leftover@, r),
{
    match request.headers.content_length() {
        Err(HeaderError::MalformedLength) => Step::Rejected(Rejection::MalformedLength),
        Err(HeaderError::Conflicting) => Step::Rejected(Rejection::ConflictingLength),
        Ok(None) => {
            if leftover.len() == 0 {
                Step::Dispatch { request, body: leftover }
            } else {
                Step::Rejected(Rejection::BodyWithoutLength)
            }
        },
        Ok(Some(n)) => {
            if n == leftover.len() {
                Step::Dispatch { request, body: leftover }
            } else if n > leftover.len() {
                let remaining: usize = n - leftover.len();
                Step::ReadBody { request, body: leftover, remaining }
            } else {
                Step::Rejected(Rejection::BodyTooLong)
            }
        },
    }
}

/// One client connection: the bytes read from it that no request has used yet.
pub struct Connection {
    buffer: Vec<u8>,
}

impl View for Connection {
    type V = Seq<u8>;

    closed spec fn view(&self) -> Seq<u8> {
        self.buffer@
    }
}

impl Connection {
    pub fn new() -> (r: Connection)
        ensures
            r@ == Seq::<u8>::empty(),
    {
        Connection { buffer: Vec::new() }
    }

    /// The bytes held.
    pub fn buffer(&self) -> (r: &Vec<u8>)
        ensures
            r@ == self@,
    {
        &self.buffer
    }

    /// Takes a parse outcome of the held bytes to the next step. Once a
    /// request is taken, its head and body bytes are dropped from the buffer.
    pub fn after_parse(&mut self, p: Result<Option<(Request, Vec<u8>)>, RequestError>) -> (r: Step)
        ensures
            step_for(p, r),
            (r is ReadBody || r is Dispatch) ==> final(self)@ == Seq::<u8>::empty(),
            !(r is ReadBody || r is Dispatch) ==> final(self)@ == old(self)@,
    {
        match p {
            Err(e) => Step::Rejected(Rejection::Request(e)),
            Ok(None) => Step::ReadMore,
            Ok(Some((request, leftover))) => {
                let r = frame(request, leftover);
                match r {
                    Step::ReadBody { .. } | Step::Dispatch { .. } => {
                        self.buffer.clear();
                    },
                    _ => {},
                }
                r
            },
        }
    }

    /// Handles one read of `n` bytes into `read_buf`: zero means that the
    /// peer closed the connection; otherwise the bytes are appended and the
    /// whole buffer is parsed again.
    pub fn on_read(&mut self, read_buf: &[u8], n: usize) -> (r: Step)
        requires
            n <= read_buf@.len(),
        ensures
            n == 0 ==> r is Closed && final(self)@ == old(self)@,
            n > 0 ==> exists|p: Result<Option<(Request, Vec<u8>)>, RequestError>|
                {
                    &&& #[trigger] parsed(
                        old(self)@ + read_buf@.subrange(0, n as int),
                        HEADER_SLOTS as nat,
                        old(self)@.len() + n,
                        p,
                    )
                    &&& step_for(p, r)
                    &&& (r is ReadBody || r is Dispatch) ==> final(self)@ == Seq::<u8>::empty()
                    &&& !(r is ReadBody || r is Dispatch) ==> final(self)@ == old(self)@
                        + read_buf@.subrange(0, n as int)
                },
    {
        if n == 0 {
            return Step::Closed;
        }
        read_into_buffer(&mut self.buffer, read_buf, n);
        let total_read: usize = self.buffer.len();
        let empty = httparse::Header { name: "", value: &[] };
        let mut slots = vec![empty; HEADER_SLOTS];
        assert(slots@.len() == HEADER_SLOTS);
        let p = parse(&self.buffer, slots.as_mut_slice(), total_read);
        let ghost pg = p;
        let r = self.after_parse(p);
        assert(parsed(
            old(self)@ + read_buf@.subrange(0, n as int),
            HEADER_SLOTS as nat,
            old(self)@.len() + n,
            pg,
        ));
        r
    }
}

} // verus!
