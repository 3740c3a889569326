//! Upstream replies, for callers that parse a response instead of relaying it.

use vstd::prelude::*;

use crate::headers::{raw_list, HeaderError, Headers};

verus! {

/// A parsed status line and header block.
pub struct Reply {
    pub version: u8,
    pub code: u16,
    pub reason: String,
    pub headers: Headers,
}

impl Reply {
    /// Builds a reply from the parts of a parsed response head; its header
    /// block is held to the same rules as a request's.
    pub fn from_raw(version: u8, code: u16, reason: &str, raw: &[httparse::Header]) -> (r: Result<
        Reply,
        HeaderError,
    >)
        ensures
            match Headers::from_raw_spec(raw_list(raw@)) {
                Ok(h) => r matches Ok(reply) && reply.version == version && reply.code == code
                    && reply.reason@ == reason@ && reply.headers@ == h,
                Err(e) => r == Err::<Reply, HeaderError>(e),
            },
    {
        match Headers::from_raw(raw) {
            Ok(headers) => Ok(Reply { version, code, reason: reason.to_owned(), headers }),
            Err(e) => Err(e),
        }
    }
}

} // verus!
