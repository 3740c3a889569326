//! The upstream client's decisions: where to connect, when to try again,
//! and what to send either way.

use vstd::prelude::*;
use vstd::utf8::encode_utf8;

use crate::bytes::{push_all, to_vec};
use crate::request::{Request, Url};

verus! {

/// How many times a failed upstream connect is tried again by default.
pub const CONNECT_RETRIES: u32 = 2;

/// The response sent to the client when no upstream connection could be made.
pub open spec fn fallback_text() -> Seq<char> {
    "HTTP/1.1 501 Internal Server Error\r\nContent-Length: 6\r\n\r\nSorry\n"@
}

/// Why a request's URL gives no upstream address.
#[derive(Debug, Clone, Copy, PartialEq, Eq, Structural)]
pub enum ClientError {
    /// The URL has no host.
    MissingHost,
    /// No explicit port, and a scheme other than `http` or `https`.
    UnknownScheme,
}

/// The port to use: the explicit one, else the scheme's default.
pub open spec fn port_for(scheme: Seq<char>, port: Option<u16>) -> Option<u16> {
    match port {
        Some(p) => Some(p),
        None => if scheme == "http"@ {
            Some(80u16)
        } else if scheme == "https"@ {
            Some(443u16)
        } else {
            None
        },
    }
}

/// What to do after a connect attempt.
#[derive(Debug, Clone, Copy, PartialEq, Eq, Structural)]
pub enum ForwardStep {
    /// Connected: write the request and its body, then relay the response.
    Send,
    /// Not connected: try again; `failures` attempts have failed so far.
    Retry { failures: u32 },
    /// Not connected and out of retries: answer with the fallback response.
    Fallback,
}

/// Forwards requests upstream.
pub struct Client {
    retries: u32,
}

impl Client {
    pub closed spec fn spec_retries(&self) -> u32 {
        self.retries
    }

    /// A client that tries a failed connect `CONNECT_RETRIES` more times.
    pub fn new() -> (r: Client)
        ensures
            r.spec_retries() == CONNECT_RETRIES,
    {
        Client { retries: CONNECT_RETRIES }
    }

    /// A client that tries a failed connect `retries` more times.
    pub fn with_retries(retries: u32) -> (r: Client)
        ensures
            r.spec_retries() == retries,
    {
        Client { retries }
    }

    pub fn retries(&self) -> (r: u32)
        ensures
            r == self.spec_retries(),
    {
        self.retries
    }

    /// The host and port to connect to for `url`.
    pub fn target(&self, url: &Url) -> (r: Result<(String, u16), ClientError>)
        ensures
            match url@.host {
                None => r == Err::<(String, u16), ClientError>(ClientError::MissingHost),
                Some(h) => match port_for(url@.scheme, url@.port) {
                    None => r == Err::<(String, u16), ClientError>(ClientError::UnknownScheme),
                    Some(p) => r matches Ok((host, port)) && host@ == h && port == p,
                },
            },
    {
        let host = match url.host_str() {
            Some(h) => h.to_owned(),
            None => {
                return Err(ClientError::MissingHost);
            },
        };
        let port: u16 = match url.port() {
            Some(p) => p,
            None => {
                let scheme = url.scheme().to_owned();
                if scheme == "http".to_owned() {
                    80u16
                } else if scheme == "https".to_owned() {
                    443u16
                } else {
                    return Err(ClientError::UnknownScheme);
                }
            },
        };
        Ok((host, port))
    }

    /// Decides what follows a connect attempt, given how many attempts had
    /// failed before it.
    pub fn after_connect(&self, failures_before: u32, connected: bool) -> (r: ForwardStep)
        ensures
            connected ==> r == ForwardStep::Send,
            !connected && failures_before + 1 <= self.spec_retries() ==> r == (ForwardStep::Retry {
                failures: (failures_before + 1) as u32,
            }),
            !connected && failures_before + 1 > self.spec_retries() ==> r == ForwardStep::Fallback,
    {
        if connected {
            ForwardStep::Send
        } else if failures_before < self.retries {
            ForwardStep::Retry { failures: failures_before + 1 }
        } else {
            ForwardStep::Fallback
        }
    }

    /// The bytes written upstream: the request's wire form, then its body.
    pub fn upstream_bytes(&self, request: &Request, body: &Vec<u8>) -> (r: Vec<u8>)
        ensures
            r@ == request.wire() + body@,
    {
        let mut out = request.serialize();
        push_all(&mut out, body.as_slice());
        out
    }

    /// The response written to the client when no upstream connection could be made.
    pub fn fallback_response(&self) -> (r: Vec<u8>)
        ensures
            r@ == encode_utf8(fallback_text()),
    {
        to_vec("HTTP/1.1 501 Internal Server Error\r\nContent-Length: 6\r\n\r\nSorry\n".as_bytes())
    }
}

} // verus!
