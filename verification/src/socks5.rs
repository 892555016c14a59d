//! The SOCKS5 probe: the greeting it sends, and how it reads the answer.

use crate::signal::{classify, handle_io_error, IoFailure, JobErr, NetState, SignalControl};
use vstd::prelude::*;

verus! {

/// The protocol version that greeting and answer carry.
pub const SOCKS_VERSION: u8 = 5;

/// The way of authenticating that a proxy chose.
#[derive(Clone, Copy, Debug, PartialEq, Eq, Structural)]
pub enum AuthMethod {
    NoAuth,
    GSSAPI,
    Creds,
    NoAcceptableMethods,
    Other(u8),
}

/// What a probe found at an address.
#[derive(Debug, PartialEq, Eq)]
pub enum ScanResult<A> {
    /// A SOCKS5 proxy, and the way of authenticating that it chose.
    SockProxy((AuthMethod, A)),
    /// Something that does not answer as a SOCKS5 proxy.
    Other(A),
}

impl<A: Clone> Clone for ScanResult<A> {
    fn clone(&self) -> (copy: Self) {
        match self {
            ScanResult::SockProxy(found) => ScanResult::SockProxy((found.0, found.1.clone())),
            ScanResult::Other(addr) => ScanResult::Other(addr.clone()),
        }
    }
}

/// Why a probe did not come to an answer.
#[derive(Clone, Copy, Debug, PartialEq, Eq, Structural)]
pub enum ScanFailure {
    /// Connecting, sending or receiving failed.
    IO(IoFailure),
    /// Anything else.
    Other,
}

/// The probe for SOCKS5 proxies.
#[derive(Debug)]
pub struct Socks5Scanner;

/// The way of authenticating that a method byte stands for.
pub open spec fn method_of(code: u8) -> AuthMethod {
    if code == 0x00 {
        AuthMethod::NoAuth
    } else if code == 0x01 {
        AuthMethod::GSSAPI
    } else if code == 0x02 {
        AuthMethod::Creds
    } else if code == 0xff {
        AuthMethod::NoAcceptableMethods
    } else {
        AuthMethod::Other(code)
    }
}

/// What the two bytes of an answer say about the peer at `addr`: a proxy
/// where the first is the protocol version, with the method that the second
/// stands for.
pub open spec fn reply_of<A>(reply: Seq<u8>, addr: A) -> ScanResult<A> {
    if reply[0] != SOCKS_VERSION {
        ScanResult::Other(addr)
    } else {
        ScanResult::SockProxy((method_of(reply[1]), addr))
    }
}

/// The signal that the end of a probe of `addr` amounts to. An answer means
/// an open port. An I/O failure is classified, and counts as "no proxy
/// here" where it counts as a closed port. Any other failure is an error.
pub open spec fn conclusion<A>(outcome: Result<ScanResult<A>, ScanFailure>, addr: A)
    -> SignalControl<ScanResult<A>> {
    match outcome {
        Ok(found) => SignalControl::Success(NetState::Open, found),
        Err(ScanFailure::IO(failure)) => classify(failure, ScanResult::Other(addr)),
        Err(ScanFailure::Other) => SignalControl::Error(JobErr::Other),
    }
}

impl Socks5Scanner {
    /// The greeting: the version, one method on offer, and that method:
    /// no authentication.
    pub fn greeting() -> (bytes: [u8; 3])
        ensures
            bytes@ == seq![SOCKS_VERSION, 1u8, 0u8],
    {
        let bytes: [u8; 3] = [SOCKS_VERSION, 1, 0];
        assert(bytes@ =~= seq![SOCKS_VERSION, 1u8, 0u8]);
        bytes
    }

    /// Reads the two bytes that the peer at `addr` answered the greeting with.
    pub fn read_reply<A>(reply: [u8; 2], addr: A) -> (found: ScanResult<A>)
        ensures
            found == reply_of(reply@, addr),
    {
        if reply[0] != SOCKS_VERSION {
            return ScanResult::Other(addr);
        }
        let auth_method = match reply[1] {
            0x00 => AuthMethod::NoAuth,
            0x01 => AuthMethod::GSSAPI,
            0x02 => AuthMethod::Creds,
            0xff => AuthMethod::NoAcceptableMethods,
            x => AuthMethod::Other(x),
        };
        ScanResult::SockProxy((auth_method, addr))
    }

    /// Turns the end of a probe of `addr` into the signal for the engine.
    pub fn conclude<A>(outcome: Result<ScanResult<A>, ScanFailure>, addr: A) -> (signal:
        SignalControl<ScanResult<A>>)
        ensures
            signal == conclusion(outcome, addr),
    {
        match outcome {
            Ok(found) => SignalControl::Success(NetState::Open, found),
            Err(ScanFailure::IO(failure)) => handle_io_error(failure, ScanResult::Other(addr)),
            Err(ScanFailure::Other) => SignalControl::Error(JobErr::Other),
        }
    }
}

} // verus!
