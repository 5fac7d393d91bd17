//! Client side of the SSH-2 transport-layer handshake: a byte buffer and
//! non-blocking buffered reader/writer, the SSH binary codec, the unencrypted
//! binary packet framer, and the handshake state machine that negotiates
//! algorithms, runs the key exchange, and verifies the server's host key.

pub mod buf;
pub mod bufreader;
pub mod bufwriter;
pub mod codec;
pub mod crypto;
pub mod handshake;
pub mod key;
pub mod transport;
pub mod types;

use vstd::prelude::*;

verus! {

/// SSH message number of the KEXINIT packet.
pub const SSH_MSG_KEXINIT: u8 = 20;

/// SSH message number of the NEWKEYS packet.
pub const SSH_MSG_NEWKEYS: u8 = 21;

/// SSH message number of the KEXDH_INIT packet.
pub const SSH_MSG_KEXDH_INIT: u8 = 30;

/// SSH message number of the KEXDH_REPLY packet.
pub const SSH_MSG_KEXDH_REPLY: u8 = 31;

/// The outcome of a non-blocking step: done, or suspended until the
/// underlying endpoint is ready again.
#[derive(Debug, PartialEq, Eq, Clone, Copy)]
pub enum Async<T> {
    Ready(T),
    NotReady,
}

/// The I/O failures the buffered endpoints surface.
#[derive(Debug, PartialEq, Eq, Clone, Copy)]
pub enum IoErrorKind {
    /// The source ended while more bytes were owed.
    UnexpectedEof,
    /// A line ran past its limit without its delimiter.
    InvalidData,
    /// Any other failure of the underlying endpoint.
    Other,
}

} // verus!
