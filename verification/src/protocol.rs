//! Wire-protocol constants, command classification, and the big-endian
//! decoding of burst durations.

use vstd::prelude::*;

verus! {

/// Size in bytes of the payload block that follows each frame marker, and of
/// the block that one sink command absorbs.
pub const PAYLOAD_BLOCK_SIZE: usize = 1024 * 1024;

/// Command byte: absorb one payload-sized block of inbound bytes.
pub const CMD_SINK: u8 = 0;

/// Command byte: request a duration-bounded payload burst.
pub const CMD_REQUEST_PAYLOAD: u8 = 1;

/// Command byte: ask for a one-byte ping reply.
pub const CMD_PING: u8 = 3;

/// Command byte: close the connection cleanly.
pub const CMD_DISCONNECT: u8 = 255;

/// Reply byte sent in answer to each ping command.
pub const PING_REPLY: u8 = 3;

/// Marker byte written before each payload block of a burst.
pub const FRAME_MARKER: u8 = 0;

/// Marker byte written once a burst's requested duration has elapsed.
pub const BURST_COMPLETE: u8 = 2;

/// One command of the wire protocol, as the dispatcher reads it.
#[derive(Clone, Copy, PartialEq, Eq, Structural, Debug)]
pub enum Command {
    Sink,
    RequestPayload,
    Ping,
    Disconnect,
    Unknown { code: u8 },
}

/// What one byte of the inbound stream means as a command.
pub open spec fn command_of(b: u8) -> Command {
    if b == CMD_SINK {
        Command::Sink
    } else if b == CMD_REQUEST_PAYLOAD {
        Command::RequestPayload
    } else if b == CMD_PING {
        Command::Ping
    } else if b == CMD_DISCONNECT {
        Command::Disconnect
    } else {
        Command::Unknown { code: b }
    }
}

impl Command {
    /// Classify one command byte read from the inbound stream.
    pub fn from_byte(b: u8) -> (c: Command)
        ensures
            c == command_of(b),
    {
        if b == CMD_SINK {
            Command::Sink
        } else if b == CMD_REQUEST_PAYLOAD {
            Command::RequestPayload
        } else if b == CMD_PING {
            Command::Ping
        } else if b == CMD_DISCONNECT {
            Command::Disconnect
        } else {
            Command::Unknown { code: b }
        }
    }
}

/// The value of eight bytes read as one big-endian unsigned 64-bit integer.
pub open spec fn be_u64_of(s: Seq<u8>) -> u64
    recommends
        s.len() == 8,
{
    ((s[0] as u64) << 56) | ((s[1] as u64) << 48) | ((s[2] as u64) << 40) | ((s[3] as u64) << 32)
        | ((s[4] as u64) << 24) | ((s[5] as u64) << 16) | ((s[6] as u64) << 8) | (s[7] as u64)
}

/// Relies on byteorder's `BigEndian::read_u64`: it reads the first eight
/// bytes of the slice as one big-endian unsigned 64-bit integer, and panics
/// on a shorter slice.
#[verifier::external_body]
fn read_u64_be(b: &[u8]) -> (r: u64)
    requires
        b@.len() == 8,
    ensures
        r == be_u64_of(b@),
{
    <byteorder::BigEndian as byteorder::ByteOrder>::read_u64(b)
}

/// Decode the eight payload bytes that follow a request-payload command into
/// the burst duration in milliseconds.
pub fn duration_from_bytes(b: &[u8]) -> (d: u64)
    requires
        b@.len() == 8,
    ensures
        d == be_u64_of(b@),
{
    read_u64_be(b)
}

} // verus!
