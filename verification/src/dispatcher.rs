//! The command dispatcher: what the server does with one connection's
//! inbound byte stream.
//!
//! The dispatcher reads one command byte at a time. A sink command absorbs
//! one payload-sized block of inbound bytes; a request-payload command reads
//! an eight-byte big-endian duration and enqueues it for the sender; a ping
//! is answered with one reply byte; a disconnect ends the connection
//! cleanly; any other byte is ignored and the loop goes on. A stream that
//! ends before a command or its payload is complete is an I/O error.
//!
//! `dispatch_of` states that behaviour over a whole inbound byte sequence;
//! `run_dispatcher` is the executable loop, proved to match it exactly.

use crate::protocol::be_u64_of;
use crate::protocol::command_of;
use crate::protocol::duration_from_bytes;
use crate::protocol::Command;
use crate::protocol::CMD_DISCONNECT;
use crate::protocol::CMD_PING;
use crate::protocol::CMD_REQUEST_PAYLOAD;
use crate::protocol::CMD_SINK;
use crate::protocol::PAYLOAD_BLOCK_SIZE;
use crate::protocol::PING_REPLY;
use vstd::prelude::*;
use vstd::slice::slice_subrange;

verus! {

/// How the dispatcher leaves a connection.
#[derive(Clone, Copy, PartialEq, Eq, Structural, Debug)]
pub enum DispatchOutcome {
    /// A disconnect command was read: the dispatcher returns success.
    CleanClose,
    /// The inbound stream ended before a command or its payload was
    /// complete: the connection is torn down.
    IoError,
}

/// Everything the dispatcher does with one inbound byte stream: the burst
/// durations it enqueues in order, the ping replies it writes in order, the
/// number of inbound bytes it reads, and how it leaves the connection.
#[verifier::ext_equal]
pub struct DispatchTrace {
    pub durations: Seq<u64>,
    pub replies: Seq<u8>,
    pub consumed: int,
    pub outcome: DispatchOutcome,
}

/// The dispatch loop's behaviour on a whole inbound byte sequence, command
/// by command from the front.
pub open spec fn dispatch_of(input: Seq<u8>) -> DispatchTrace
    decreases input.len(),
{
    if input.len() == 0 {
        DispatchTrace {
            durations: Seq::empty(),
            replies: Seq::empty(),
            consumed: 0,
            outcome: DispatchOutcome::IoError,
        }
    } else {
        match command_of(input[0]) {
            Command::Sink => {
                if input.len() >= 1 + PAYLOAD_BLOCK_SIZE {
                    let rest = dispatch_of(input.skip(1 + PAYLOAD_BLOCK_SIZE as int));
                    DispatchTrace {
                        durations: rest.durations,
                        replies: rest.replies,
                        consumed: 1 + PAYLOAD_BLOCK_SIZE + rest.consumed,
                        outcome: rest.outcome,
                    }
                } else {
                    DispatchTrace {
                        durations: Seq::empty(),
                        replies: Seq::empty(),
                        consumed: input.len() as int,
                        outcome: DispatchOutcome::IoError,
                    }
                }
            },
            Command::RequestPayload => {
                if input.len() >= 9 {
                    let rest = dispatch_of(input.skip(9));
                    DispatchTrace {
                        durations: seq![be_u64_of(input.subrange(1, 9))] + rest.durations,
                        replies: rest.replies,
                        consumed: 9 + rest.consumed,
                        outcome: rest.outcome,
                    }
                } else {
                    DispatchTrace {
                        durations: Seq::empty(),
                        replies: Seq::empty(),
                        consumed: input.len() as int,
                        outcome: DispatchOutcome::IoError,
                    }
                }
            },
            Command::Ping => {
                let rest = dispatch_of(input.skip(1));
                DispatchTrace {
                    durations: rest.durations,
                    replies: seq![PING_REPLY] + rest.replies,
                    consumed: 1 + rest.consumed,
                    outcome: rest.outcome,
                }
            },
            Command::Disconnect => DispatchTrace {
                durations: Seq::empty(),
                replies: Seq::empty(),
                consumed: 1,
                outcome: DispatchOutcome::CleanClose,
            },
            Command::Unknown { .. } => {
                let rest = dispatch_of(input.skip(1));
                DispatchTrace {
                    durations: rest.durations,
                    replies: rest.replies,
                    consumed: 1 + rest.consumed,
                    outcome: rest.outcome,
                }
            },
        }
    }
}

/// A sink command absorbs exactly one payload-sized block, whatever its
/// bytes hold, and the dispatch loop then goes on with the rest of the
/// stream unchanged: no duration, no reply, no close comes of it.
pub proof fn lemma_sink_consumes_block(block: Seq<u8>, rest: Seq<u8>)
    requires
        block.len() == PAYLOAD_BLOCK_SIZE,
    ensures
        ({
            let t = dispatch_of(seq![CMD_SINK] + block + rest);
            let r = dispatch_of(rest);
            t.durations == r.durations && t.replies == r.replies && t.consumed == 1
                + PAYLOAD_BLOCK_SIZE + r.consumed && t.outcome == r.outcome
        }),
{
    let input = seq![CMD_SINK] + block + rest;
    assert(input[0] == CMD_SINK);
    assert(input.len() == 1 + PAYLOAD_BLOCK_SIZE + rest.len());
    assert(input.skip(1 + PAYLOAD_BLOCK_SIZE as int) =~= rest);
}

/// A stream that ends before a sink command's whole block has arrived is an
/// I/O error: nothing is enqueued or replied, and the connection is torn
/// down rather than retried.
pub proof fn lemma_sink_short_read(tail: Seq<u8>)
    requires
        tail.len() < PAYLOAD_BLOCK_SIZE,
    ensures
        ({
            let t = dispatch_of(seq![CMD_SINK] + tail);
            t.durations == Seq::<u64>::empty() && t.replies == Seq::<u8>::empty() && t.consumed
                == 1 + tail.len() && t.outcome == DispatchOutcome::IoError
        }),
{
    let input = seq![CMD_SINK] + tail;
    assert(input[0] == CMD_SINK);
    assert(input.len() == 1 + tail.len());
}

/// A request-payload command enqueues exactly the big-endian value of its
/// eight payload bytes, in front of whatever later commands enqueue, and
/// touches no reply.
pub proof fn lemma_request_enqueues(payload: Seq<u8>, rest: Seq<u8>)
    requires
        payload.len() == 8,
    ensures
        ({
            let t = dispatch_of(seq![CMD_REQUEST_PAYLOAD] + payload + rest);
            let r = dispatch_of(rest);
            t.durations == seq![be_u64_of(payload)] + r.durations && t.replies == r.replies
                && t.consumed == 9 + r.consumed && t.outcome == r.outcome
        }),
{
    let input = seq![CMD_REQUEST_PAYLOAD] + payload + rest;
    assert(input[0] == CMD_REQUEST_PAYLOAD);
    assert(input.len() == 9 + rest.len());
    assert(input.subrange(1, 9) =~= payload);
    assert(input.skip(9) =~= rest);
}

/// A stream that ends inside a request-payload command's eight duration
/// bytes is an I/O error.
pub proof fn lemma_request_short_read(tail: Seq<u8>)
    requires
        tail.len() < 8,
    ensures
        ({
            let t = dispatch_of(seq![CMD_REQUEST_PAYLOAD] + tail);
            t.durations == Seq::<u64>::empty() && t.replies == Seq::<u8>::empty() && t.consumed
                == 1 + tail.len() && t.outcome == DispatchOutcome::IoError
        }),
{
    let input = seq![CMD_REQUEST_PAYLOAD] + tail;
    assert(input[0] == CMD_REQUEST_PAYLOAD);
    assert(input.len() == 1 + tail.len());
}

/// Burst requests are enqueued in the order issued: two back-to-back
/// request-payload commands put their two durations on the queue first and
/// second, whatever commands follow.
pub proof fn lemma_requests_fifo(payload1: Seq<u8>, payload2: Seq<u8>, rest: Seq<u8>)
    requires
        payload1.len() == 8,
        payload2.len() == 8,
    ensures
        ({
            let t = dispatch_of(
                seq![CMD_REQUEST_PAYLOAD] + payload1 + seq![CMD_REQUEST_PAYLOAD] + payload2
                    + rest,
            );
            t.durations.len() >= 2 && t.durations[0] == be_u64_of(payload1) && t.durations[1]
                == be_u64_of(payload2)
        }),
{
    let second = seq![CMD_REQUEST_PAYLOAD] + payload2 + rest;
    lemma_request_enqueues(payload2, rest);
    assert(seq![CMD_REQUEST_PAYLOAD] + payload1 + seq![CMD_REQUEST_PAYLOAD] + payload2 + rest
        =~= seq![CMD_REQUEST_PAYLOAD] + payload1 + second);
    lemma_request_enqueues(payload1, second);
}

/// A ping command writes exactly one reply byte, in front of whatever later
/// commands reply, and leaves the duration queue untouched: a burst already
/// enqueued is unaffected by pings answered while it streams.
pub proof fn lemma_ping_one_reply(rest: Seq<u8>)
    ensures
        ({
            let t = dispatch_of(seq![CMD_PING] + rest);
            let r = dispatch_of(rest);
            t.durations == r.durations && t.replies == seq![PING_REPLY] + r.replies && t.consumed
                == 1 + r.consumed && t.outcome == r.outcome
        }),
{
    let input = seq![CMD_PING] + rest;
    assert(input[0] == CMD_PING);
    assert(input.skip(1) =~= rest);
}

/// A disconnect command always ends the dispatch loop with success, at once:
/// nothing after it is read, enqueued or replied.
pub proof fn lemma_disconnect_closes(rest: Seq<u8>)
    ensures
        ({
            let t = dispatch_of(seq![CMD_DISCONNECT] + rest);
            t.durations == Seq::<u64>::empty() && t.replies == Seq::<u8>::empty() && t.consumed
                == 1 && t.outcome == DispatchOutcome::CleanClose
        }),
{
    let input = seq![CMD_DISCONNECT] + rest;
    assert(input[0] == CMD_DISCONNECT);
}

/// An unknown command byte never ends the connection: it is read, ignored,
/// and the dispatch loop goes on with the next byte as the next command.
pub proof fn lemma_unknown_ignored(b: u8, rest: Seq<u8>)
    requires
        command_of(b) is Unknown,
    ensures
        ({
            let t = dispatch_of(seq![b] + rest);
            let r = dispatch_of(rest);
            t.durations == r.durations && t.replies == r.replies && t.consumed == 1 + r.consumed
                && t.outcome == r.outcome
        }),
{
    let input = seq![b] + rest;
    assert(input[0] == b);
    assert(input.skip(1) =~= rest);
}

/// What the executable dispatch loop hands back: the mirror of
/// `DispatchTrace` in plain values.
#[derive(Debug)]
pub struct DispatchResult {
    /// Burst durations enqueued for the sender, in issue order.
    pub durations: Vec<u64>,
    /// Reply bytes written back to the client, in write order.
    pub replies: Vec<u8>,
    /// How many inbound bytes the dispatcher read.
    pub consumed: usize,
    /// Whether the connection closed cleanly or failed.
    pub outcome: DispatchOutcome,
}

/// Run the command dispatch loop over one whole inbound byte sequence,
/// exactly as `dispatch_of` states it.
pub fn run_dispatcher(input: &[u8]) -> (r: DispatchResult)
    ensures
        r.durations@ == dispatch_of(input@).durations,
        r.replies@ == dispatch_of(input@).replies,
        r.consumed == dispatch_of(input@).consumed,
        r.outcome == dispatch_of(input@).outcome,
{
    let mut durations: Vec<u64> = Vec::new();
    let mut replies: Vec<u8> = Vec::new();
    let mut i: usize = 0;
    proof {
        assert(input@.skip(0) =~= input@);
        assert(Seq::<u64>::empty() + dispatch_of(input@).durations =~= dispatch_of(
            input@,
        ).durations);
        assert(Seq::<u8>::empty() + dispatch_of(input@).replies =~= dispatch_of(input@).replies);
    }
    while i < input.len()
        invariant
            i <= input@.len(),
            dispatch_of(input@).durations == durations@ + dispatch_of(
                input@.skip(i as int),
            ).durations,
            dispatch_of(input@).replies == replies@ + dispatch_of(input@.skip(i as int)).replies,
            dispatch_of(input@).consumed == i + dispatch_of(input@.skip(i as int)).consumed,
            dispatch_of(input@).outcome == dispatch_of(input@.skip(i as int)).outcome,
        decreases input@.len() - i,
    {
        let ghost pre = input@.skip(i as int);
        proof {
            assert(pre[0] == input@[i as int]);
        }
        match Command::from_byte(input[i]) {
            Command::Sink => {
                if input.len() - i >= 1 + PAYLOAD_BLOCK_SIZE {
                    proof {
                        assert(pre.skip(1 + PAYLOAD_BLOCK_SIZE as int) =~= input@.skip(
                            i + 1 + PAYLOAD_BLOCK_SIZE,
                        ));
                    }
                    i = i + 1 + PAYLOAD_BLOCK_SIZE;
                } else {
                    proof {
                        assert(durations@ + Seq::<u64>::empty() =~= durations@);
                        assert(replies@ + Seq::<u8>::empty() =~= replies@);
                    }
                    return DispatchResult {
                        durations,
                        replies,
                        consumed: input.len(),
                        outcome: DispatchOutcome::IoError,
                    };
                }
            },
            Command::RequestPayload => {
                if input.len() - i >= 9 {
                    let payload = slice_subrange(input, i + 1, i + 9);
                    let d = duration_from_bytes(payload);
                    proof {
                        assert(pre.subrange(1, 9) =~= input@.subrange(i + 1, i + 9));
                        assert(pre.skip(9) =~= input@.skip(i + 9));
                        assert(durations@.push(d) + dispatch_of(input@.skip(i + 9)).durations
                            =~= durations@ + (seq![d] + dispatch_of(
                            input@.skip(i + 9),
                        ).durations));
                    }
                    durations.push(d);
                    i = i + 9;
                } else {
                    proof {
                        assert(durations@ + Seq::<u64>::empty() =~= durations@);
                        assert(replies@ + Seq::<u8>::empty() =~= replies@);
                    }
                    return DispatchResult {
                        durations,
                        replies,
                        consumed: input.len(),
                        outcome: DispatchOutcome::IoError,
                    };
                }
            },
            Command::Ping => {
                proof {
                    assert(pre.skip(1) =~= input@.skip(i + 1));
                    assert(replies@.push(PING_REPLY) + dispatch_of(input@.skip(i + 1)).replies
                        =~= replies@ + (seq![PING_REPLY] + dispatch_of(
                        input@.skip(i + 1),
                    ).replies));
                }
                replies.push(PING_REPLY);
                i = i + 1;
            },
            Command::Disconnect => {
                proof {
                    assert(durations@ + Seq::<u64>::empty() =~= durations@);
                    assert(replies@ + Seq::<u8>::empty() =~= replies@);
                }
                return DispatchResult {
                    durations,
                    replies,
                    consumed: i + 1,
                    outcome: DispatchOutcome::CleanClose,
                };
            },
            Command::Unknown { .. } => {
                proof {
                    assert(pre.skip(1) =~= input@.skip(i + 1));
                }
                i = i + 1;
            },
        }
    }
    proof {
        assert(input@.skip(i as int) =~= Seq::<u8>::empty());
        assert(durations@ + Seq::<u64>::empty() =~= durations@);
        assert(replies@ + Seq::<u8>::empty() =~= replies@);
    }
    DispatchResult { durations, replies, consumed: i, outcome: DispatchOutcome::IoError }
}

} // verus!
