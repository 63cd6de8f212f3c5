use speedtest_core::dispatcher::run_dispatcher;
use speedtest_core::dispatcher::DispatchOutcome;
use speedtest_core::protocol::duration_from_bytes;
use speedtest_core::protocol::Command;
use speedtest_core::protocol::BURST_COMPLETE;
use speedtest_core::protocol::CMD_DISCONNECT;
use speedtest_core::protocol::CMD_PING;
use speedtest_core::protocol::CMD_REQUEST_PAYLOAD;
use speedtest_core::protocol::CMD_SINK;
use speedtest_core::protocol::FRAME_MARKER;
use speedtest_core::protocol::PAYLOAD_BLOCK_SIZE;
use speedtest_core::protocol::PING_REPLY;
use speedtest_core::sender::elapsed_ms;
use speedtest_core::sender::sender_begin_burst;
use speedtest_core::sender::sender_frame_done;
use speedtest_core::sender::sender_step;
use speedtest_core::sender::SenderAction;
use speedtest_core::sender::SenderEvent;
use speedtest_core::sender::SenderState;
use speedtest_core::sender::NS_PER_MS;

fn be_bytes(d: u64) -> Vec<u8> {
    let mut v = Vec::new();
    for shift in [56u32, 48, 40, 32, 24, 16, 8, 0] {
        v.push(((d >> shift) & 0xff) as u8);
    }
    v
}

#[test]
fn classify_commands() {
    assert_eq!(Command::from_byte(CMD_SINK), Command::Sink);
    assert_eq!(Command::from_byte(CMD_REQUEST_PAYLOAD), Command::RequestPayload);
    assert_eq!(Command::from_byte(CMD_PING), Command::Ping);
    assert_eq!(Command::from_byte(CMD_DISCONNECT), Command::Disconnect);
    assert_eq!(Command::from_byte(200), Command::Unknown { code: 200 });
    assert_eq!(Command::from_byte(BURST_COMPLETE), Command::Unknown { code: 2 });
}

#[test]
fn protocol_constants() {
    assert_eq!(PAYLOAD_BLOCK_SIZE, 1024 * 1024);
    assert_eq!(FRAME_MARKER, 0);
    assert_eq!(BURST_COMPLETE, 2);
    assert_eq!(PING_REPLY, 3);
    assert_eq!(NS_PER_MS, 1_000_000);
}

#[test]
fn decode_duration_bytes() {
    assert_eq!(duration_from_bytes(&[0, 0, 0, 0, 0, 0, 0, 0x64]), 100);
    assert_eq!(duration_from_bytes(&[1, 2, 3, 4, 5, 6, 7, 8]), 0x0102030405060708);
    assert_eq!(duration_from_bytes(&[0xff; 8]), u64::MAX);
    assert_eq!(duration_from_bytes(&[0; 8]), 0);
}

#[test]
fn elapsed_milliseconds() {
    assert_eq!(elapsed_ms(0, 100_000_000), 100);
    assert_eq!(elapsed_ms(0, 999_999), 0);
    assert_eq!(elapsed_ms(5, 5), 0);
    assert_eq!(elapsed_ms(10, 3), 0);
    assert_eq!(elapsed_ms(1_000_000, 3_500_000), 2);
}

#[test]
fn empty_stream_is_io_error() {
    let r = run_dispatcher(&[]);
    assert_eq!(r.outcome, DispatchOutcome::IoError);
    assert_eq!(r.consumed, 0);
    assert!(r.durations.is_empty());
    assert!(r.replies.is_empty());
}

#[test]
fn ping_yields_exactly_one_reply() {
    let r = run_dispatcher(&[CMD_PING]);
    assert_eq!(r.replies, vec![PING_REPLY]);
    assert!(r.durations.is_empty());
}

#[test]
fn ping_then_disconnect() {
    let r = run_dispatcher(&[CMD_PING, CMD_DISCONNECT]);
    assert_eq!(r.replies, vec![PING_REPLY]);
    assert!(r.durations.is_empty());
    assert_eq!(r.outcome, DispatchOutcome::CleanClose);
    assert_eq!(r.consumed, 2);
}

#[test]
fn disconnect_reads_nothing_further() {
    let r = run_dispatcher(&[CMD_DISCONNECT, CMD_PING, CMD_PING]);
    assert_eq!(r.outcome, DispatchOutcome::CleanClose);
    assert_eq!(r.consumed, 1);
    assert!(r.replies.is_empty());
    assert!(r.durations.is_empty());
}

#[test]
fn sink_consumes_exactly_one_block() {
    let mut input = vec![CMD_SINK];
    input.extend(std::iter::repeat(0xabu8).take(PAYLOAD_BLOCK_SIZE));
    input.push(CMD_DISCONNECT);
    let r = run_dispatcher(&input);
    assert_eq!(r.outcome, DispatchOutcome::CleanClose);
    assert_eq!(r.consumed, 1 + PAYLOAD_BLOCK_SIZE + 1);
    assert!(r.durations.is_empty());
    assert!(r.replies.is_empty());
}

#[test]
fn sink_short_stream_is_io_error() {
    let mut input = vec![CMD_SINK];
    input.extend(std::iter::repeat(0u8).take(1000));
    let r = run_dispatcher(&input);
    assert_eq!(r.outcome, DispatchOutcome::IoError);
    assert_eq!(r.consumed, 1001);
    assert!(r.durations.is_empty());
    assert!(r.replies.is_empty());
}

#[test]
fn truncated_duration_is_io_error() {
    let r = run_dispatcher(&[CMD_REQUEST_PAYLOAD, 0, 0]);
    assert_eq!(r.outcome, DispatchOutcome::IoError);
    assert_eq!(r.consumed, 3);
    assert!(r.durations.is_empty());
}

#[test]
fn unknown_commands_do_not_terminate() {
    let r = run_dispatcher(&[200, 2, 7, CMD_PING, CMD_DISCONNECT]);
    assert_eq!(r.outcome, DispatchOutcome::CleanClose);
    assert_eq!(r.replies, vec![PING_REPLY]);
    assert!(r.durations.is_empty());
    assert_eq!(r.consumed, 5);
}

#[test]
fn requests_are_enqueued_in_order() {
    let mut input = vec![CMD_REQUEST_PAYLOAD];
    input.extend(be_bytes(5));
    input.push(CMD_REQUEST_PAYLOAD);
    input.extend(be_bytes(7));
    input.push(CMD_DISCONNECT);
    let r = run_dispatcher(&input);
    assert_eq!(r.durations, vec![5, 7]);
    assert_eq!(r.outcome, DispatchOutcome::CleanClose);
}

#[test]
fn scenario_burst_of_100_ms() {
    // The client asks for a 100 ms burst, then disconnects.
    let mut input = vec![CMD_REQUEST_PAYLOAD];
    input.extend(be_bytes(0x64));
    input.push(CMD_DISCONNECT);
    let r = run_dispatcher(&input);
    assert_eq!(r.durations, vec![100]);
    assert_eq!(r.outcome, DispatchOutcome::CleanClose);
    assert_eq!(r.consumed, 10);

    // The sender drains the queue: the burst opens with a frame, keeps
    // framing while the clock shows less than 100 ms, completes once the
    // clock reaches 100 ms, and the sender exits when the queue closes.
    let (s, a) = sender_step(
        SenderState::Idle,
        SenderEvent::Value { duration: 100, now: 0 },
    );
    assert_eq!(a, SenderAction::SendFrame);
    assert_eq!(s, SenderState::Bursting { duration: 100, start: 0 });
    let (s, a) = sender_step(s, SenderEvent::Tick { now: 50 * NS_PER_MS });
    assert_eq!(a, SenderAction::SendFrame);
    assert_eq!(s, SenderState::Bursting { duration: 100, start: 0 });
    let (s, a) = sender_step(s, SenderEvent::Tick { now: 100 * NS_PER_MS });
    assert_eq!(a, SenderAction::SendCompletion);
    assert_eq!(s, SenderState::Idle);
    let (s, a) = sender_step(s, SenderEvent::Closed);
    assert_eq!(a, SenderAction::Exit);
    assert_eq!(s, SenderState::Idle);
}

#[test]
fn ping_answered_while_burst_outstanding() {
    // A burst request followed by a ping: the dispatcher enqueues the burst
    // and still answers the ping while the sender is mid-burst.
    let mut input = vec![CMD_REQUEST_PAYLOAD];
    input.extend(be_bytes(1000));
    input.push(CMD_PING);
    input.push(CMD_DISCONNECT);
    let r = run_dispatcher(&input);
    assert_eq!(r.durations, vec![1000]);
    assert_eq!(r.replies, vec![PING_REPLY]);
    assert_eq!(r.outcome, DispatchOutcome::CleanClose);

    // Meanwhile the sender is still mid-burst after an early tick.
    let (s, a) = sender_step(
        SenderState::Idle,
        SenderEvent::Value { duration: 1000, now: 0 },
    );
    assert_eq!(a, SenderAction::SendFrame);
    let (s, a) = sender_step(s, SenderEvent::Tick { now: NS_PER_MS });
    assert_eq!(a, SenderAction::SendFrame);
    assert_eq!(s, SenderState::Bursting { duration: 1000, start: 0 });
}

#[test]
fn zero_duration_burst_sends_one_frame() {
    let (s, a) = sender_step(SenderState::Idle, SenderEvent::Value { duration: 0, now: 42 });
    assert_eq!(a, SenderAction::SendFrame);
    let (s, a) = sender_step(s, SenderEvent::Tick { now: 42 });
    assert_eq!(a, SenderAction::SendCompletion);
    assert_eq!(s, SenderState::Idle);
}

#[test]
fn burst_against_real_clock() {
    // A zero-duration burst against the real clock: one frame is commanded,
    // and the first tick already completes the burst.
    let (s, a) = sender_begin_burst(0);
    assert_eq!(a, SenderAction::SendFrame);
    match s {
        SenderState::Bursting { duration, .. } => assert_eq!(duration, 0),
        SenderState::Idle => panic!("burst did not open"),
    }
    let (s, a) = sender_frame_done(s);
    assert_eq!(a, SenderAction::SendCompletion);
    assert_eq!(s, SenderState::Idle);
}
