use udp_throughput::codec::{control_datagram, encode_count, FINISH_REQUEST, RESET_REQUEST};
use udp_throughput::pacer::AveragingPolicy;
use udp_throughput::receiver::Receiver;
use udp_throughput::session::{Phase, SendDecision, SendOutcome, Session, SessionError};

const SECOND: u64 = 1_000_000_000;

fn session(packet_size: u64, rate: u64, duration: u64) -> Session {
    Session::new(packet_size, rate, duration, AveragingPolicy::Cumulative).unwrap()
}

#[test]
fn zero_packet_size_is_rejected() {
    let r = Session::new(0, 1000, SECOND, AveragingPolicy::Cumulative);
    assert_eq!(r.err(), Some(SessionError::InvalidPacketSize));
}

#[test]
fn reset_repeats_until_zero() {
    let mut s = session(1472, 1_048_576, 2 * SECOND);
    assert_eq!(s.phase, Phase::Idle);
    s.begin_reset(10);
    assert_eq!(s.phase, Phase::Resetting);
    assert_eq!(s.on_reset_reply(&encode_count(4096)), Ok(false));
    assert_eq!(s.phase, Phase::Resetting);
    assert_eq!(s.on_reset_reply(&[0, 0, 0]), Err(SessionError::MalformedReply));
    assert_eq!(s.phase, Phase::Resetting);
    assert_eq!(s.on_reset_reply(&encode_count(0)), Ok(true));
    assert_eq!(s.phase, Phase::Measuring);
    assert!(!s.started);
}

#[test]
fn reset_gives_up_after_duration() {
    let mut s = session(1472, 1_048_576, SECOND);
    s.begin_reset(100);
    assert_eq!(s.on_reset_timeout(100 + SECOND - 1), Ok(()));
    assert_eq!(s.on_reset_timeout(100 + SECOND), Err(SessionError::ResetDidNotConverge));
}

#[test]
fn finish_gives_up_after_attempts() {
    let mut s = session(1000, 1_000_000, 0);
    s.begin_reset(0);
    s.on_reset_reply(&encode_count(0)).unwrap();
    assert_eq!(s.on_send(SendOutcome::Sent(1000), 0, 0), SendDecision::Stop);
    assert_eq!(s.phase, Phase::Finishing);
    assert_eq!(s.on_finish_timeout(), Ok(()));
    assert_eq!(s.on_finish_timeout(), Ok(()));
    assert_eq!(s.on_finish_timeout(), Err(SessionError::FinishTimedOut));
    assert_eq!(s.on_finish_reply(&[1, 2]), Err(SessionError::MalformedReply));
    let report = s.on_finish_reply(&encode_count(1000)).unwrap();
    assert_eq!(s.phase, Phase::Reported);
    assert_eq!(report.bytes_transmitted, 1000);
    assert_eq!(report.bytes_received, 1000);
    assert_eq!(report.elapsed_nanos, 0);
}

#[test]
fn send_decisions_follow_the_pacer() {
    let mut s = session(1000, 1_000_000, 10_000_000);
    s.begin_reset(0);
    s.on_reset_reply(&encode_count(0)).unwrap();
    assert_eq!(
        s.on_send(SendOutcome::Sent(1000), 1_000, 201_000),
        SendDecision::Sleep(800_000)
    );
    assert!(s.started);
    assert_eq!(s.measure_start, 1_000);
    assert_eq!(
        s.on_send(SendOutcome::WouldBlock, 1_001_000, 1_001_000),
        SendDecision::Sleep(900_000)
    );
    assert_eq!(s.bytes_transmitted, 1000);
    assert_eq!(
        s.on_send(SendOutcome::Sent(1000), 9_500_000, 9_500_000),
        SendDecision::Stop
    );
    assert_eq!(s.measure_end, 9_500_000);
    assert_eq!(s.bytes_transmitted, 2000);
}

/// Runs a measurement whose sends take no time, on a simulated clock, and
/// returns the bytes sent.
fn simulate_zero_latency(packet_size: u64, rate: u64, duration: u64) -> (u64, u64) {
    let mut s = session(packet_size, rate, duration);
    s.begin_reset(0);
    s.on_reset_reply(&encode_count(0)).unwrap();
    let mut now = 0;
    let mut sends = 0;
    loop {
        sends += 1;
        match s.on_send(SendOutcome::Sent(packet_size), now, now) {
            SendDecision::Sleep(d) => now += d,
            SendDecision::Stop => break,
        }
    }
    (s.bytes_transmitted, sends)
}

#[test]
fn zero_latency_session_converges_to_rate() {
    let (bytes, sends) = simulate_zero_latency(1000, 1_000_000, 2 * SECOND);
    assert_eq!(sends, 2000);
    assert!(bytes >= 2_000_000 && bytes <= 2_000_000 + 1000);
    let (bytes, _) = simulate_zero_latency(500, 50_000, 3 * SECOND + 1);
    assert!(bytes >= 150_000 && bytes <= 150_000 + 500);
}

#[test]
fn end_to_end_over_simulated_loopback() {
    let packet_size = 1472u64;
    let mut receiver = Receiver::new();
    // Traffic left over from an earlier run.
    receiver.handle_datagram(&vec![0u8; 1472]);

    let mut s = session(packet_size, 1_048_576, 2 * SECOND);
    let mut now = 0u64;
    s.begin_reset(now);
    // The first reset request is lost; stale traffic lands after the second.
    assert_eq!(s.on_reset_timeout(now + 1000), Ok(()));
    let reply = receiver.handle_datagram(&control_datagram(RESET_REQUEST)).unwrap();
    receiver.handle_datagram(&vec![0u8; 1472]);
    assert_eq!(s.on_reset_reply(&reply), Ok(true));
    assert_eq!(s.phase, Phase::Measuring);

    let data = vec![0u8; 1472];
    loop {
        let sent = data.len() as u64;
        receiver.handle_datagram(&data);
        match s.on_send(SendOutcome::Sent(sent), now, now + 2_000) {
            SendDecision::Sleep(d) => now += 2_000 + d,
            SendDecision::Stop => break,
        }
    }
    assert_eq!(s.phase, Phase::Finishing);
    assert!(s.bytes_transmitted > 0);

    let reply = receiver.handle_datagram(&control_datagram(FINISH_REQUEST)).unwrap();
    let report = s.on_finish_reply(&reply).unwrap();
    assert_eq!(s.phase, Phase::Reported);
    assert!(report.bytes_received <= report.bytes_transmitted + packet_size);
    // The last send starts before the end and may finish one latency after it.
    assert!(report.elapsed_nanos > 0 && report.elapsed_nanos <= 2 * SECOND + 2_000);
}
