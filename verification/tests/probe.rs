use sysutils::packet::{DecodingError, EncodingError};
use sysutils::probe::{
    diagnostic, exit_status, Action, Event, Phase, ProbeError, ProbeLoop, Termination,
    DEFAULT_INTERVAL_MS, FIRST_SEQUENCE,
};
use sysutils::report::termination_summary;
use sysutils::stats::State;
use sysutils::text::Ipv4Address;

fn target() -> Ipv4Address {
    Ipv4Address::new(192, 168, 50, 87)
}

fn reply_to(packet: &[u8]) -> Vec<u8> {
    let mut raw = packet.to_vec();
    raw[0] = 0;
    raw
}

fn sent_packet(action: Action) -> Vec<u8> {
    match action {
        Action::Send { packet } => packet,
        other => panic!("expected a request to send, got {:?}", other),
    }
}

#[test]
fn three_probes_then_interrupt() {
    let mut probe = ProbeLoop::new(0x1234, 1000, vec![0u8; 56], 64);
    let mut stats = State::new();
    let mut printed: Vec<String> = Vec::new();
    let mut action = probe.step(&mut stats, Event::ChannelOpened).unwrap();
    for n in 1..=3u16 {
        let packet = sent_packet(action);
        assert_eq!(packet.len(), 64);
        assert_eq!(packet[0], 8);
        assert_eq!(&packet[4..8], &[0x12, 0x34, 0, n as u8]);
        assert_eq!(probe.phase(), Phase::Sending);
        assert_eq!(probe.sequence(), n);

        action = probe.step(&mut stats, Event::Sent).unwrap();
        assert!(matches!(action, Action::Receive));
        assert_eq!(probe.phase(), Phase::AwaitingReply);
        assert_eq!(stats.requests_sent(), n as u32);
        assert_eq!(stats.replies_received(), n as u32 - 1);

        let event = Event::Received { raw: reply_to(&packet), source: target(), rtt_nanos: 1_500_000 };
        action = probe.step(&mut stats, event).unwrap();
        assert_eq!(probe.phase(), Phase::Recording);
        assert_eq!(stats.replies_received(), n as u32);
        match action {
            Action::Report { line } => printed.push(line),
            other => panic!("expected a report, got {:?}", other),
        }

        action = probe.step(&mut stats, Event::Reported).unwrap();
        assert!(matches!(action, Action::Sleep { millis: 1000 }));
        assert_eq!(probe.phase(), Phase::Sleeping);
        assert_eq!(probe.sequence(), n + 1);

        action = probe.step(&mut stats, Event::Woke).unwrap();
    }
    printed.push(termination_summary(&stats));
    assert_eq!(
        printed,
        vec![
            "64 bytes from 192.168.50.87: icmp_seq=1 time=1.5ms".to_string(),
            "64 bytes from 192.168.50.87: icmp_seq=2 time=1.5ms".to_string(),
            "64 bytes from 192.168.50.87: icmp_seq=3 time=1.5ms".to_string(),
            "3 packets transmitted, 3 packets received, 0% packet loss".to_string(),
        ]
    );
}

#[test]
fn interrupt_while_a_reply_is_awaited_counts_the_loss() {
    let mut probe = ProbeLoop::new(1, DEFAULT_INTERVAL_MS, Vec::new(), 8);
    let mut stats = State::new();
    let packet = sent_packet(probe.step(&mut stats, Event::ChannelOpened).unwrap());
    probe.step(&mut stats, Event::Sent).unwrap();
    let event = Event::Received { raw: reply_to(&packet), source: target(), rtt_nanos: 10 };
    probe.step(&mut stats, event).unwrap();
    probe.step(&mut stats, Event::Reported).unwrap();
    probe.step(&mut stats, Event::Woke).unwrap();
    probe.step(&mut stats, Event::Sent).unwrap();
    assert_eq!(
        termination_summary(&stats),
        "2 packets transmitted, 1 packets received, 50% packet loss"
    );
}

#[test]
fn interrupt_before_anything_was_sent() {
    let stats = State::new();
    assert_eq!(
        termination_summary(&stats),
        "0 packets transmitted, 0 packets received, 0% packet loss"
    );
}

#[test]
fn a_new_loop_is_idle_and_starts_at_the_first_sequence_number() {
    let probe = ProbeLoop::new(5, 250, vec![1, 2, 3], 64);
    assert_eq!(probe.phase(), Phase::Idle);
    assert_eq!(probe.sequence(), FIRST_SEQUENCE);
    assert_eq!(FIRST_SEQUENCE, 1);
    assert_eq!(probe.interval_ms(), 250);
    assert_eq!(DEFAULT_INTERVAL_MS, 1000);
}

#[test]
fn the_request_carries_identifier_sequence_and_payload() {
    let mut probe = ProbeLoop::new(0xABCD, 1000, b"data".to_vec(), 64);
    let mut stats = State::new();
    let packet = sent_packet(probe.step(&mut stats, Event::ChannelOpened).unwrap());
    assert_eq!(packet.len(), 12);
    assert_eq!(&packet[..2], &[8, 0]);
    assert_eq!(&packet[4..], &[0xAB, 0xCD, 0, 1, b'd', b'a', b't', b'a']);
    assert!(sysutils::checksum::verify_checksum(&packet));
}

#[test]
fn the_report_shows_what_the_reply_holds() {
    let mut probe = ProbeLoop::new(1, 1000, Vec::new(), 64);
    let mut stats = State::new();
    probe.step(&mut stats, Event::ChannelOpened).unwrap();
    probe.step(&mut stats, Event::Sent).unwrap();
    let raw = vec![0u8, 0, 0, 0, 0, 1, 0x01, 0x00, 1, 2, 3];
    let event = Event::Received { raw, source: Ipv4Address::new(10, 1, 2, 3), rtt_nanos: 2_000 };
    match probe.step(&mut stats, event).unwrap() {
        Action::Report { line } => {
            assert_eq!(line, "11 bytes from 10.1.2.3: icmp_seq=256 time=2µs")
        }
        other => panic!("expected a report, got {:?}", other),
    }
}

#[test]
fn channel_open_failure_is_fatal() {
    let mut probe = ProbeLoop::new(1, 1000, Vec::new(), 64);
    let mut stats = State::new();
    assert_eq!(probe.step(&mut stats, Event::ChannelOpenFailed).err(), Some(ProbeError::ChannelOpen));
    assert_eq!(probe.phase(), Phase::Stopped);
    assert_eq!(stats.requests_sent(), 0);
}

#[test]
fn a_request_that_does_not_fit_is_fatal() {
    let mut probe = ProbeLoop::new(1, 1000, vec![0u8; 57], 64);
    let mut stats = State::new();
    assert_eq!(
        probe.step(&mut stats, Event::ChannelOpened).err(),
        Some(ProbeError::Encoding(EncodingError::BufferTooSmall))
    );
    assert_eq!(probe.phase(), Phase::Stopped);
}

#[test]
fn send_failure_is_fatal_and_not_counted() {
    let mut probe = ProbeLoop::new(1, 1000, Vec::new(), 64);
    let mut stats = State::new();
    probe.step(&mut stats, Event::ChannelOpened).unwrap();
    assert_eq!(probe.step(&mut stats, Event::SendFailed).err(), Some(ProbeError::Send));
    assert_eq!(probe.phase(), Phase::Stopped);
    assert_eq!(stats.requests_sent(), 0);
}

#[test]
fn receive_failure_is_fatal_and_keeps_the_request_counted() {
    let mut probe = ProbeLoop::new(1, 1000, Vec::new(), 64);
    let mut stats = State::new();
    probe.step(&mut stats, Event::ChannelOpened).unwrap();
    probe.step(&mut stats, Event::Sent).unwrap();
    assert_eq!(probe.step(&mut stats, Event::ReceiveFailed).err(), Some(ProbeError::Receive));
    assert_eq!(probe.phase(), Phase::Stopped);
    assert_eq!(stats.requests_sent(), 1);
    assert_eq!(stats.replies_received(), 0);
}

#[test]
fn what_is_not_a_reply_is_fatal() {
    for (raw, expected) in [
        (vec![0u8; 3], DecodingError::Truncated),
        (vec![8u8, 0, 0, 0, 0, 0, 0, 0], DecodingError::NotEchoReply),
        (vec![0u8, 7, 0, 0, 0, 0, 0, 0], DecodingError::NotEchoReply),
    ] {
        let mut probe = ProbeLoop::new(1, 1000, Vec::new(), 64);
        let mut stats = State::new();
        probe.step(&mut stats, Event::ChannelOpened).unwrap();
        probe.step(&mut stats, Event::Sent).unwrap();
        let event = Event::Received { raw, source: target(), rtt_nanos: 1 };
        assert_eq!(probe.step(&mut stats, event).err(), Some(ProbeError::Decoding(expected)));
        assert_eq!(probe.phase(), Phase::Stopped);
        assert_eq!(stats.replies_received(), 0);
    }
}

#[test]
fn the_loop_refuses_its_own_request_as_a_reply() {
    let mut probe = ProbeLoop::new(1, 1000, vec![7u8; 20], 64);
    let mut stats = State::new();
    let packet = sent_packet(probe.step(&mut stats, Event::ChannelOpened).unwrap());
    probe.step(&mut stats, Event::Sent).unwrap();
    let event = Event::Received { raw: packet, source: target(), rtt_nanos: 1 };
    assert_eq!(
        probe.step(&mut stats, event).err(),
        Some(ProbeError::Decoding(DecodingError::NotEchoReply))
    );
}

#[test]
fn a_misplaced_event_is_refused_and_changes_nothing() {
    let mut probe = ProbeLoop::new(1, 1000, Vec::new(), 64);
    let mut stats = State::new();
    for event in [Event::Sent, Event::SendFailed, Event::ReceiveFailed, Event::Reported, Event::Woke] {
        assert_eq!(probe.step(&mut stats, event).err(), Some(ProbeError::UnexpectedEvent));
        assert_eq!(probe.phase(), Phase::Idle);
    }
    probe.step(&mut stats, Event::ChannelOpened).unwrap();
    for event in [Event::ChannelOpened, Event::Woke, Event::Reported, Event::ReceiveFailed] {
        assert_eq!(probe.step(&mut stats, event).err(), Some(ProbeError::UnexpectedEvent));
        assert_eq!(probe.phase(), Phase::Sending);
        assert_eq!(probe.sequence(), 1);
    }
    assert_eq!(stats.requests_sent(), 0);
}

#[test]
fn a_stopped_loop_stays_stopped() {
    let mut probe = ProbeLoop::new(1, 1000, Vec::new(), 64);
    let mut stats = State::new();
    probe.step(&mut stats, Event::ChannelOpenFailed).unwrap_err();
    for event in [Event::ChannelOpened, Event::Sent, Event::Woke, Event::Reported] {
        assert_eq!(probe.step(&mut stats, event).err(), Some(ProbeError::UnexpectedEvent));
        assert_eq!(probe.phase(), Phase::Stopped);
    }
}

#[test]
fn sequence_numbers_run_out_rather_than_repeat() {
    let mut probe = ProbeLoop::new(1, 0, Vec::new(), 8);
    let mut stats = State::new();
    let mut action = probe.step(&mut stats, Event::ChannelOpened).unwrap();
    let mut expected: u16 = 1;
    loop {
        let packet = sent_packet(action);
        assert_eq!(u16::from_be_bytes([packet[6], packet[7]]), expected);
        probe.step(&mut stats, Event::Sent).unwrap();
        let event = Event::Received { raw: reply_to(&packet), source: target(), rtt_nanos: 1 };
        probe.step(&mut stats, event).unwrap();
        match probe.step(&mut stats, Event::Reported) {
            Ok(_) => {}
            Err(e) => {
                assert_eq!(e, ProbeError::SequenceExhausted);
                break;
            }
        }
        expected += 1;
        action = probe.step(&mut stats, Event::Woke).unwrap();
    }
    assert_eq!(expected, u16::MAX);
    assert_eq!(probe.phase(), Phase::Stopped);
    assert_eq!(stats.requests_sent(), 65535);
    assert_eq!(stats.replies_received(), 65535);
}

#[test]
fn only_an_interrupt_ends_with_status_zero() {
    assert_eq!(exit_status(Termination::Interrupted), 0);
    for error in [
        ProbeError::ChannelOpen,
        ProbeError::Encoding(EncodingError::BufferTooSmall),
        ProbeError::Send,
        ProbeError::Receive,
        ProbeError::Decoding(DecodingError::Truncated),
        ProbeError::Decoding(DecodingError::NotEchoReply),
        ProbeError::SequenceExhausted,
        ProbeError::UnexpectedEvent,
    ] {
        assert_ne!(exit_status(Termination::Failed(error)), 0);
        assert!(!diagnostic(error).is_empty());
    }
}

#[test]
fn diagnostics_of_the_transport() {
    assert_eq!(diagnostic(ProbeError::ChannelOpen), "could not create channel");
    assert_eq!(diagnostic(ProbeError::Send), "Failed to send ICMP packet");
    assert_eq!(diagnostic(ProbeError::Receive), "failed on recv");
}
