use sysutils::report::{probe_line, render_probe_line, summary_line, termination_summary};
use sysutils::stats::{Snapshot, State};
use sysutils::text::Ipv4Address;

fn snapshot(requests_sent: u32, replies_received: u32) -> Snapshot {
    Snapshot { requests_sent, replies_received, min_rtt: None, max_rtt: None, total_rtt: 0 }
}

#[test]
fn summary_of_ten_sent_seven_received() {
    assert_eq!(
        summary_line(&snapshot(10, 7)),
        "10 packets transmitted, 7 packets received, 30% packet loss"
    );
}

#[test]
fn summary_of_nothing_sent() {
    assert_eq!(
        summary_line(&snapshot(0, 0)),
        "0 packets transmitted, 0 packets received, 0% packet loss"
    );
}

#[test]
fn summary_truncates_the_percentage() {
    assert_eq!(
        summary_line(&snapshot(3, 2)),
        "3 packets transmitted, 2 packets received, 33% packet loss"
    );
}

#[test]
fn probe_line_with_a_rendered_time() {
    assert_eq!(
        render_probe_line(64, Ipv4Address::new(192, 168, 50, 87), 1, "12ms"),
        "64 bytes from 192.168.50.87: icmp_seq=1 time=12ms"
    );
}

#[test]
fn probe_line_renders_the_elapsed_time() {
    let source = Ipv4Address::new(8, 8, 8, 8);
    assert_eq!(probe_line(64, source, 3, 1_500_000), "64 bytes from 8.8.8.8: icmp_seq=3 time=1.5ms");
    assert_eq!(probe_line(8, source, 65535, 2_000_000_000), "8 bytes from 8.8.8.8: icmp_seq=65535 time=2s");
    assert_eq!(probe_line(8, source, 0, 0), "8 bytes from 8.8.8.8: icmp_seq=0 time=0ns");
    assert_eq!(
        probe_line(8, source, 9, 12_345_678),
        format!("8 bytes from 8.8.8.8: icmp_seq=9 time={:?}", std::time::Duration::from_nanos(12_345_678))
    );
}

#[test]
fn termination_summary_reads_the_statistics() {
    let mut stats = State::new();
    for i in 0..4 {
        stats.record_send();
        if i != 2 {
            stats.record_reply(1000);
        }
    }
    assert_eq!(
        termination_summary(&stats),
        "4 packets transmitted, 3 packets received, 25% packet loss"
    );
}
