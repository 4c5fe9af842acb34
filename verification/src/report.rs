//! The lines a probe run prints: one per reply, and the summary at
//! termination.

use vstd::prelude::*;
use vstd::string::StringExecFns;
use crate::stats::{loss_percent, loss_percent_of, Snapshot, State};
use crate::text::{decimal, dotted_quad, push_decimal, push_dotted_quad, Ipv4Address};

verus! {

/// How the standard library's `Debug` implementation writes a
/// `std::time::Duration` of `nanos` nanoseconds, such as `1.5ms`.
pub uninterp spec fn duration_text(nanos: u64) -> Seq<char>;

/// Renders a span of `nanos` nanoseconds.
///
/// Trusted: the body asks `std::time::Duration` for its `Debug` text. The
/// contract only names that text; it depends on nothing but `nanos`.
#[verifier::external_body]
fn format_duration(nanos: u64) -> (text: String)
    ensures
        text@ == duration_text(nanos),
{
    format!("{:?}", std::time::Duration::from_nanos(nanos))
}

/// The report of one reply:
/// `<size> bytes from <source>: icmp_seq=<sequence> time=<time>`.
pub open spec fn probe_line_text(
    size: nat,
    source: Ipv4Address,
    sequence: u16,
    time: Seq<char>,
) -> Seq<char> {
    decimal(size) + " bytes from "@ + dotted_quad(source) + ": icmp_seq="@ + decimal(
        sequence as nat,
    ) + " time="@ + time
}

/// The summary of a run: `<sent> packets transmitted, <received> packets
/// received, <loss>% packet loss`.
pub open spec fn summary_text(sent: nat, received: nat) -> Seq<char> {
    decimal(sent) + " packets transmitted, "@ + decimal(received) + " packets received, "@
        + decimal(loss_percent_of(sent, received)) + "% packet loss"@
}

/// Builds the report of one reply from an elapsed time already rendered.
pub fn render_probe_line(size: usize, source: Ipv4Address, sequence: u16, time: &str) -> (line:
    String)
    ensures
        line@ == probe_line_text(size as nat, source, sequence, time@),
{
    let mut line = String::new();
    push_decimal(&mut line, size as u64);
    line.append(" bytes from ");
    push_dotted_quad(&mut line, source);
    line.append(": icmp_seq=");
    push_decimal(&mut line, sequence as u64);
    line.append(" time=");
    line.append(time);
    assert(line@ =~= probe_line_text(size as nat, source, sequence, time@));
    line
}

/// Builds the report of one reply that took `rtt_nanos` nanoseconds.
pub fn probe_line(size: usize, source: Ipv4Address, sequence: u16, rtt_nanos: u64) -> (line:
    String)
    ensures
        line@ == probe_line_text(size as nat, source, sequence, duration_text(rtt_nanos)),
{
    let time = format_duration(rtt_nanos);
    render_probe_line(size, source, sequence, time.as_str())
}

/// Builds the summary line for a snapshot.
pub fn summary_line(snapshot: &Snapshot) -> (line: String)
    ensures
        line@ == summary_text(snapshot.requests_sent as nat, snapshot.replies_received as nat),
{
    let mut line = String::new();
    push_decimal(&mut line, snapshot.requests_sent as u64);
    line.append(" packets transmitted, ");
    push_decimal(&mut line, snapshot.replies_received as u64);
    line.append(" packets received, ");
    push_decimal(
        &mut line,
        loss_percent(snapshot.requests_sent, snapshot.replies_received) as u64,
    );
    line.append("% packet loss");
    assert(line@ =~= summary_text(
        snapshot.requests_sent as nat,
        snapshot.replies_received as nat,
    ));
    line
}

/// What the termination handler prints: it reads the statistics once and
/// summarises them. It touches nothing but the statistics.
pub fn termination_summary(stats: &State) -> (line: String)
    ensures
        line@ == summary_text(stats@.requests_sent, stats@.rtts.len()),
        stats@.rtts.len() <= stats@.requests_sent,
{
    let snapshot = stats.snapshot();
    summary_line(&snapshot)
}

} // verus!
