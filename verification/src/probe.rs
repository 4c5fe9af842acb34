//! The probe loop as a state machine.
//!
//! The loop itself — sending, waiting for a reply, printing, sleeping —
//! is outside work. This module holds every decision between two pieces
//! of outside work: the driver performs the `Action` it is handed and
//! reports what happened as the next `Event`.
//!
//! ```text
//! Idle -> Sending -> AwaitingReply -> Recording -> Sleeping -> Sending ...
//! ```
//! There is no normal terminal state. A fatal error stops the machine;
//! an event that does not fit the current phase is refused and changes
//! nothing.

use vstd::prelude::*;
use vstd::string::StringExecFns;
use crate::packet::{
    decode_echo_reply,
    decode_result,
    echo_request_bytes,
    encode_echo_request,
    DecodingError,
    EncodingError,
    HEADER_LEN,
};
use crate::report::{duration_text, probe_line, probe_line_text};
use crate::stats::{
    after_reply,
    after_send,
    fresh_stats,
    snapshot_of,
    stats_valid,
    State,
    StatsView,
};
use crate::text::Ipv4Address;

verus! {

/// Where the loop stands.
#[derive(Clone, Copy, Debug, PartialEq, Eq, Structural)]
pub enum Phase {
    /// Nothing has happened yet; the channel is being opened.
    Idle,
    /// A request was handed out and is being sent.
    Sending,
    /// The request is out; a reply is awaited.
    AwaitingReply,
    /// A reply was counted; its report is being printed.
    Recording,
    /// The loop rests until the next probe is due.
    Sleeping,
    /// A fatal error ended the run.
    Stopped,
}

/// The fatal errors of a run, and the refusal of a misplaced event.
#[derive(Clone, Copy, Debug, PartialEq, Eq, Structural)]
pub enum ProbeError {
    /// The channel could not be opened.
    ChannelOpen,
    /// The request does not fit the buffer.
    Encoding(EncodingError),
    /// The transport failed to send.
    Send,
    /// The transport failed to receive.
    Receive,
    /// What arrived is not an Echo Reply.
    Decoding(DecodingError),
    /// Every sequence number has been used once.
    SequenceExhausted,
    /// The event does not fit the current phase.
    UnexpectedEvent,
}

/// What the driver reports.
#[derive(Clone, Debug)]
pub enum Event {
    ChannelOpened,
    ChannelOpenFailed,
    Sent,
    SendFailed,
    /// A message arrived from `source`, `rtt_nanos` nanoseconds after the
    /// request was handed to the transport.
    Received { raw: Vec<u8>, source: Ipv4Address, rtt_nanos: u64 },
    ReceiveFailed,
    Reported,
    Woke,
}

/// What the driver is to do next.
#[derive(Clone, Debug)]
pub enum Action {
    /// Send these bytes to the destination.
    Send { packet: Vec<u8> },
    /// Block until a message arrives.
    Receive,
    /// Print this line.
    Report { line: String },
    /// Rest for this many milliseconds.
    Sleep { millis: u64 },
}

/// What an `Event` stands for.
pub enum EventView {
    ChannelOpened,
    ChannelOpenFailed,
    Sent,
    SendFailed,
    Received { raw: Seq<u8>, source: Ipv4Address, rtt_nanos: u64 },
    ReceiveFailed,
    Reported,
    Woke,
}

/// What an `Action` stands for.
#[verifier::ext_equal]
pub enum ActionView {
    Send { packet: Seq<u8> },
    Receive,
    Report { line: Seq<char> },
    Sleep { millis: u64 },
}

impl View for Event {
    type V = EventView;

    open spec fn view(&self) -> EventView {
        match *self {
            Event::ChannelOpened => EventView::ChannelOpened,
            Event::ChannelOpenFailed => EventView::ChannelOpenFailed,
            Event::Sent => EventView::Sent,
            Event::SendFailed => EventView::SendFailed,
            Event::Received { raw, source, rtt_nanos } => EventView::Received {
                raw: raw@,
                source,
                rtt_nanos,
            },
            Event::ReceiveFailed => EventView::ReceiveFailed,
            Event::Reported => EventView::Reported,
            Event::Woke => EventView::Woke,
        }
    }
}

impl View for Action {
    type V = ActionView;

    open spec fn view(&self) -> ActionView {
        match *self {
            Action::Send { packet } => ActionView::Send { packet: packet@ },
            Action::Receive => ActionView::Receive,
            Action::Report { line } => ActionView::Report { line: line@ },
            Action::Sleep { millis } => ActionView::Sleep { millis },
        }
    }
}

/// What a `ProbeLoop` stands for.
#[verifier::ext_equal]
pub struct ProbeView {
    pub phase: Phase,
    /// Sequence number of the current probe.
    pub sequence: u16,
    pub identifier: u16,
    pub interval_ms: u64,
    pub payload: Seq<u8>,
    /// Size of the buffer that a request has to fit.
    pub buffer_len: nat,
}

/// The result of one step: the loop and the statistics afterwards, and
/// what the driver is told.
pub struct Outcome {
    pub probe: ProbeView,
    pub stats: StatsView,
    pub result: Result<ActionView, ProbeError>,
}

/// The loop in another phase.
pub open spec fn in_phase(probe: ProbeView, phase: Phase) -> ProbeView {
    ProbeView { phase, ..probe }
}

/// A fatal error: the loop stops, the statistics stay.
pub open spec fn stopped(probe: ProbeView, stats: StatsView, error: ProbeError) -> Outcome {
    Outcome { probe: in_phase(probe, Phase::Stopped), stats, result: Err(error) }
}

/// The request for the current sequence number and the loop that has handed
/// it out; or, where the request does not fit the buffer, the loop stopped.
pub open spec fn next_request(probe: ProbeView) -> (ProbeView, Result<ActionView, ProbeError>) {
    if probe.buffer_len >= HEADER_LEN + probe.payload.len() {
        (
            in_phase(probe, Phase::Sending),
            Ok(
                ActionView::Send {
                    packet: echo_request_bytes(probe.identifier, probe.sequence, probe.payload),
                },
            ),
        )
    } else {
        (
            in_phase(probe, Phase::Stopped),
            Err(ProbeError::Encoding(EncodingError::BufferTooSmall)),
        )
    }
}

/// The loop hands out its next request; the statistics stay.
pub open spec fn request_handed_out(probe: ProbeView, stats: StatsView) -> Outcome {
    Outcome { probe: next_request(probe).0, stats, result: next_request(probe).1 }
}

/// The transition function of the probe loop.
pub open spec fn step_spec(probe: ProbeView, stats: StatsView, event: EventView) -> Outcome {
    match (probe.phase, event) {
        (Phase::Idle, EventView::ChannelOpened) => request_handed_out(probe, stats),
        (Phase::Idle, EventView::ChannelOpenFailed) => stopped(
            probe,
            stats,
            ProbeError::ChannelOpen,
        ),
        (Phase::Sending, EventView::Sent) => Outcome {
            probe: in_phase(probe, Phase::AwaitingReply),
            stats: after_send(stats),
            result: Ok(ActionView::Receive),
        },
        (Phase::Sending, EventView::SendFailed) => stopped(probe, stats, ProbeError::Send),
        (Phase::AwaitingReply, EventView::Received { raw, source, rtt_nanos }) => {
            match decode_result(raw) {
                Ok(reply) => Outcome {
                    probe: in_phase(probe, Phase::Recording),
                    stats: after_reply(stats, rtt_nanos),
                    result: Ok(
                        ActionView::Report {
                            line: probe_line_text(
                                reply.size,
                                source,
                                reply.sequence,
                                duration_text(rtt_nanos),
                            ),
                        },
                    ),
                },
                Err(e) => stopped(probe, stats, ProbeError::Decoding(e)),
            }
        },
        (Phase::AwaitingReply, EventView::ReceiveFailed) => stopped(
            probe,
            stats,
            ProbeError::Receive,
        ),
        (Phase::Recording, EventView::Reported) => {
            if probe.sequence < u16::MAX {
                Outcome {
                    probe: ProbeView {
                        phase: Phase::Sleeping,
                        sequence: (probe.sequence + 1) as u16,
                        ..probe
                    },
                    stats,
                    result: Ok(ActionView::Sleep { millis: probe.interval_ms }),
                }
            } else {
                stopped(probe, stats, ProbeError::SequenceExhausted)
            }
        },
        (Phase::Sleeping, EventView::Woke) => request_handed_out(probe, stats),
        _ => Outcome { probe, stats, result: Err(ProbeError::UnexpectedEvent) },
    }
}

/// The probe loop: its phase, its sequence counter and its settings.
pub struct ProbeLoop {
    phase: Phase,
    sequence: u16,
    identifier: u16,
    interval_ms: u64,
    payload: Vec<u8>,
    buffer_len: usize,
}

impl View for ProbeLoop {
    type V = ProbeView;

    closed spec fn view(&self) -> ProbeView {
        ProbeView {
            phase: self.phase,
            sequence: self.sequence,
            identifier: self.identifier,
            interval_ms: self.interval_ms,
            payload: self.payload@,
            buffer_len: self.buffer_len as nat,
        }
    }
}

/// Sequence number of the first probe of a run.
pub const FIRST_SEQUENCE: u16 = 1;

/// Milliseconds between two probes unless the caller says otherwise.
pub const DEFAULT_INTERVAL_MS: u64 = 1000;

impl ProbeLoop {
    /// A loop that has not started. Every request carries `identifier` and
    /// `payload` and has to fit a buffer of `buffer_len` bytes.
    pub fn new(identifier: u16, interval_ms: u64, payload: Vec<u8>, buffer_len: usize) -> (probe:
        ProbeLoop)
        ensures
            probe@ == (ProbeView {
                phase: Phase::Idle,
                sequence: FIRST_SEQUENCE,
                identifier,
                interval_ms,
                payload: payload@,
                buffer_len: buffer_len as nat,
            }),
    {
        ProbeLoop {
            phase: Phase::Idle,
            sequence: FIRST_SEQUENCE,
            identifier,
            interval_ms,
            payload,
            buffer_len,
        }
    }

    /// The current phase.
    pub fn phase(&self) -> (phase: Phase)
        ensures
            phase == self@.phase,
    {
        self.phase
    }

    /// Sequence number of the current probe.
    pub fn sequence(&self) -> (sequence: u16)
        ensures
            sequence == self@.sequence,
    {
        self.sequence
    }

    /// Milliseconds between two probes.
    pub fn interval_ms(&self) -> (millis: u64)
        ensures
            millis == self@.interval_ms,
    {
        self.interval_ms
    }

    fn hand_out_request(&mut self) -> (result: Result<Action, ProbeError>)
        ensures
            final(self)@ == next_request(old(self)@).0,
            match result {
                Ok(action) => next_request(old(self)@).1 == Ok::<ActionView, ProbeError>(action@),
                Err(e) => next_request(old(self)@).1 == Err::<ActionView, ProbeError>(e),
            },
    {
        let mut packet: Vec<u8> = vec![0u8; self.buffer_len];
        let written = encode_echo_request(
            self.identifier,
            self.sequence,
            self.payload.as_slice(),
            packet.as_mut_slice(),
        );
        match written {
            Ok(n) => {
                packet.truncate(n);
                self.phase = Phase::Sending;
                Ok(Action::Send { packet })
            },
            Err(e) => {
                self.phase = Phase::Stopped;
                Err(ProbeError::Encoding(e))
            },
        }
    }

    /// Takes the loop one step: given what the driver reports, updates the
    /// loop and the statistics and says what the driver is to do next.
    ///
    /// A fatal error stops the loop. An event that does not fit the
    /// current phase is refused with `UnexpectedEvent` and changes nothing.
    pub fn step(&mut self, stats: &mut State, event: Event) -> (result: Result<Action, ProbeError>)
        ensures
            final(self)@ == step_spec(old(self)@, old(stats)@, event@).probe,
            final(stats)@ == step_spec(old(self)@, old(stats)@, event@).stats,
            match result {
                Ok(action) => step_spec(old(self)@, old(stats)@, event@).result == Ok::<
                    ActionView,
                    ProbeError,
                >(action@),
                Err(e) => step_spec(old(self)@, old(stats)@, event@).result == Err::<
                    ActionView,
                    ProbeError,
                >(e),
            },
    {
        match (self.phase, event) {
            (Phase::Idle, Event::ChannelOpened) => self.hand_out_request(),
            (Phase::Idle, Event::ChannelOpenFailed) => {
                self.phase = Phase::Stopped;
                Err(ProbeError::ChannelOpen)
            },
            (Phase::Sending, Event::Sent) => {
                stats.record_send();
                self.phase = Phase::AwaitingReply;
                Ok(Action::Receive)
            },
            (Phase::Sending, Event::SendFailed) => {
                self.phase = Phase::Stopped;
                Err(ProbeError::Send)
            },
            (Phase::AwaitingReply, Event::Received { raw, source, rtt_nanos }) => {
                match decode_echo_reply(raw.as_slice()) {
                    Ok(reply) => {
                        let _ = stats.record_reply(rtt_nanos);
                        self.phase = Phase::Recording;
                        Ok(
                            Action::Report {
                                line: probe_line(reply.size, source, reply.sequence, rtt_nanos),
                            },
                        )
                    },
                    Err(e) => {
                        self.phase = Phase::Stopped;
                        Err(ProbeError::Decoding(e))
                    },
                }
            },
            (Phase::AwaitingReply, Event::ReceiveFailed) => {
                self.phase = Phase::Stopped;
                Err(ProbeError::Receive)
            },
            (Phase::Recording, Event::Reported) => {
                if self.sequence < u16::MAX {
                    self.sequence = self.sequence + 1;
                    self.phase = Phase::Sleeping;
                    Ok(Action::Sleep { millis: self.interval_ms })
                } else {
                    self.phase = Phase::Stopped;
                    Err(ProbeError::SequenceExhausted)
                }
            },
            (Phase::Sleeping, Event::Woke) => self.hand_out_request(),
            _ => Err(ProbeError::UnexpectedEvent),
        }
    }
}

/// How a run ends: by the interrupt that asks for the summary, or by a
/// fatal error.
#[derive(Clone, Copy, Debug, PartialEq, Eq, Structural)]
pub enum Termination {
    Interrupted,
    Failed(ProbeError),
}

/// The exit status of the process: zero after an interrupt, non-zero
/// after a fatal error.
pub open spec fn status_of(termination: Termination) -> i32 {
    match termination {
        Termination::Interrupted => 0,
        Termination::Failed(_) => 1,
    }
}

/// The message that tells of an error on the error stream.
pub open spec fn diagnostic_text(error: ProbeError) -> Seq<char> {
    match error {
        ProbeError::ChannelOpen => "could not create channel"@,
        ProbeError::Encoding(_) => "request does not fit its buffer"@,
        ProbeError::Send => "Failed to send ICMP packet"@,
        ProbeError::Receive => "failed on recv"@,
        ProbeError::Decoding(DecodingError::Truncated) => "received less than an ICMP echo header"@,
        ProbeError::Decoding(DecodingError::NotEchoReply) => "received something other than an echo reply"@,
        ProbeError::SequenceExhausted => "every sequence number has been used"@,
        ProbeError::UnexpectedEvent => "event does not fit the state of the probe loop"@,
    }
}

/// The exit status with which the process is to end.
pub fn exit_status(termination: Termination) -> (status: i32)
    ensures
        status == status_of(termination),
        status == 0 <==> termination == Termination::Interrupted,
{
    match termination {
        Termination::Interrupted => 0,
        Termination::Failed(_) => 1,
    }
}

/// The message to print for an error.
pub fn diagnostic(error: ProbeError) -> (message: String)
    ensures
        message@ == diagnostic_text(error),
{
    let text = match error {
        ProbeError::ChannelOpen => "could not create channel",
        ProbeError::Encoding(_) => "request does not fit its buffer",
        ProbeError::Send => "Failed to send ICMP packet",
        ProbeError::Receive => "failed on recv",
        ProbeError::Decoding(DecodingError::Truncated) => "received less than an ICMP echo header",
        ProbeError::Decoding(DecodingError::NotEchoReply) => "received something other than an echo reply",
        ProbeError::SequenceExhausted => "every sequence number has been used",
        ProbeError::UnexpectedEvent => "event does not fit the state of the probe loop",
    };
    String::from_str(text)
}

/// What the transport delivers in one cycle: the bytes that arrived, where
/// they came from, and how long the exchange took.
pub struct Reception {
    pub raw: Seq<u8>,
    pub source: Ipv4Address,
    pub rtt_nanos: u64,
}

/// A loop together with the statistics it writes to.
pub struct Run {
    pub probe: ProbeView,
    pub stats: StatsView,
}

/// One whole cycle of a loop that is sending: the request goes out, a reply
/// arrives and is reported, the loop sleeps and hands out the next request.
/// `None` where any of the four steps fails.
pub open spec fn cycle(probe: ProbeView, stats: StatsView, reception: Reception) -> Option<Run> {
    let sent = step_spec(probe, stats, EventView::Sent);
    let received = step_spec(
        sent.probe,
        sent.stats,
        EventView::Received {
            raw: reception.raw,
            source: reception.source,
            rtt_nanos: reception.rtt_nanos,
        },
    );
    let reported = step_spec(received.probe, received.stats, EventView::Reported);
    let woke = step_spec(reported.probe, reported.stats, EventView::Woke);
    if sent.result is Ok && received.result is Ok && reported.result is Ok && woke.result is Ok {
        Some(Run { probe: woke.probe, stats: woke.stats })
    } else {
        None
    }
}

/// One cycle after another, for each reception in turn. `None` where any
/// cycle fails.
pub open spec fn cycles(probe: ProbeView, stats: StatsView, receptions: Seq<Reception>) -> Option<
    Run,
>
    decreases receptions.len(),
{
    if receptions.len() == 0 {
        Some(Run { probe, stats })
    } else {
        match cycles(probe, stats, receptions.drop_last()) {
            Some(run) => cycle(run.probe, run.stats, receptions.last()),
            None => None,
        }
    }
}

/// The round-trip times of a run of receptions, in order.
pub open spec fn rtts_of(receptions: Seq<Reception>) -> Seq<u64> {
    Seq::new(receptions.len(), |i: int| receptions[i].rtt_nanos)
}

/// No step ever lowers the sequence number or touches the settings, and
/// only the step that ends a report raises the number, by exactly one.
pub proof fn lemma_step_keeps_settings(probe: ProbeView, stats: StatsView, event: EventView)
    ensures
        ({
            let next = step_spec(probe, stats, event).probe;
            &&& next.identifier == probe.identifier
            &&& next.interval_ms == probe.interval_ms
            &&& next.payload == probe.payload
            &&& next.buffer_len == probe.buffer_len
            &&& next.sequence == probe.sequence || (probe.phase == Phase::Recording && event
                == EventView::Reported && next.sequence == probe.sequence + 1)
        }),
{
}

/// Whatever the driver reports, the statistics stay sound: after any step
/// the replies counted are no more than the requests sent.
pub proof fn lemma_step_keeps_validity(probe: ProbeView, stats: StatsView, event: EventView)
    requires
        stats_valid(stats),
    ensures
        stats_valid(step_spec(probe, stats, event).stats),
        snapshot_of(step_spec(probe, stats, event).stats).replies_received <= snapshot_of(
            step_spec(probe, stats, event).stats,
        ).requests_sent,
{
}

/// Successful cycles use up one sequence number each, so no number is used
/// twice: after `n` cycles the loop is sending the request numbered `n`
/// above the one it started with.
pub proof fn lemma_cycles_advance_sequence(
    probe: ProbeView,
    stats: StatsView,
    receptions: Seq<Reception>,
)
    requires
        cycles(probe, stats, receptions) is Some,
    ensures
        ({
            let end = cycles(probe, stats, receptions)->0.probe;
            &&& end.sequence == probe.sequence + receptions.len()
            &&& receptions.len() > 0 ==> end.phase == Phase::Sending
            &&& end == ProbeView { phase: end.phase, sequence: end.sequence, ..probe }
        }),
    decreases receptions.len(),
{
    if receptions.len() > 0 {
        lemma_cycles_advance_sequence(probe, stats, receptions.drop_last());
    }
}

/// After `n` successful cycles the statistics hold `n` more requests and
/// the `n` round-trip times of those cycles, in order.
pub proof fn lemma_cycles_are_counted(
    probe: ProbeView,
    stats: StatsView,
    receptions: Seq<Reception>,
)
    requires
        stats.rtts.len() <= stats.requests_sent,
        stats.requests_sent + receptions.len() <= u32::MAX,
        cycles(probe, stats, receptions) is Some,
    ensures
        ({
            let end = cycles(probe, stats, receptions)->0.stats;
            &&& end.requests_sent == stats.requests_sent + receptions.len()
            &&& end.rtts == stats.rtts + rtts_of(receptions)
        }),
    decreases receptions.len(),
{
    let end = cycles(probe, stats, receptions)->0.stats;
    if receptions.len() > 0 {
        let front = receptions.drop_last();
        lemma_cycles_are_counted(probe, stats, front);
        assert(end.rtts =~= stats.rtts + rtts_of(receptions));
    } else {
        assert(end.rtts =~= stats.rtts + rtts_of(receptions));
    }
}

/// A run that starts with fresh statistics and completes `n` cycles has
/// sent exactly `n` requests and counted no more than `n` replies.
pub proof fn lemma_fresh_run_counts(probe: ProbeView, receptions: Seq<Reception>)
    requires
        cycles(probe, fresh_stats(), receptions) is Some,
    ensures
        ({
            let end = cycles(probe, fresh_stats(), receptions)->0.stats;
            &&& end.requests_sent == receptions.len()
            &&& end.rtts.len() <= receptions.len()
            &&& end.rtts == rtts_of(receptions)
            &&& snapshot_of(end).requests_sent == receptions.len()
            &&& snapshot_of(end).replies_received <= receptions.len()
        }),
{
    lemma_cycles_advance_sequence(probe, fresh_stats(), receptions);
    lemma_cycles_are_counted(probe, fresh_stats(), receptions);
    let end = cycles(probe, fresh_stats(), receptions)->0.stats;
    assert(end.rtts =~= rtts_of(receptions));
}

} // verus!
