//! Subscriber-side event multiplexing: one logical thread waits on three
//! racing event sources — an incoming message, the run-duration timeout, and
//! a console quit byte — and reacts to whichever fires first, looping until
//! a terminal event.
//!
//! The waiting itself is the runtime's business; what is modelled and
//! verified here is the decision: which action each event provokes, how the
//! end-to-end delay is computed, and that the terminal events stop the loop
//! before any further message is reported.

use crate::codec::Message;
use crate::codec::decode;
use crate::codec::parse_message;
use vstd::prelude::*;

verus! {

/// The console byte that asks the subscriber to quit: ASCII 'q'.
pub const QUIT_BYTE: u8 = 113;

/// How long to pause after an empty console read, in microseconds, so a
/// platform whose zero-byte reads return immediately does not peg the CPU.
pub const EMPTY_READ_PAUSE_US: u64 = 1_000_000;

/// The run duration, in seconds, used when no duration was given or the
/// given one did not parse: large enough to be effectively unbounded.
pub const DEFAULT_RUN_SECS: u64 = 1_000_000;

/// What the multiplexer observed in one iteration: exactly one of the three
/// racing sources fired.
#[derive(Debug)]
pub enum MuxEvent {
    /// The run deadline passed.
    Timeout,
    /// A payload arrived; the local receive time is seconds plus sub-second
    /// nanoseconds since the epoch, captured on arrival.
    Arrival { payload: Vec<u8>, recv_seconds: u64, recv_nanos: u32 },
    /// One byte was read from the console.
    Console { byte: u8 },
}

/// One line of the subscriber's report: everything the console line carries
/// except the formatted receive timestamp, which is presentation.
#[derive(Clone, Copy, Debug, PartialEq, Eq, Structural)]
pub struct ReportLine {
    /// Topic slot that produced the message.
    pub id: i32,
    /// Send time, whole seconds.
    pub seconds: i64,
    /// Send time, sub-second part in whole milliseconds.
    pub millis: i32,
    /// Scheduling jitter the publisher measured, in microseconds.
    pub jitter: i64,
    /// End-to-end delay from send time to receive time, in microseconds.
    pub delay_us: u128,
}

/// What the loop does in response to one event.
#[derive(Clone, Copy, Debug, PartialEq, Eq, Structural)]
pub enum MuxAction {
    /// Leave the loop: the run is over.
    Stop,
    /// Emit one report line and keep looping.
    Report(ReportLine),
    /// The payload did not decode: report the error with the payload length
    /// for diagnosis, drop it, keep looping.
    ReportDecodeError { len: usize },
    /// Nothing typed yet: pause briefly before the next read attempt.
    Pause,
    /// An uninteresting byte: keep waiting.
    Continue,
}

/// Total nanoseconds of a seconds + nanoseconds timestamp.
pub open spec fn total_nanos(seconds: int, nanos: int) -> int {
    seconds * 1_000_000_000 + nanos
}

/// End-to-end delay in whole microseconds between two timestamps.
pub open spec fn delay_micros(
    recv_seconds: int,
    recv_nanos: int,
    send_seconds: int,
    send_nanos: int,
) -> int {
    (total_nanos(recv_seconds, recv_nanos) - total_nanos(send_seconds, send_nanos)) / 1000
}

/// An arrival the subscriber can account for: the receive clock is sane,
/// and a payload that decodes carries a timestamp in range and no later
/// than the receive time. A message that claims to have been sent after it
/// was received has no meaningful delay, so such inputs are excluded
/// rather than given a behaviour.
pub open spec fn event_wf(e: MuxEvent) -> bool {
    match e {
        MuxEvent::Arrival { payload, recv_seconds, recv_nanos } => recv_nanos < 1_000_000_000
            && (match parse_message(payload@) {
            Some(m) => 0 <= m.seconds && 0 <= m.nanos < 1_000_000_000 && total_nanos(
                m.seconds as int,
                m.nanos as int,
            ) <= total_nanos(recv_seconds as int, recv_nanos as int),
            None => true,
        }),
        _ => true,
    }
}

/// The report line a well-formed arrival produces for message `m`.
pub open spec fn report_of(m: Message, recv_seconds: u64, recv_nanos: u32) -> ReportLine {
    ReportLine {
        id: m.id,
        seconds: m.seconds,
        millis: (m.nanos / 1_000_000) as i32,
        jitter: m.jitter,
        delay_us: delay_micros(
            recv_seconds as int,
            recv_nanos as int,
            m.seconds as int,
            m.nanos as int,
        ) as u128,
    }
}

/// The action each event provokes. Timeout and the quit byte stop the loop;
/// an empty console read pauses; any other byte is ignored; an arrival is
/// decoded and reported, or reported as a decode error and dropped.
pub open spec fn action_of(e: MuxEvent) -> MuxAction {
    match e {
        MuxEvent::Timeout => MuxAction::Stop,
        MuxEvent::Console { byte } => if byte == QUIT_BYTE {
            MuxAction::Stop
        } else if byte == 0 {
            MuxAction::Pause
        } else {
            MuxAction::Continue
        },
        MuxEvent::Arrival { payload, recv_seconds, recv_nanos } => match parse_message(payload@) {
            Some(m) => MuxAction::Report(report_of(m, recv_seconds, recv_nanos)),
            None => MuxAction::ReportDecodeError { len: payload@.len() as usize },
        },
    }
}

/// The single-shot run deadline, computed once at startup and immutable
/// thereafter.
pub fn run_deadline_us(start_us: u64, duration_us: u64) -> (r: u64)
    requires
        start_us + duration_us <= u64::MAX,
    ensures
        r == start_us + duration_us,
{
    start_us + duration_us
}

/// Has the run deadline been reached? With a zero run duration the deadline
/// equals the start time, so this fires on the very first check.
pub fn timeout_due(now_us: u64, deadline_us: u64) -> (r: bool)
    ensures
        r == (now_us >= deadline_us),
{
    now_us >= deadline_us
}

/// The effective run duration in seconds: the parsed value of the duration
/// flag, or the effectively-unbounded default when absent or unparsable.
pub fn effective_run_secs(parsed: Option<u64>) -> (r: u64)
    ensures
        (match parsed {
            Some(v) => r == v,
            None => r == DEFAULT_RUN_SECS,
        }),
{
    match parsed {
        Some(v) => v,
        None => DEFAULT_RUN_SECS,
    }
}

/// End-to-end delay from send to receive: the nanosecond difference of the
/// two timestamps, in whole microseconds.
pub fn delay_us(recv_seconds: u64, recv_nanos: u32, send_seconds: i64, send_nanos: i32) -> (r:
    u128)
    requires
        0 <= send_seconds,
        0 <= send_nanos < 1_000_000_000,
        recv_nanos < 1_000_000_000,
        total_nanos(send_seconds as int, send_nanos as int) <= total_nanos(
            recv_seconds as int,
            recv_nanos as int,
        ),
    ensures
        r == delay_micros(
            recv_seconds as int,
            recv_nanos as int,
            send_seconds as int,
            send_nanos as int,
        ),
{
    let recv_total: u128 = (recv_seconds as u128) * 1_000_000_000 + (recv_nanos as u128);
    let send_total: u128 = (send_seconds as u128) * 1_000_000_000 + (send_nanos as u128);
    (recv_total - send_total) / 1000
}

/// Maps one event to the action the loop takes. The whole decision of the
/// multiplexer body lives here; the caller only performs the action.
pub fn step(event: &MuxEvent) -> (r: MuxAction)
    requires
        event_wf(*event),
    ensures
        r == action_of(*event),
{
    match event {
        MuxEvent::Timeout => MuxAction::Stop,
        MuxEvent::Console { byte } => {
            if *byte == QUIT_BYTE {
                MuxAction::Stop
            } else if *byte == 0 {
                MuxAction::Pause
            } else {
                MuxAction::Continue
            }
        },
        MuxEvent::Arrival { payload, recv_seconds, recv_nanos } => {
            match decode(payload.as_slice()) {
                Ok(m) => {
                    let d = delay_us(*recv_seconds, *recv_nanos, m.seconds, m.nanos);
                    MuxAction::Report(
                        ReportLine {
                            id: m.id,
                            seconds: m.seconds,
                            millis: m.nanos / 1_000_000,
                            jitter: m.jitter,
                            delay_us: d,
                        },
                    )
                },
                Err(_) => MuxAction::ReportDecodeError { len: payload.len() },
            }
        },
    }
}

/// The report lines a whole run emits on a given event sequence: events are
/// serviced in order, report lines accumulate, and the first terminal
/// action cuts the run short.
pub open spec fn reports_of(events: Seq<MuxEvent>) -> Seq<ReportLine>
    decreases events.len(),
{
    if events.len() == 0 {
        Seq::empty()
    } else {
        match action_of(events[0]) {
            MuxAction::Stop => Seq::empty(),
            MuxAction::Report(line) => seq![line] + reports_of(events.skip(1)),
            _ => reports_of(events.skip(1)),
        }
    }
}

/// Replays the multiplexer loop over a pre-captured event sequence and
/// returns the report lines it would emit, stopping at the first terminal
/// event. The live loop in a running subscriber performs the same steps one
/// event at a time through `step`.
pub fn run_reports(events: &Vec<MuxEvent>) -> (r: Vec<ReportLine>)
    requires
        forall|i: int| 0 <= i < events@.len() ==> event_wf(events@[i]),
    ensures
        r@ == reports_of(events@),
{
    let mut out: Vec<ReportLine> = Vec::new();
    let n = events.len();
    let mut k: usize = 0;
    proof {
        assert(events@.skip(0) =~= events@);
        assert(Seq::<ReportLine>::empty() + reports_of(events@) =~= reports_of(events@));
    }
    while k < n
        invariant
            n == events@.len(),
            k <= n,
            forall|i: int| 0 <= i < events@.len() ==> event_wf(events@[i]),
            reports_of(events@) == out@ + reports_of(events@.skip(k as int)),
        decreases n - k,
    {
        proof {
            assert(events@.skip(k as int)[0] == events@[k as int]);
            assert(events@.skip(k as int).skip(1) =~= events@.skip(k as int + 1));
        }
        match step(&events[k]) {
            MuxAction::Stop => {
                proof {
                    assert(reports_of(events@.skip(k as int)) =~= Seq::<ReportLine>::empty());
                    assert(out@ + Seq::<ReportLine>::empty() =~= out@);
                }
                return out;
            },
            MuxAction::Report(line) => {
                out.push(line);
                proof {
                    assert(out@ + reports_of(events@.skip(k as int + 1)) =~= reports_of(
                        events@,
                    ));
                }
            },
            _ => {},
        }
        k = k + 1;
    }
    proof {
        assert(reports_of(events@.skip(n as int)) =~= Seq::<ReportLine>::empty());
        assert(out@ + Seq::<ReportLine>::empty() =~= out@);
    }
    out
}

/// A timeout that fires before anything else ends the run with no message
/// processed: with a zero run duration this is the first iteration.
pub proof fn lemma_timeout_first_no_reports(events: Seq<MuxEvent>)
    requires
        events.len() > 0,
        events[0] is Timeout,
    ensures
        action_of(events[0]) == MuxAction::Stop,
        reports_of(events) == Seq::<ReportLine>::empty(),
{
}

/// A quit byte that arrives before any message ends the run with no message
/// reported.
pub proof fn lemma_quit_first_no_reports(events: Seq<MuxEvent>)
    requires
        events.len() > 0,
        events[0] matches MuxEvent::Console { byte } && byte == QUIT_BYTE,
    ensures
        action_of(events[0]) == MuxAction::Stop,
        reports_of(events) == Seq::<ReportLine>::empty(),
{
}

} // verus!
