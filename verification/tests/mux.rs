use latbench::codec::{encode, Message};
use latbench::mux::{
    delay_us, effective_run_secs, run_deadline_us, run_reports, step, timeout_due, MuxAction,
    MuxEvent, ReportLine, DEFAULT_RUN_SECS, QUIT_BYTE,
};

fn arrival(m: &Message, recv_seconds: u64, recv_nanos: u32) -> MuxEvent {
    MuxEvent::Arrival { payload: encode(m), recv_seconds, recv_nanos }
}

#[test]
fn timeout_stops() {
    assert_eq!(step(&MuxEvent::Timeout), MuxAction::Stop);
}

#[test]
fn quit_byte_stops() {
    assert_eq!(QUIT_BYTE, b'q');
    assert_eq!(step(&MuxEvent::Console { byte: b'q' }), MuxAction::Stop);
}

#[test]
fn empty_read_pauses() {
    assert_eq!(step(&MuxEvent::Console { byte: 0 }), MuxAction::Pause);
}

#[test]
fn other_bytes_are_ignored() {
    assert_eq!(step(&MuxEvent::Console { byte: b'x' }), MuxAction::Continue);
    assert_eq!(step(&MuxEvent::Console { byte: b'Q' }), MuxAction::Continue);
}

#[test]
fn arrival_reports_message_fields_and_delay() {
    let m = Message { id: 3, seconds: 100, nanos: 456_789_000, jitter: 857 };
    // Received half a second after it was sent.
    let act = step(&arrival(&m, 100, 956_789_000));
    assert_eq!(
        act,
        MuxAction::Report(ReportLine {
            id: 3,
            seconds: 100,
            millis: 456,
            jitter: 857,
            delay_us: 500_000,
        })
    );
}

#[test]
fn arrival_with_bad_payload_reports_decode_error() {
    let act = step(&MuxEvent::Arrival {
        payload: vec![0xDE, 0xAD, 0xBE, 0xEF],
        recv_seconds: 1,
        recv_nanos: 0,
    });
    assert_eq!(act, MuxAction::ReportDecodeError { len: 4 });
}

#[test]
fn truncated_arrival_reports_decode_error_not_partial_message() {
    let m = Message { id: 9, seconds: 50, nanos: 1_000, jitter: 2 };
    let mut payload = encode(&m);
    payload.truncate(payload.len() - 1);
    let len = payload.len();
    let act = step(&MuxEvent::Arrival { payload, recv_seconds: 51, recv_nanos: 0 });
    assert_eq!(act, MuxAction::ReportDecodeError { len });
}

#[test]
fn delay_is_exact_microseconds() {
    assert_eq!(delay_us(10, 500_000_000, 9, 999_999_999), 500_000);
    assert_eq!(delay_us(10, 500_000_000, 10, 500_000_000), 0);
    assert_eq!(delay_us(2, 0, 1, 999_999_000), 1);
}

#[test]
fn zero_duration_times_out_immediately() {
    let start: u64 = 123_456;
    let deadline = run_deadline_us(start, 0);
    assert!(timeout_due(start, deadline));
}

#[test]
fn nonzero_duration_waits() {
    let deadline = run_deadline_us(1_000, 2_000_000);
    assert!(!timeout_due(1_000, deadline));
    assert!(timeout_due(2_001_000, deadline));
}

#[test]
fn run_duration_flag_default() {
    assert_eq!(effective_run_secs(None), DEFAULT_RUN_SECS);
    assert_eq!(effective_run_secs(Some(1)), 1);
}

#[test]
fn timeout_first_run_reports_nothing() {
    let m = Message { id: 0, seconds: 5, nanos: 0, jitter: 0 };
    let events = vec![MuxEvent::Timeout, arrival(&m, 6, 0)];
    assert_eq!(run_reports(&events), vec![]);
}

#[test]
fn quit_first_run_reports_nothing() {
    let m = Message { id: 0, seconds: 5, nanos: 0, jitter: 0 };
    let events = vec![MuxEvent::Console { byte: b'q' }, arrival(&m, 6, 0)];
    assert_eq!(run_reports(&events), vec![]);
}

#[test]
fn ignored_bytes_do_not_cut_the_run() {
    let m = Message { id: 1, seconds: 5, nanos: 0, jitter: 3 };
    let events = vec![
        MuxEvent::Console { byte: b'x' },
        arrival(&m, 6, 0),
        MuxEvent::Console { byte: b'q' },
        arrival(&m, 7, 0),
    ];
    let reports = run_reports(&events);
    assert_eq!(reports.len(), 1);
    assert_eq!(reports[0].id, 1);
    assert_eq!(reports[0].delay_us, 1_000_000);
}

#[test]
fn benchmark_scenario_reports_every_batch_in_order() {
    // Publisher side: 12 ticks of 10 topics at an 80 ms cadence; subscriber
    // sees all 120 messages, then its run deadline fires.
    let mut events = Vec::new();
    let base: i64 = 1_700_000_000;
    for tick in 0..12u32 {
        for id in 0..10i32 {
            let m = Message {
                id,
                seconds: base,
                nanos: (tick * 80_000_000) as i32,
                jitter: id as i64,
            };
            // Local loopback: received 200 microseconds after sending.
            events.push(arrival(&m, base as u64, tick * 80_000_000 + 200_000));
        }
    }
    events.push(MuxEvent::Timeout);
    let reports = run_reports(&events);
    assert_eq!(reports.len(), 120);
    for (k, r) in reports.iter().enumerate() {
        assert_eq!(r.id, (k % 10) as i32);
        assert_eq!(r.millis, ((k / 10) * 80) as i32);
        assert_eq!(r.delay_us, 200);
    }
    // Per-topic send timestamps are monotonically increasing.
    for id in 0..10usize {
        for tick in 1..12usize {
            let prev = &reports[(tick - 1) * 10 + id];
            let cur = &reports[tick * 10 + id];
            assert!((cur.seconds, cur.millis) > (prev.seconds, prev.millis));
        }
    }
}
