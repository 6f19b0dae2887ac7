use port_sniffer::{
    Arguments, ConfigError, ConnectResult, IpAddress, Limiter, PortPhase, ProbeOutcome,
    RecordError, Scan, ScanReport, ScanTarget, Scheduled, Verdict,
};

fn localhost() -> IpAddress {
    IpAddress::V4([127, 0, 0, 1])
}

fn target(start: u16, end: u16, timeout: u64, limit: u16) -> ScanTarget {
    ScanTarget::new(localhost(), start, end, timeout, limit).unwrap()
}

/// Drives a scan to completion. `result_of` gives each port's connection
/// result; `newest_first` picks which in-flight probe finishes next.
/// Returns the report, the number of outcomes collected and the largest
/// number of probes seen holding a permit.
fn drive(
    t: ScanTarget,
    result_of: &dyn Fn(u16) -> ConnectResult,
    newest_first: bool,
) -> (ScanReport, usize, usize) {
    let mut scan = Scan::new(t);
    let mut running: Vec<u16> = Vec::new();
    let mut peak = 0;
    let mut progress = 0;
    while let Some(step) = scan.schedule_next() {
        progress += 1;
        assert_eq!(scan.scheduled_count(), progress);
        if let Scheduled::Launch(p) = step {
            running.push(p);
        }
        peak = peak.max(scan.in_flight());
    }
    let mut outcomes = 0;
    while !running.is_empty() {
        let p = if newest_first { running.pop().unwrap() } else { running.remove(0) };
        let outcome = ProbeOutcome::classify(p, result_of(p));
        outcomes += 1;
        if let Some(next) = scan.record(&outcome).unwrap() {
            running.push(next);
        }
        assert_eq!(scan.in_flight(), running.len());
        peak = peak.max(scan.in_flight());
    }
    assert!(scan.is_complete());
    assert_eq!(scan.collected_count(), outcomes);
    (scan.finish(1234), outcomes, peak)
}

#[test]
fn target_accepts_valid_limits() {
    let t = target(1, 1000, 1000, 100);
    assert_eq!(t.start, 1);
    assert_eq!(t.end, 1000);
    assert_eq!(t.timeout_millis, 1000);
    assert_eq!(t.concurrency_limit, 100);
    assert_eq!(t.port_count(), 1000);
    assert_eq!(target(7, 7, 1, 1).port_count(), 1);
    assert_eq!(target(1, 65535, 1, 1).port_count(), 65535);
}

#[test]
fn target_rejects_each_invalid_limit() {
    let a = localhost();
    assert_eq!(ScanTarget::new(a, 0, 10, 100, 1).unwrap_err(), ConfigError::ZeroStartPort);
    assert_eq!(ScanTarget::new(a, 11, 10, 100, 1).unwrap_err(), ConfigError::InvertedRange);
    assert_eq!(ScanTarget::new(a, 1, 10, 100, 0).unwrap_err(), ConfigError::ZeroConcurrency);
    assert_eq!(ScanTarget::new(a, 1, 10, 0, 1).unwrap_err(), ConfigError::ZeroTimeout);
    assert_eq!(ScanTarget::new(a, 0, 0, 0, 0).unwrap_err(), ConfigError::ZeroStartPort);
}

#[test]
fn arguments_defaults_and_validation() {
    let args = Arguments::with_address(IpAddress::V6([0, 0, 0, 0, 0, 0, 0, 1]));
    assert_eq!(args.start_port, 1);
    assert_eq!(args.end_port, 1000);
    assert_eq!(args.threads, 100);
    assert_eq!(args.output, "result.txt");
    assert_eq!(args.timeout, 1000);
    let t = args.to_target().unwrap();
    assert_eq!(t.address, IpAddress::V6([0, 0, 0, 0, 0, 0, 0, 1]));
    assert_eq!(t.port_count(), 1000);
    let mut bad = args.clone();
    bad.threads = 0;
    assert_eq!(bad.to_target().unwrap_err(), ConfigError::ZeroConcurrency);
}

#[test]
fn classify_each_connect_result() {
    assert_eq!(ProbeOutcome::classify(80, ConnectResult::Connected), ProbeOutcome::Open(80));
    assert_eq!(ProbeOutcome::classify(81, ConnectResult::Refused), ProbeOutcome::Closed(81));
    assert_eq!(ProbeOutcome::classify(82, ConnectResult::Elapsed), ProbeOutcome::TimedOut(82));
    let e = ProbeOutcome::classify(83, ConnectResult::Failed("unreachable".to_string()));
    assert_eq!(e, ProbeOutcome::Error(83, "unreachable".to_string()));
    assert_eq!(e.port(), 83);
    assert_eq!(e.verdict(), Verdict::Failed);
    assert!(!e.is_open());
    assert!(ProbeOutcome::Open(1).is_open());
    assert_eq!(ProbeOutcome::TimedOut(9).verdict(), Verdict::TimedOut);
}

#[test]
fn limiter_grants_then_queues_then_hands_over() {
    let mut l = Limiter::new(2);
    assert!(l.acquire());
    assert!(l.acquire());
    assert!(!l.acquire());
    assert_eq!((l.outstanding(), l.waiting(), l.capacity()), (2, 1, 2));
    assert!(l.release());
    assert_eq!((l.outstanding(), l.waiting()), (2, 0));
    assert!(!l.release());
    assert!(!l.release());
    assert_eq!(l.outstanding(), 0);
    assert!(l.acquire());
}

#[test]
fn scenario_closed_port_gives_empty_report() {
    let t = target(1, 1, 200, 10);
    let (report, outcomes, _) = drive(t, &|_| ConnectResult::Refused, false);
    assert_eq!(outcomes, 1);
    assert!(report.open_ports.is_empty());
    assert_eq!(report.total_open(), 0);
    assert_eq!(report.elapsed_nanos, 1234);
}

#[test]
fn scenario_listening_port_is_reported() {
    let p: u16 = 49152;
    let t = target(p, p, 500, 100);
    let (report, outcomes, _) = drive(t, &|_| ConnectResult::Connected, true);
    assert_eq!(outcomes, 1);
    assert_eq!(report.open_ports, vec![p]);
}

#[test]
fn scenario_eleven_ports_three_permits() {
    let t = target(1000, 1010, 1000, 3);
    for newest_first in [false, true] {
        let (report, outcomes, peak) = drive(t, &|_| ConnectResult::Refused, newest_first);
        assert_eq!(outcomes, 11);
        assert_eq!(peak, 3);
        assert!(report.open_ports.is_empty());
    }
}

#[test]
fn schedules_ascending_and_queues_beyond_limit() {
    let mut scan = Scan::new(target(1000, 1004, 100, 2));
    assert_eq!(scan.schedule_next(), Some(Scheduled::Launch(1000)));
    assert_eq!(scan.schedule_next(), Some(Scheduled::Launch(1001)));
    assert_eq!(scan.schedule_next(), Some(Scheduled::Wait(1002)));
    assert_eq!(scan.schedule_next(), Some(Scheduled::Wait(1003)));
    assert_eq!(scan.schedule_next(), Some(Scheduled::Wait(1004)));
    assert_eq!(scan.schedule_next(), None);
    assert_eq!(scan.in_flight(), 2);
    assert_eq!(scan.limiter().waiting(), 3);
    // The earliest queued port gets the freed permit.
    assert_eq!(scan.record(&ProbeOutcome::Open(1001)), Ok(Some(1002)));
    assert_eq!(scan.record(&ProbeOutcome::TimedOut(1002)), Ok(Some(1003)));
    assert_eq!(scan.record(&ProbeOutcome::Closed(1000)), Ok(Some(1004)));
    assert_eq!(scan.record(&ProbeOutcome::Open(1004)), Ok(None));
    assert!(!scan.is_complete());
    assert_eq!(scan.in_flight(), 1);
    assert_eq!(scan.record(&ProbeOutcome::Error(1003, "reset".to_string())), Ok(None));
    assert!(scan.is_complete());
    assert_eq!(scan.in_flight(), 0);
    assert_eq!(scan.open_ports(), vec![1001, 1004]);
}

#[test]
fn duplicate_and_foreign_outcomes_are_rejected() {
    let mut scan = Scan::new(target(20, 22, 100, 1));
    assert_eq!(scan.schedule_next(), Some(Scheduled::Launch(20)));
    assert_eq!(scan.schedule_next(), Some(Scheduled::Wait(21)));
    assert_eq!(scan.record(&ProbeOutcome::Open(19)), Err(RecordError::OutsideRange(19)));
    assert_eq!(scan.record(&ProbeOutcome::Open(23)), Err(RecordError::OutsideRange(23)));
    // Queued, not yet launched.
    assert_eq!(scan.record(&ProbeOutcome::Open(21)), Err(RecordError::NotProbing(21)));
    // Not yet scheduled.
    assert_eq!(scan.record(&ProbeOutcome::Open(22)), Err(RecordError::NotProbing(22)));
    assert_eq!(scan.collected_count(), 0);
    assert_eq!(scan.record(&ProbeOutcome::Open(20)), Ok(Some(21)));
    // Its outcome was already collected.
    assert_eq!(scan.record(&ProbeOutcome::Closed(20)), Err(RecordError::NotProbing(20)));
    assert_eq!(scan.collected_count(), 1);
    assert_eq!(scan.open_ports(), vec![20]);
}

#[test]
fn every_port_collected_exactly_once() {
    let t = target(1, 300, 100, 7);
    let (_, outcomes, peak) = drive(t, &|p| if p % 2 == 0 { ConnectResult::Connected } else { ConnectResult::Elapsed }, true);
    assert_eq!(outcomes, 300);
    assert!(peak <= 7);
}

#[test]
fn report_sorted_without_duplicates_whatever_the_completion_order() {
    let t = target(100, 160, 100, 8);
    let listening = |p: u16| if p % 7 == 3 || p == 160 { ConnectResult::Connected } else { ConnectResult::Refused };
    let (report, _, _) = drive(t, &listening, true);
    let expected: Vec<u16> = (100..=160).filter(|p| p % 7 == 3 || *p == 160).collect();
    assert_eq!(report.open_ports, expected);
    assert!(report.open_ports.windows(2).all(|w| w[0] < w[1]));
}

#[test]
fn refused_and_timed_out_ports_never_open() {
    let t = target(1, 30, 100, 4);
    let result = |p: u16| match p % 4 {
        0 => ConnectResult::Connected,
        1 => ConnectResult::Refused,
        2 => ConnectResult::Elapsed,
        _ => ConnectResult::Failed("unreachable".to_string()),
    };
    let (report, outcomes, _) = drive(t, &result, false);
    // Timed-out probes count towards completion like any other.
    assert_eq!(outcomes, 30);
    assert_eq!(report.open_ports, vec![4, 8, 12, 16, 20, 24, 28]);
}

#[test]
fn same_target_scanned_twice_gives_same_report() {
    let t = target(500, 540, 100, 5);
    let listening = |p: u16| if p % 5 == 1 { ConnectResult::Connected } else { ConnectResult::Refused };
    let (first, _, _) = drive(t, &listening, false);
    let (second, _, _) = drive(t, &listening, true);
    assert_eq!(first.open_ports, second.open_ports);
    assert_eq!(first.open_ports.len(), 8);
}

#[test]
fn phases_follow_the_scan() {
    let mut scan = Scan::new(target(5, 6, 100, 1));
    assert_eq!(scan.target().start, 5);
    assert_eq!(scan.schedule_next(), Some(Scheduled::Launch(5)));
    assert_eq!(scan.schedule_next(), Some(Scheduled::Wait(6)));
    assert_eq!(scan.record(&ProbeOutcome::Closed(5)), Ok(Some(6)));
    assert_eq!(scan.record(&ProbeOutcome::Closed(6)), Ok(None));
    assert!(scan.is_complete());
    let report = scan.finish(0);
    assert!(report.open_ports.is_empty());
    assert_ne!(PortPhase::Done(Verdict::Open), PortPhase::Done(Verdict::Closed));
}
