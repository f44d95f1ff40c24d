use porter::addr::Addr;
use porter::addr::Block;
use porter::config::Selector;
use porter::config::TargetSpec;
use porter::report::ProbeOutcome;
use porter::report::report_lines;
use porter::schedule::ScanEvent;
use porter::schedule::Scheduler;
use porter::source::AddressSource;
use porter::text::format_started;

fn collect_addrs(sel: &Selector) -> Vec<Addr> {
    let mut src = AddressSource::new(sel);
    let mut out = Vec::new();
    while let Some(a) = src.next() {
        out.push(a);
    }
    out
}

fn collect_events(t: &TargetSpec) -> Vec<ScanEvent> {
    let mut sched = Scheduler::new(t);
    let mut out = Vec::new();
    while let Some(ev) = sched.next_event() {
        out.push(ev);
    }
    out
}

#[test]
fn single_address_expands_to_itself() {
    let a = Addr::V4(0x7f00_0001);
    assert_eq!(collect_addrs(&Selector::One(a)), vec![a]);
}

#[test]
fn block_expands_ascending_each_once() {
    let b = Block::new(Addr::V4(0x0a00_0000), 30).unwrap();
    let addrs = collect_addrs(&Selector::Net(b));
    assert_eq!(
        addrs,
        vec![
            Addr::V4(0x0a00_0000),
            Addr::V4(0x0a00_0001),
            Addr::V4(0x0a00_0002),
            Addr::V4(0x0a00_0003),
        ]
    );
}

#[test]
fn v6_block_expands_ascending_each_once() {
    let b = Block::new(Addr::V6(0xffff_fffc), 126).unwrap();
    let addrs = collect_addrs(&Selector::Net(b));
    assert_eq!(
        addrs,
        vec![
            Addr::V6(0xffff_fffc),
            Addr::V6(0xffff_fffd),
            Addr::V6(0xffff_fffe),
            Addr::V6(0xffff_ffff),
        ]
    );
}

#[test]
fn host_block_expands_to_one_address() {
    let b = Block::new(Addr::V4(0x7f00_0001), 32).unwrap();
    assert_eq!(collect_addrs(&Selector::Net(b)), vec![Addr::V4(0x7f00_0001)]);
}

#[test]
fn wide_block_is_lazy() {
    let b = Block::new(Addr::V4(0), 0).unwrap();
    let mut src = AddressSource::new(&Selector::Net(b));
    assert_eq!(src.next(), Some(Addr::V4(0)));
    assert_eq!(src.next(), Some(Addr::V4(1)));
}

#[test]
fn scan_of_one_port_is_started_then_probe() {
    let a = Addr::V4(0x7f00_0001);
    let t = TargetSpec { sel: Selector::One(a), port_start: 80, port_end: 80 };
    let events = collect_events(&t);
    assert_eq!(events, vec![ScanEvent::Started(a), ScanEvent::Probe(a, 80)]);
}

#[test]
fn ports_are_probed_ascending_after_started() {
    let a = Addr::V4(0x7f00_0001);
    let t = TargetSpec { sel: Selector::One(a), port_start: 10, port_end: 13 };
    let events = collect_events(&t);
    assert_eq!(
        events,
        vec![
            ScanEvent::Started(a),
            ScanEvent::Probe(a, 10),
            ScanEvent::Probe(a, 11),
            ScanEvent::Probe(a, 12),
            ScanEvent::Probe(a, 13),
        ]
    );
}

#[test]
fn range_ending_at_the_top_port_terminates() {
    let a = Addr::V4(0x7f00_0001);
    let t = TargetSpec { sel: Selector::One(a), port_start: 65534, port_end: 65535 };
    let events = collect_events(&t);
    assert_eq!(
        events,
        vec![ScanEvent::Started(a), ScanEvent::Probe(a, 65534), ScanEvent::Probe(a, 65535)]
    );
}

#[test]
fn block_scan_emits_one_started_line_per_address() {
    let b = Block::new(Addr::V4(0x0a00_0000), 30).unwrap();
    let t = TargetSpec { sel: Selector::Net(b), port_start: 22, port_end: 22 };
    let events = collect_events(&t);
    assert_eq!(events.len(), 8);
    let mut started = Vec::new();
    for ev in &events {
        if let ScanEvent::Started(a) = ev {
            started.push(*a);
        }
    }
    assert_eq!(
        started,
        vec![
            Addr::V4(0x0a00_0000),
            Addr::V4(0x0a00_0001),
            Addr::V4(0x0a00_0002),
            Addr::V4(0x0a00_0003),
        ]
    );
    // each address's probe follows its own "scan started" event
    for (i, ev) in events.iter().enumerate() {
        if i % 2 == 0 {
            assert!(matches!(ev, ScanEvent::Started(_)));
        } else {
            assert!(matches!(ev, ScanEvent::Probe(_, 22)));
        }
    }
}

#[test]
fn every_probe_stays_within_the_target() {
    let b = Block::new(Addr::V4(0x0a00_0000), 30).unwrap();
    let t = TargetSpec { sel: Selector::Net(b), port_start: 5, port_end: 9 };
    let addrs = collect_addrs(&Selector::Net(b));
    for ev in collect_events(&t) {
        match ev {
            ScanEvent::Started(a) => assert!(addrs.contains(&a)),
            ScanEvent::Probe(a, p) => {
                assert!(addrs.contains(&a));
                assert!((5..=9).contains(&p));
            },
        }
    }
}

#[test]
fn no_outcomes_means_no_open_port_lines() {
    let a = Addr::V4(0x7f00_0001);
    let t = TargetSpec { sel: Selector::One(a), port_start: 80, port_end: 80 };
    let started = format_started(&a, t.port_start, t.port_end);
    assert_eq!(started.as_str(), "? 127.0.0.1:80-80");
    let lines = report_lines(&Vec::new());
    assert!(lines.is_empty());
}

#[test]
fn one_outcome_means_exactly_one_open_port_line() {
    let a = Addr::V4(0x7f00_0001);
    let outcomes = vec![ProbeOutcome::new(a, 9000)];
    let lines = report_lines(&outcomes);
    assert_eq!(lines.len(), 1);
    assert_eq!(lines[0].as_str(), "= 127.0.0.1:9000");
}

#[test]
fn reported_lines_are_the_same_set_whatever_the_arrival_order() {
    let a = Addr::V4(0x0a00_0000);
    let b = Addr::V4(0x0a00_0001);
    let first = vec![ProbeOutcome::new(a, 22), ProbeOutcome::new(b, 80), ProbeOutcome::new(a, 443)];
    let second = vec![
        ProbeOutcome::new(a, 443),
        ProbeOutcome::new(a, 22),
        ProbeOutcome::new(b, 80),
    ];
    let mut lines1: Vec<String> = report_lines(&first).into_iter().collect();
    let mut lines2: Vec<String> = report_lines(&second).into_iter().collect();
    lines1.sort();
    lines2.sort();
    assert_eq!(lines1, lines2);
}

#[test]
fn scan_events_matches_the_scheduler() {
    let b = Block::new(Addr::V4(0x0a00_0000), 30).unwrap();
    let t = TargetSpec { sel: Selector::Net(b), port_start: 22, port_end: 23 };
    assert_eq!(porter::schedule::scan_events(&t), collect_events(&t));
    let a = Addr::V6(0x2001_0db8_0000_0000_0000_0000_0000_0001);
    let t6 = TargetSpec { sel: Selector::One(a), port_start: 1, port_end: 4 };
    assert_eq!(porter::schedule::scan_events(&t6), collect_events(&t6));
}

#[test]
fn rescanning_the_same_target_enumerates_the_same_probes() {
    let b = Block::new(Addr::V4(0x0a00_0000), 31).unwrap();
    let t = TargetSpec { sel: Selector::Net(b), port_start: 1, port_end: 3 };
    assert_eq!(collect_events(&t), collect_events(&t));
}
