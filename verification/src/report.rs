//! The result reporter: turns collected probe outcomes into "open port"
//! lines.
//!
//! Outcomes arrive from many concurrent probes through a bounded channel, so
//! their order is unspecified; the reporter prints one line per outcome, in
//! arrival order. What set of lines a scan produces is insensitive to that
//! order.

use vstd::prelude::*;
use crate::addr::Addr;
use crate::text::open_port_line;
use crate::text::format_open_port;

verus! {

/// One confirmed open port: the (address, port) pair whose connection
/// attempt succeeded.
#[derive(Clone, Copy, PartialEq, Eq, Structural, Debug)]
pub struct ProbeOutcome {
    pub addr: Addr,
    pub port: u16,
}

impl ProbeOutcome {
    /// Pack one confirmed (address, port) pair.
    pub fn new(addr: Addr, port: u16) -> (r: ProbeOutcome)
        ensures
            r == (ProbeOutcome { addr, port }),
    {
        ProbeOutcome { addr, port }
    }
}

/// The line one outcome prints as.
pub open spec fn outcome_line(o: ProbeOutcome) -> Seq<char> {
    open_port_line(o.addr, o.port)
}

/// The set of lines a sequence of outcomes prints as.
pub open spec fn reported_lines(outcomes: Seq<ProbeOutcome>) -> Set<Seq<char>> {
    Set::new(|l: Seq<char>| exists|o: ProbeOutcome| #[trigger] outcomes.contains(o) && l == outcome_line(o))
}

/// One "open port" line per outcome, in arrival order.
pub fn report_lines(outcomes: &Vec<ProbeOutcome>) -> (lines: Vec<String>)
    ensures
        lines@.len() == outcomes@.len(),
        forall|i: int|
            0 <= i < outcomes@.len() ==> (#[trigger] lines@[i])@ == outcome_line(outcomes@[i]),
{
    let mut lines: Vec<String> = Vec::new();
    let mut i: usize = 0;
    while i < outcomes.len()
        invariant
            i <= outcomes@.len(),
            lines@.len() == i,
            forall|j: int|
                0 <= j < i ==> (#[trigger] lines@[j])@ == outcome_line(outcomes@[j]),
        decreases outcomes@.len() - i,
    {
        let o = &outcomes[i];
        lines.push(format_open_port(&o.addr, o.port));
        i = i + 1;
    }
    lines
}

/// What `report_lines` prints, taken as a set, is exactly the reported-line
/// set of the outcomes it was given.
pub proof fn lemma_report_lines_set(outcomes: Seq<ProbeOutcome>, lines: Seq<Seq<char>>)
    requires
        lines.len() == outcomes.len(),
        forall|i: int| 0 <= i < outcomes.len() ==> #[trigger] lines[i] == outcome_line(outcomes[i]),
    ensures
        Set::new(|l: Seq<char>| lines.contains(l)) == reported_lines(outcomes),
{
    let printed = Set::new(|l: Seq<char>| lines.contains(l));
    assert forall|l: Seq<char>| printed.contains(l) implies reported_lines(outcomes).contains(
        l,
    ) by {
        let i = choose|i: int| 0 <= i < lines.len() && lines[i] == l;
        assert(outcomes.contains(outcomes[i]));
    }
    assert forall|l: Seq<char>| reported_lines(outcomes).contains(l) implies printed.contains(
        l,
    ) by {
        let o = choose|o: ProbeOutcome| outcomes.contains(o) && l == outcome_line(o);
        let i = choose|i: int| 0 <= i < outcomes.len() && outcomes[i] == o;
        assert(lines[i] == l);
        assert(lines.contains(lines[i]));
    }
    assert(printed =~= reported_lines(outcomes));
}

/// Two runs that collect the same outcomes — however the concurrent probes
/// happened to interleave — report the same set of lines.
pub proof fn lemma_report_order_insensitive(o1: Seq<ProbeOutcome>, o2: Seq<ProbeOutcome>)
    requires
        o1.to_multiset() == o2.to_multiset(),
    ensures
        reported_lines(o1) == reported_lines(o2),
{
    broadcast use vstd::seq_lib::group_seq_properties;

    o1.to_multiset_ensures();
    o2.to_multiset_ensures();
    assert forall|o: ProbeOutcome| o1.contains(o) <==> o2.contains(o) by {
        assert(o1.contains(o) <==> o1.to_multiset().count(o) > 0);
        assert(o2.contains(o) <==> o2.to_multiset().count(o) > 0);
    }
    assert(reported_lines(o1) =~= reported_lines(o2));
}

} // verus!
