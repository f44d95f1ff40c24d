//! The probe scheduler: enumerates every scan event of a target in a fixed
//! order.
//!
//! For each address of the target, in the order the address source yields
//! them, the scheduler first emits a "scan started" event, then one probe
//! event per port of the range in ascending order. The caller launches one
//! connection attempt per probe event; the scheduler itself never waits for
//! one to finish, so the fan-out it drives is unbounded.

use vstd::prelude::*;
use vstd::arithmetic::div_mod::lemma_fundamental_div_mod_converse;
use vstd::arithmetic::div_mod::lemma_mod_pos_bound;
use vstd::arithmetic::div_mod::lemma_multiply_divide_lt;
use vstd::arithmetic::mul::lemma_mul_inequality;
use crate::addr::Addr;
use crate::config::Selector;
use crate::config::TargetSpec;
use crate::source::AddressSource;
use crate::source::sel_addrs;

verus! {

/// One step of a scan, in the order the scheduler performs them.
#[derive(Clone, Copy, PartialEq, Eq, Structural, Debug)]
pub enum ScanEvent {
    /// The scan of this address over the whole port range begins.
    Started(Addr),
    /// One connection attempt against this (address, port) pair is launched.
    Probe(Addr, u16),
}

/// How many events one address contributes: its "scan started" event plus
/// one probe per port of the range.
pub open spec fn stride(t: TargetSpec) -> int {
    t.port_end - t.port_start + 2
}

/// How many events the whole scan of a target has.
pub open spec fn total_events(t: TargetSpec) -> int {
    sel_addrs(t.sel).len() * stride(t)
}

/// The `k`-th event of a target's scan: within each address's stride of
/// events, offset 0 is the "scan started" event and offset `j + 1` is the
/// probe of the `j`-th port of the range.
pub open spec fn event_at(t: TargetSpec, k: int) -> ScanEvent {
    let a = sel_addrs(t.sel)[k / stride(t)];
    let off = k % stride(t);
    if off == 0 {
        ScanEvent::Started(a)
    } else {
        ScanEvent::Probe(a, (t.port_start + off - 1) as u16)
    }
}

/// A traversal of a target's scan events.
pub struct Scheduler {
    ports: Ghost<(u16, u16)>,
    pos: Ghost<int>,
    src: AddressSource,
    cur: Option<Addr>,
    next_port: u16,
    port_start: u16,
    port_end: u16,
}

impl Scheduler {
    /// The target this scheduler enumerates.
    pub closed spec fn target(self) -> TargetSpec {
        TargetSpec { sel: self.src.sel(), port_start: self.ports@.0, port_end: self.ports@.1 }
    }

    /// How many events have been yielded so far.
    pub closed spec fn pos(self) -> int {
        self.pos@
    }

    /// The scheduler's invariant: the traversal state matches the position.
    pub closed spec fn wf(self) -> bool {
        &&& self.target().wf()
        &&& self.src.wf()
        &&& self.port_start == self.ports@.0
        &&& self.port_end == self.ports@.1
        &&& match self.cur {
            Some(a) => {
                let ai = self.src.idx() - 1;
                &&& 0 <= ai < sel_addrs(self.src.sel()).len()
                &&& a == sel_addrs(self.src.sel())[ai]
                &&& self.port_start <= self.next_port <= self.port_end
                &&& self.pos@ == ai * stride(self.target()) + 1 + self.next_port
                    - self.port_start
            },
            None => self.pos@ == self.src.idx() * stride(self.target()),
        }
    }

    /// Start enumerating a target's scan events.
    pub fn new(t: &TargetSpec) -> (s: Scheduler)
        requires
            t.wf(),
        ensures
            s.wf(),
            s.target() == *t,
            s.pos() == 0,
    {
        Scheduler {
            ports: Ghost((t.port_start, t.port_end)),
            pos: Ghost(0int),
            src: AddressSource::new(&t.sel),
            cur: None,
            next_port: t.port_start,
            port_start: t.port_start,
            port_end: t.port_end,
        }
    }

    /// Yield the next scan event, or `None` once the whole scan has been
    /// enumerated. Events come in the order of `event_at`.
    pub fn next_event(&mut self) -> (r: Option<ScanEvent>)
        requires
            old(self).wf(),
        ensures
            final(self).wf(),
            final(self).target() == old(self).target(),
            old(self).pos() < total_events(old(self).target()) ==> {
                &&& r == Some(event_at(old(self).target(), old(self).pos()))
                &&& final(self).pos() == old(self).pos() + 1
            },
            old(self).pos() == total_events(old(self).target()) ==> {
                &&& r is None
                &&& final(self).pos() == old(self).pos()
            },
    {
        let ghost t: TargetSpec = self.target();
        let ghost len: int = sel_addrs(self.src.sel()).len() as int;
        proof {
            crate::source::lemma_source_position(self.src);
        }
        match self.cur {
            None => {
                let ghost ai: int = self.src.idx();
                match self.src.next() {
                    None => {
                        proof {
                            assert(ai == len);
                            assert(self.pos@ == total_events(t));
                        }
                        None
                    },
                    Some(a) => {
                        self.cur = Some(a);
                        self.next_port = self.port_start;
                        proof {
                            assert(ai < len);
                            lemma_mul_inequality(ai + 1, len, stride(t));
                            assert((ai + 1) * stride(t) == ai * stride(t) + stride(t)) by (nonlinear_arith);
                            lemma_fundamental_div_mod_converse(
                                ai * stride(t),
                                stride(t),
                                ai,
                                0,
                            );
                            self.pos@ = self.pos@ + 1;
                        }
                        Some(ScanEvent::Started(a))
                    },
                }
            },
            Some(a) => {
                let ghost ai: int = self.src.idx() - 1;
                let ghost off: int = 1 + self.next_port - self.port_start;
                let p = self.next_port;
                if p == self.port_end {
                    self.cur = None;
                } else {
                    self.next_port = p + 1;
                }
                proof {
                    lemma_mul_inequality(ai + 1, len, stride(t));
                    assert((ai + 1) * stride(t) == ai * stride(t) + stride(t)) by (nonlinear_arith);
                    lemma_fundamental_div_mod_converse(
                        ai * stride(t) + off,
                        stride(t),
                        ai,
                        off,
                    );
                    self.pos@ = self.pos@ + 1;
                }
                Some(ScanEvent::Probe(a, p))
            },
        }
    }
}

/// The whole scan plan of a target, materialised: event `k` of the result
/// is `event_at(t, k)`. Useful where the plan is small enough to hold; wide
/// scans drive the `Scheduler` directly instead.
pub fn scan_events(t: &TargetSpec) -> (evs: Vec<ScanEvent>)
    requires
        t.wf(),
        total_events(*t) <= usize::MAX,
    ensures
        evs@.len() == total_events(*t),
        forall|k: int| 0 <= k < evs@.len() ==> evs@[k] == event_at(*t, k),
{
    let mut sched = Scheduler::new(t);
    let mut evs: Vec<ScanEvent> = Vec::new();
    let mut done = false;
    while !done
        invariant
            sched.wf(),
            sched.target() == *t,
            sched.pos() == evs@.len(),
            evs@.len() <= total_events(*t) <= usize::MAX,
            forall|k: int| 0 <= k < evs@.len() ==> evs@[k] == event_at(*t, k),
            done ==> evs@.len() == total_events(*t),
        decreases total_events(*t) - sched.pos() + (if done {
            0int
        } else {
            1int
        }),
    {
        proof {
            lemma_scheduler_position(sched);
        }
        match sched.next_event() {
            Some(ev) => evs.push(ev),
            None => done = true,
        }
    }
    evs
}

/// A well-formed scheduler stands somewhere between the first event and one
/// past the last; in particular a scan has `total_events` of them, never
/// fewer than zero.
pub proof fn lemma_scheduler_position(s: Scheduler)
    requires
        s.wf(),
    ensures
        0 <= s.pos() <= total_events(s.target()),
        s.target().wf(),
{
    let t = s.target();
    let len = sel_addrs(t.sel).len() as int;
    crate::source::lemma_source_position(s.src);
    match s.cur {
        Some(_) => {
            let ai = s.src.idx() - 1;
            lemma_mul_inequality(ai + 1, len, stride(t));
            assert((ai + 1) * stride(t) == ai * stride(t) + stride(t)) by (nonlinear_arith);
            assert(ai * stride(t) >= 0) by (nonlinear_arith)
                requires
                    ai >= 0 && stride(t) >= 0,
            ;
        },
        None => {
            lemma_mul_inequality(s.src.idx(), len, stride(t));
            assert(s.src.idx() * stride(t) >= 0) by (nonlinear_arith)
                requires
                    s.src.idx() >= 0 && stride(t) >= 0,
            ;
        },
    }
}

/// How the scan of the `ai`-th address is laid out: its "scan started"
/// event comes before any of its probes, and its ports are probed in
/// ascending order, the `j`-th probe taking port `port_start + j`.
pub proof fn lemma_address_layout(t: TargetSpec, ai: int, j: int)
    requires
        t.wf(),
        0 <= ai < sel_addrs(t.sel).len(),
        0 <= j <= t.port_end - t.port_start,
    ensures
        event_at(t, ai * stride(t)) == ScanEvent::Started(sel_addrs(t.sel)[ai]),
        event_at(t, ai * stride(t) + 1 + j) == ScanEvent::Probe(
            sel_addrs(t.sel)[ai],
            (t.port_start + j) as u16,
        ),
        0 <= ai * stride(t) < ai * stride(t) + 1 + j < total_events(t),
{
    let len = sel_addrs(t.sel).len() as int;
    lemma_mul_inequality(ai + 1, len, stride(t));
    assert((ai + 1) * stride(t) == ai * stride(t) + stride(t)) by (nonlinear_arith);
    assert(ai * stride(t) >= 0) by (nonlinear_arith)
        requires
            ai >= 0 && stride(t) >= 0,
    ;
    lemma_fundamental_div_mod_converse(ai * stride(t), stride(t), ai, 0);
    lemma_fundamental_div_mod_converse(ai * stride(t) + 1 + j, stride(t), ai, 1 + j);
}

/// Every event of a scan concerns an address the target covers; every probe
/// event's port lies within the target's range.
pub proof fn lemma_events_within_target(t: TargetSpec)
    requires
        t.wf(),
    ensures
        forall|k: int|
            0 <= k < total_events(t) ==> match #[trigger] event_at(t, k) {
                ScanEvent::Started(a) => t.sel.covers(a),
                ScanEvent::Probe(a, p) => t.sel.covers(a) && t.port_start <= p <= t.port_end,
            },
{
    let len = sel_addrs(t.sel).len() as int;
    assert forall|k: int| 0 <= k < total_events(t) implies match #[trigger] event_at(t, k) {
        ScanEvent::Started(a) => t.sel.covers(a),
        ScanEvent::Probe(a, p) => t.sel.covers(a) && t.port_start <= p <= t.port_end,
    } by {
        lemma_multiply_divide_lt(k, stride(t), len);
        lemma_mod_pos_bound(k, stride(t));
        vstd::arithmetic::div_mod::lemma_div_pos_is_pos(k, stride(t));
        let ai = k / stride(t);
        let a = sel_addrs(t.sel)[ai];
        lemma_addr_covered(t, ai);
    }
}

/// Each address of a target's expansion is covered by its selector.
proof fn lemma_addr_covered(t: TargetSpec, ai: int)
    requires
        t.wf(),
        0 <= ai < sel_addrs(t.sel).len(),
    ensures
        t.sel.covers(sel_addrs(t.sel)[ai]),
{
    match t.sel {
        Selector::One(_) => {},
        Selector::Net(b) => {
            crate::addr::lemma_block_fits(b);
            crate::addr::lemma_pow2_values();
            assert(sel_addrs(t.sel)[ai] == b.addr_at(ai));
        },
    }
}

} // verus!
