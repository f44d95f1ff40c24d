//! The address source: expands a target selector into its sequence of
//! addresses, one at a time.
//!
//! A single address expands to the one-element sequence; a block expands to
//! every address it covers, in ascending numeric order. The expansion is
//! lazy and forward-only, so a block too wide to materialise still costs
//! constant space.

use vstd::prelude::*;
use vstd::arithmetic::power2::pow2;
use crate::addr::Addr;
use crate::addr::Block;
use crate::addr::low_mask;
use crate::addr::lemma_block_fits;
use crate::addr::lemma_pow2_values;
use crate::config::Selector;

verus! {

/// The full sequence of addresses a selector stands for.
pub open spec fn sel_addrs(s: Selector) -> Seq<Addr> {
    match s {
        Selector::One(a) => seq![a],
        Selector::Net(b) => Seq::new(b.size(), |i: int| b.addr_at(i)),
    }
}

/// Where the traversal stands.
#[derive(Clone, Copy)]
enum State {
    /// A single address, not yet yielded.
    One(Addr),
    /// Inside a block: the value to yield next and the value of the block's
    /// last address.
    Net { block: Block, cur: u128, last: u128 },
    /// Every address has been yielded.
    Done,
}

/// A forward-only traversal of a selector's addresses.
pub struct AddressSource {
    sel: Ghost<Selector>,
    idx: Ghost<int>,
    state: State,
}

impl AddressSource {
    /// The selector this source traverses.
    pub closed spec fn sel(self) -> Selector {
        self.sel@
    }

    /// How many addresses have been yielded so far.
    pub closed spec fn idx(self) -> int {
        self.idx@
    }

    /// The source's invariant: the traversal state matches the position.
    pub closed spec fn wf(self) -> bool {
        &&& self.sel@.wf()
        &&& 0 <= self.idx@ <= sel_addrs(self.sel@).len()
        &&& match self.state {
            State::One(a) => self.sel@ == Selector::One(a) && self.idx@ == 0,
            State::Net { block, cur, last } => {
                &&& self.sel@ == Selector::Net(block)
                &&& self.idx@ < block.size()
                &&& cur as nat == block.base.value() + self.idx@
                &&& last as nat == (block.base.value() + block.size() - 1) as nat
            },
            State::Done => self.idx@ == sel_addrs(self.sel@).len(),
        }
    }

    /// Start a traversal at the selector's first address.
    pub fn new(sel: &Selector) -> (s: AddressSource)
        requires
            sel.wf(),
        ensures
            s.wf(),
            s.sel() == *sel,
            s.idx() == 0,
    {
        match sel {
            Selector::One(a) => AddressSource {
                sel: Ghost(*sel),
                idx: Ghost(0int),
                state: State::One(*a),
            },
            Selector::Net(b) => {
                let bits: u8 = match b.base {
                    Addr::V4(_) => 32,
                    Addr::V6(_) => 128,
                };
                let base_val: u128 = match b.base {
                    Addr::V4(v) => v as u128,
                    Addr::V6(v) => v,
                };
                let m = low_mask(bits - b.prefix_len);
                proof {
                    lemma_block_fits(*b);
                    lemma_pow2_values();
                    vstd::arithmetic::power2::lemma_pow2_pos(b.host_bits());
                    assert(base_val as nat + m as nat <= pow2(b.base.bits()) - 1);
                }
                AddressSource {
                    sel: Ghost(*sel),
                    idx: Ghost(0int),
                    state: State::Net { block: *b, cur: base_val, last: base_val + m },
                }
            },
        }
    }

    /// Yield the next address of the selector, or `None` once every address
    /// has been yielded. Addresses come in the order of `sel_addrs`.
    pub fn next(&mut self) -> (r: Option<Addr>)
        requires
            old(self).wf(),
        ensures
            final(self).wf(),
            final(self).sel() == old(self).sel(),
            old(self).idx() < sel_addrs(old(self).sel()).len() ==> {
                &&& r == Some(sel_addrs(old(self).sel())[old(self).idx()])
                &&& final(self).idx() == old(self).idx() + 1
            },
            old(self).idx() == sel_addrs(old(self).sel()).len() ==> {
                &&& r is None
                &&& final(self).idx() == old(self).idx()
            },
    {
        match self.state {
            State::One(a) => {
                self.state = State::Done;
                self.idx = Ghost(self.idx@ + 1);
                Some(a)
            },
            State::Net { block, cur, last } => {
                proof {
                    lemma_block_fits(block);
                    lemma_pow2_values();
                }
                let a = match block.base {
                    Addr::V4(_) => Addr::V4(cur as u32),
                    Addr::V6(_) => Addr::V6(cur),
                };
                if cur == last {
                    self.state = State::Done;
                } else {
                    self.state = State::Net { block, cur: cur + 1, last };
                }
                self.idx = Ghost(self.idx@ + 1);
                Some(a)
            },
            State::Done => None,
        }
    }
}

/// A well-formed source stands somewhere between its first address and one
/// past its last.
pub proof fn lemma_source_position(s: AddressSource)
    requires
        s.wf(),
    ensures
        0 <= s.idx() <= sel_addrs(s.sel()).len(),
        s.sel().wf(),
{
}

/// A block expands to exactly the addresses it covers, each exactly once,
/// in ascending order.
pub proof fn lemma_block_expansion(b: Block)
    requires
        b.wf(),
    ensures
        sel_addrs(Selector::Net(b)).len() == b.size(),
        forall|a: Addr| b.contains(a) <==> sel_addrs(Selector::Net(b)).contains(a),
        forall|i: int, j: int|
            0 <= i < j < b.size() ==> (#[trigger] sel_addrs(Selector::Net(b))[i]).lt(
                #[trigger] sel_addrs(Selector::Net(b))[j],
            ),
        forall|i: int, j: int|
            0 <= i < b.size() && 0 <= j < b.size() && i != j ==> #[trigger] sel_addrs(
                Selector::Net(b),
            )[i] != #[trigger] sel_addrs(Selector::Net(b))[j],
{
    let s = sel_addrs(Selector::Net(b));
    lemma_block_fits(b);
    lemma_pow2_values();
    assert forall|a: Addr| b.contains(a) implies s.contains(a) by {
        let i = a.value() - b.base.value();
        assert(s[i] == b.addr_at(i));
        assert(b.addr_at(i) == a);
        assert(s.contains(a));
    }
    assert forall|a: Addr| s.contains(a) implies b.contains(a) by {
        let i = choose|i: int| 0 <= i < s.len() && s[i] == a;
        assert(s[i] == b.addr_at(i));
    }
    assert forall|i: int, j: int| 0 <= i < j < b.size() implies (#[trigger] s[i]).lt(
        #[trigger] s[j],
    ) by {
        assert(s[i] == b.addr_at(i));
        assert(s[j] == b.addr_at(j));
    }
    assert forall|i: int, j: int|
        0 <= i < b.size() && 0 <= j < b.size() && i != j implies #[trigger] s[i]
        != #[trigger] s[j] by {
        if i < j {
            assert(s[i].lt(s[j]));
        } else {
            assert(s[j].lt(s[i]));
        }
    }
}

} // verus!
