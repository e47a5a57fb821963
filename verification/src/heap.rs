//! A model of the native heap.
//!
//! The heap is an arena of blocks. An address is a positive integer that is
//! handed out once and never again; address `0` is the null pointer. A block is
//! live from the call of `allocate` that returned its address until the one call
//! of `free` that releases it.

use vstd::prelude::*;
use crate::ice_server::RawRTCIceServer;
use crate::configuration::RawRTCPeerConnectionConfigure;

verus! {

/// The null address.
pub const NULL: usize = 0;

/// What one native allocation holds.
#[derive(Debug)]
pub enum Block {
    /// A byte string. A native text ends with a zero byte.
    Text(Vec<u8>),
    /// An array of addresses of texts.
    Pointers(Vec<usize>),
    /// An array of server mirrors.
    Servers(Vec<RawRTCIceServer>),
    /// One boxed configuration mirror.
    Configuration(RawRTCPeerConnectionConfigure),
}

/// The mathematical value of a [`Block`].
pub ghost enum BlockView {
    Text(Seq<u8>),
    Pointers(Seq<usize>),
    Servers(Seq<RawRTCIceServer>),
    Configuration(RawRTCPeerConnectionConfigure),
}

impl View for Block {
    type V = BlockView;

    open spec fn view(&self) -> BlockView {
        match self {
            Block::Text(bytes) => BlockView::Text(bytes@),
            Block::Pointers(items) => BlockView::Pointers(items@),
            Block::Servers(items) => BlockView::Servers(items@),
            Block::Configuration(raw) => BlockView::Configuration(*raw),
        }
    }
}

/// The addresses `a` with `from <= a < to`.
pub open spec fn address_range(from: nat, to: nat) -> Set<usize> {
    Set::new(|a: usize| from <= a < to)
}

/// The addresses from 1 to `n`.
pub open spec fn addresses_up_to(n: nat) -> Set<usize> {
    Set::new(|a: usize| 1 <= a <= n)
}

/// There are finitely many addresses up to any bound.
pub proof fn lemma_addresses_finite(n: nat)
    ensures
        addresses_up_to(n).finite(),
    decreases n,
{
    if n == 0 {
        assert(addresses_up_to(0) =~= Set::<usize>::empty());
    } else {
        let below = addresses_up_to((n - 1) as nat);
        lemma_addresses_finite((n - 1) as nat);
        if n <= usize::MAX {
            assert(addresses_up_to(n) =~= below.insert(n as usize));
        } else {
            assert(addresses_up_to(n) =~= below);
        }
    }
}

/// A range of addresses holds as many addresses as it is long.
pub proof fn lemma_address_range_len(from: nat, to: nat)
    requires
        from <= to <= usize::MAX + 1,
    ensures
        address_range(from, to).finite(),
        address_range(from, to).len() == to - from,
    decreases to - from,
{
    if from == to {
        assert(address_range(from, to) =~= Set::<usize>::empty());
    } else {
        let shorter = address_range(from, (to - 1) as nat);
        lemma_address_range_len(from, (to - 1) as nat);
        assert(address_range(from, to) =~= shorter.insert((to - 1) as usize));
    }
}

/// An arena of native blocks with a fixed number of addresses.
#[derive(Debug)]
pub struct NativeHeap {
    slots: Vec<Option<Block>>,
    limit: usize,
}

impl View for NativeHeap {
    type V = Map<usize, BlockView>;

    /// The live blocks, by address.
    closed spec fn view(&self) -> Map<usize, BlockView> {
        Map::new(
            |a: usize| 1 <= a <= self.slots@.len() && self.slots@[a - 1] is Some,
            |a: usize| self.slots@[a - 1].unwrap()@,
        )
    }
}

impl NativeHeap {
    /// The address that the next allocation gets.
    pub closed spec fn next(&self) -> nat {
        self.slots@.len() + 1
    }

    /// The number of addresses that this heap can hand out in all.
    pub closed spec fn limit(&self) -> nat {
        self.limit as nat
    }

    /// The number of live blocks.
    pub open spec fn live(&self) -> nat {
        self@.dom().len()
    }

    /// The number of allocations that can still be made.
    pub open spec fn room(&self) -> nat {
        (self.limit() + 1 - self.next()) as nat
    }

    /// No more addresses were handed out than the limit allows.
    pub closed spec fn wf(&self) -> bool {
        self.slots@.len() <= self.limit
    }

    /// `later` is this heap after some allocations and no release: every block
    /// of this heap is unchanged, and every address handed out since is live.
    pub open spec fn grown_to(&self, later: &NativeHeap) -> bool {
        &&& later.limit() == self.limit()
        &&& self.next() <= later.next()
        &&& forall|a: usize| #[trigger]
            self@.contains_key(a) ==> later@.contains_key(a) && later@[a] == self@[a]
        &&& later@.dom() =~= self@.dom() + address_range(self.next(), later.next())
    }

    /// This heap and `other` hold the same blocks and hand out the same
    /// addresses next.
    pub open spec fn same_as(&self, other: &NativeHeap) -> bool {
        &&& self@ == other@
        &&& self.next() == other.next()
        &&& self.limit() == other.limit()
    }

    /// A heap holds finitely many live blocks.
    pub proof fn lemma_finite(&self)
        ensures
            self@.dom().finite(),
    {
        lemma_addresses_finite(self.slots@.len());
        vstd::set_lib::lemma_len_subset(self@.dom(), addresses_up_to(self.slots@.len()));
    }

    /// A grown heap has one more live block for each address handed out since.
    pub proof fn lemma_grown_live(&self, later: &NativeHeap)
        requires
            self.wf(),
            later.wf(),
            self.grown_to(later),
        ensures
            later.live() == self.live() + (later.next() - self.next()),
    {
        let fresh = address_range(self.next(), later.next());
        self.lemma_finite();
        lemma_address_range_len(self.next(), later.next());
        vstd::set_lib::lemma_set_disjoint_lens(self@.dom(), fresh);
        assert(self@.dom().disjoint(fresh));
    }

    /// Growth composes.
    pub proof fn lemma_grown_trans(&self, mid: &NativeHeap, later: &NativeHeap)
        requires
            self.grown_to(mid),
            mid.grown_to(later),
        ensures
            self.grown_to(later),
    {
    }

    /// Every live address is positive and below `next`, and `next` is within
    /// the limit.
    pub proof fn lemma_live_range(&self)
        requires
            self.wf(),
        ensures
            1 <= self.next() <= self.limit() + 1,
            self.limit() <= usize::MAX,
            !self@.contains_key(NULL),
            forall|a: usize| self@.contains_key(a) ==> 1 <= a < self.next(),
    {
    }

    /// The null address is live in no heap that grew from a well-formed one.
    pub proof fn lemma_live_range_of(&self, before: &NativeHeap)
        requires
            before.wf(),
            before.grown_to(self),
        ensures
            !self@.contains_key(NULL),
    {
    }

    /// An empty heap with `limit` addresses.
    pub fn with_limit(limit: usize) -> (heap: NativeHeap)
        ensures
            heap.wf(),
            heap@ == Map::<usize, BlockView>::empty(),
            heap.next() == 1,
            heap.limit() == limit,
    {
        let heap = NativeHeap { slots: Vec::new(), limit };
        assert(heap@ =~= Map::<usize, BlockView>::empty());
        heap
    }

    /// An empty heap with as many addresses as the machine has.
    pub fn new() -> (heap: NativeHeap)
        ensures
            heap.wf(),
            heap@ == Map::<usize, BlockView>::empty(),
            heap.next() == 1,
            heap.limit() == usize::MAX,
    {
        NativeHeap::with_limit(usize::MAX)
    }

    /// The number of allocations that can still be made.
    pub fn remaining(&self) -> (n: usize)
        requires
            self.wf(),
        ensures
            n == self.room(),
    {
        self.limit - self.slots.len()
    }

    /// The number of addresses handed out so far.
    pub fn allocated(&self) -> (n: usize)
        requires
            self.wf(),
        ensures
            n + 1 == self.next(),
    {
        self.slots.len()
    }

    /// Whether `address` holds a live block.
    pub fn is_live(&self, address: usize) -> (live: bool)
        ensures
            live == self@.contains_key(address),
    {
        if address == 0 || address > self.slots.len() {
            false
        } else {
            self.slots[address - 1].is_some()
        }
    }

    /// The number of live blocks.
    pub fn live_blocks(&self) -> (n: usize)
        ensures
            n == self.live(),
    {
        let mut n: usize = 0;
        let mut i: usize = 0;
        assert(self@.dom().filter(|a: usize| a <= i) =~= Set::<usize>::empty());
        while i < self.slots.len()
            invariant
                i <= self.slots@.len(),
                n <= i,
                self@.dom().filter(|a: usize| a <= i).finite(),
                n == self@.dom().filter(|a: usize| a <= i).len(),
            decreases self.slots@.len() - i,
        {
            let ghost before = self@.dom().filter(|a: usize| a <= i);
            let ghost after = self@.dom().filter(|a: usize| a <= i + 1);
            if self.slots[i].is_some() {
                assert(after =~= before.insert((i + 1) as usize));
                n = n + 1;
            } else {
                assert(after =~= before);
            }
            i = i + 1;
        }
        assert(self@.dom().filter(|a: usize| a <= i) =~= self@.dom());
        n
    }

    /// Places `block` at the next address and returns that address.
    pub fn place(&mut self, block: Block) -> (address: usize)
        requires
            old(self).wf(),
            old(self).room() > 0,
        ensures
            final(self).wf(),
            final(self).limit() == old(self).limit(),
            address == old(self).next(),
            address != NULL,
            final(self).next() == old(self).next() + 1,
            final(self)@ == old(self)@.insert(address, block@),
            old(self).grown_to(final(self)),
    {
        let address: usize = self.slots.len() + 1;
        let ghost view = block@;
        self.slots.push(Some(block));
        assert(final(self)@ =~= old(self)@.insert(address, view));
        address
    }

    /// Places `block` at a fresh address, or returns `None` and changes nothing
    /// when no address is left.
    pub fn allocate(&mut self, block: Block) -> (address: Option<usize>)
        requires
            old(self).wf(),
        ensures
            final(self).wf(),
            final(self).limit() == old(self).limit(),
            address is None <==> old(self).room() == 0,
            address is None ==> final(self).same_as(old(self)),
            address is Some ==> {
                &&& address.unwrap() == old(self).next()
                &&& address.unwrap() != NULL
                &&& final(self).next() == old(self).next() + 1
                &&& final(self)@ == old(self)@.insert(address.unwrap(), block@)
                &&& old(self).grown_to(final(self))
            },
    {
        if self.slots.len() >= self.limit {
            None
        } else {
            Some(self.place(block))
        }
    }

    /// Releases the block at `address` if it is live, and says whether it was.
    /// The null address and a released address are never live, so a second
    /// release of one address changes nothing.
    pub fn free(&mut self, address: usize) -> (released: bool)
        requires
            old(self).wf(),
        ensures
            final(self).wf(),
            final(self).limit() == old(self).limit(),
            final(self).next() == old(self).next(),
            released == old(self)@.contains_key(address),
            final(self)@ == old(self)@.remove(address),
    {
        if address == 0 || address > self.slots.len() {
            assert(self@ =~= old(self)@.remove(address));
            return false;
        }
        let released = self.slots[address - 1].is_some();
        self.slots.set(address - 1, None);
        assert(self@ =~= old(self)@.remove(address));
        released
    }

    /// The text at `address`, terminator included.
    pub fn text(&self, address: usize) -> (bytes: Option<&Vec<u8>>)
        ensures
            match bytes {
                Some(b) => self@.contains_key(address) && self@[address] == BlockView::Text(b@),
                None => !(self@.contains_key(address) && self@[address] is Text),
            },
    {
        if address == 0 || address > self.slots.len() {
            return None;
        }
        match &self.slots[address - 1] {
            Some(Block::Text(bytes)) => Some(bytes),
            _ => None,
        }
    }

    /// The array of text addresses at `address`.
    pub fn pointers(&self, address: usize) -> (items: Option<&Vec<usize>>)
        ensures
            match items {
                Some(p) => self@.contains_key(address) && self@[address] == BlockView::Pointers(
                    p@,
                ),
                None => !(self@.contains_key(address) && self@[address] is Pointers),
            },
    {
        if address == 0 || address > self.slots.len() {
            return None;
        }
        match &self.slots[address - 1] {
            Some(Block::Pointers(items)) => Some(items),
            _ => None,
        }
    }

    /// The array of server mirrors at `address`.
    pub fn servers(&self, address: usize) -> (items: Option<&Vec<RawRTCIceServer>>)
        ensures
            match items {
                Some(s) => self@.contains_key(address) && self@[address] == BlockView::Servers(
                    s@,
                ),
                None => !(self@.contains_key(address) && self@[address] is Servers),
            },
    {
        if address == 0 || address > self.slots.len() {
            return None;
        }
        match &self.slots[address - 1] {
            Some(Block::Servers(items)) => Some(items),
            _ => None,
        }
    }

    /// The configuration mirror at `address`.
    pub fn configuration(&self, address: usize) -> (raw: Option<RawRTCPeerConnectionConfigure>)
        ensures
            match raw {
                Some(r) => self@.contains_key(address) && self@[address]
                    == BlockView::Configuration(r),
                None => !(self@.contains_key(address) && self@[address] is Configuration),
            },
    {
        if address == 0 || address > self.slots.len() {
            return None;
        }
        match &self.slots[address - 1] {
            Some(Block::Configuration(raw)) => Some(*raw),
            _ => None,
        }
    }
}

} // verus!
