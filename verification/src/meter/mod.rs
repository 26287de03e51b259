//! Lock-free level metering: stereo peak levels held as atomic bit patterns.
//!
//! The real-time thread stores levels and the UI thread loads them, with no
//! lock on either side. A level is held as the raw bits of the sample value
//! (`f32::to_bits`), so the meter itself never does arithmetic on samples.
//!
//! What a load returns depends on the stores that other threads made before
//! it, so the contracts do not state the value an atomic holds. They state
//! which atomic operation each method makes, on which cell and with which
//! value: a store hands its level to the cell unchanged, a load returns what
//! the cell's load returned, slot `i` of a bank is the `i`-th meter, and the
//! active count is clamped to the capacity. With the single-thread semantics
//! of std's atomics, a load after a store on the same thread gives the level
//! stored.

use std::sync::Arc;
use std::sync::atomic::AtomicU32;
use std::sync::atomic::AtomicUsize;
use std::sync::atomic::Ordering;

use vstd::prelude::*;

verus! {

/// The atomic cell `cell` was stored `value` (a relaxed store was made with it).
pub open spec fn stored_u32(cell: AtomicU32, value: u32) -> bool {
    AtomicU32::store.ensures((&cell, value, Ordering::Relaxed), ())
}

/// `value` is what a relaxed load of the atomic cell `cell` returned.
pub open spec fn loaded_u32(cell: AtomicU32, value: u32) -> bool {
    AtomicU32::load.ensures((&cell, Ordering::Relaxed), value)
}

/// The atomic count cell `cell` was stored `value`.
pub open spec fn stored_usize(cell: AtomicUsize, value: usize) -> bool {
    AtomicUsize::store.ensures((&cell, value, Ordering::Relaxed), ())
}

/// `value` is what a relaxed load of the atomic count cell `cell` returned.
pub open spec fn loaded_usize(cell: AtomicUsize, value: usize) -> bool {
    AtomicUsize::load.ensures((&cell, Ordering::Relaxed), value)
}

/// A single stereo peak level, each side held as the bits of a sample value.
#[derive(Debug)]
pub struct PeakMeter {
    left: AtomicU32,
    right: AtomicU32,
}

impl PeakMeter {
    /// The atomic cell holding the left level.
    pub closed spec fn spec_left(&self) -> AtomicU32 {
        self.left
    }

    /// The atomic cell holding the right level.
    pub closed spec fn spec_right(&self) -> AtomicU32 {
        self.right
    }

    /// A meter reading zero on both sides (the bits of `0.0` are all zero):
    /// both cells are new atomics holding 0.
    pub fn new() -> (meter: Self)
        ensures
            AtomicU32::new.ensures((0u32,), meter.spec_left()),
            AtomicU32::new.ensures((0u32,), meter.spec_right()),
    {
        PeakMeter { left: AtomicU32::new(0), right: AtomicU32::new(0) }
    }

    /// Store a stereo level, given as the bits of the left and right values:
    /// `left` is stored into the left cell and `right` into the right cell, as
    /// they are, whatever level the meter held before.
    pub fn store_bits(&self, left: u32, right: u32)
        ensures
            stored_u32(self.spec_left(), left),
            stored_u32(self.spec_right(), right),
    {
        self.left.store(left, Ordering::Relaxed);
        self.right.store(right, Ordering::Relaxed);
    }

    /// Load the current stereo level as `[left bits, right bits]`: each entry
    /// is what a load of that side's cell returns, unchanged.
    pub fn load_bits(&self) -> (r: [u32; 2])
        ensures
            loaded_u32(self.spec_left(), r[0]),
            loaded_u32(self.spec_right(), r[1]),
    {
        let l = self.left.load(Ordering::Relaxed);
        let r = self.right.load(Ordering::Relaxed);
        [l, r]
    }
}

impl Default for PeakMeter {
    fn default() -> (meter: Self)
        ensures
            PeakMeter::new.ensures((), meter),
    {
        Self::new()
    }
}

/// The level at position `i` of a list of levels.
pub open spec fn level_at(levels: Seq<[u32; 2]>, i: usize) -> [u32; 2] {
    levels[i as int]
}

/// A fixed set of stereo peak meters, of which a prefix is marked active.
///
/// All slots are allocated when the bank is made; the active count can then be
/// moved up to the capacity without reallocation.
pub struct MeterBank {
    slots: Vec<PeakMeter>,
    active: AtomicUsize,
}

impl MeterBank {
    /// Number of slots allocated.
    pub closed spec fn spec_capacity(&self) -> nat {
        self.slots@.len()
    }

    /// The meter in slot `index`.
    pub closed spec fn spec_slot(&self, index: usize) -> PeakMeter {
        self.slots@[index as int]
    }

    /// The atomic cell holding the active count.
    pub closed spec fn spec_active_cell(&self) -> AtomicUsize {
        self.active
    }

    /// A bank of `capacity` meters reading zero, all of them active: every
    /// slot is a new `PeakMeter`, and the active count is a new atomic holding
    /// `capacity`.
    pub fn new(capacity: usize) -> (bank: Self)
        ensures
            bank.spec_capacity() == capacity,
            forall|index: usize|
                index < capacity ==> PeakMeter::new.ensures((), #[trigger] bank.spec_slot(index)),
            AtomicUsize::new.ensures((capacity,), bank.spec_active_cell()),
    {
        let mut slots: Vec<PeakMeter> = Vec::with_capacity(capacity);
        for i in 0..capacity
            invariant
                slots@.len() == i,
                forall|k: int| 0 <= k < i ==> PeakMeter::new.ensures((), #[trigger] slots@[k]),
        {
            let meter = PeakMeter::new();
            slots.push(meter);
        }
        let active = AtomicUsize::new(capacity);
        let bank = MeterBank { slots, active };
        assert forall|index: usize| index < capacity implies PeakMeter::new.ensures(
            (),
            #[trigger] bank.spec_slot(index),
        ) by {
            assert(bank.spec_slot(index) == bank.slots@[index as int]);
        }
        bank
    }

    /// Number of active slots: the count loaded from the active cell, clamped
    /// to the capacity, so never more than the capacity.
    ///
    /// `new` and `set_active` store at most the capacity, so the clamp only
    /// makes the bound hold of every read whatever other threads stored.
    pub fn len(&self) -> (r: usize)
        ensures
            r <= self.spec_capacity(),
            exists|stored: usize|
                {
                    &&& #[trigger] loaded_usize(self.spec_active_cell(), stored)
                    &&& r <= stored
                    &&& (r == stored || r == self.spec_capacity())
                },
    {
        let stored = self.active.load(Ordering::Relaxed);
        assert(loaded_usize(self.spec_active_cell(), stored));
        self.clamped_active(stored)
    }

    /// Whether no slot is active: whether the count `len` reads is 0; always
    /// so for a bank without slots.
    pub fn is_empty(&self) -> (r: bool)
        ensures
            self.spec_capacity() == 0 ==> r,
            exists|n: usize| #[trigger] MeterBank::len.ensures((self,), n) && r == (n == 0),
    {
        self.len() == 0
    }

    /// Total number of slots allocated.
    pub fn capacity(&self) -> (r: usize)
        ensures
            r == self.spec_capacity(),
    {
        self.slots.len()
    }

    /// Store a stereo level (as bits) in slot `index`: for every slot below the
    /// capacity, active or not, the level is stored into that slot's meter as
    /// it is; nothing happens when `index` is not below the capacity.
    pub fn store_bits(&self, index: usize, left: u32, right: u32)
        ensures
            index < self.spec_capacity() ==> PeakMeter::store_bits.ensures(
                (&self.spec_slot(index), left, right),
                (),
            ),
    {
        if index < self.slots.len() {
            self.slots[index].store_bits(left, right);
        }
    }

    /// Load the stereo level (as bits) of slot `index`: what that slot's meter
    /// loads, for every slot below the capacity; `[0, 0]` when `index` is not
    /// below the capacity.
    pub fn load_bits(&self, index: usize) -> (r: [u32; 2])
        ensures
            index < self.spec_capacity() ==> PeakMeter::load_bits.ensures(
                (&self.spec_slot(index),),
                r,
            ),
            index >= self.spec_capacity() ==> r == [0u32, 0u32],
    {
        if index < self.slots.len() {
            self.slots[index].load_bits()
        } else {
            [0, 0]
        }
    }

    /// Load every active slot, in slot order: as many levels as the active
    /// count `len` reads (never more than the capacity), and level `i` is what
    /// `load_bits(i)` loads.
    pub fn read_all_bits(&self) -> (levels: Vec<[u32; 2]>)
        ensures
            levels@.len() <= self.spec_capacity(),
            exists|n: usize| #[trigger] MeterBank::len.ensures((self,), n) && levels@.len() == n,
            forall|i: usize|
                i < levels@.len() ==> MeterBank::load_bits.ensures(
                    (self, i),
                    #[trigger] level_at(levels@, i),
                ),
    {
        let active = self.len();
        let mut levels: Vec<[u32; 2]> = Vec::with_capacity(active);
        for i in 0..active
            invariant
                active <= self.spec_capacity(),
                levels@.len() == i,
                forall|k: usize|
                    k < i ==> MeterBank::load_bits.ensures((self, k), #[trigger] level_at(levels@, k)),
        {
            let level = self.load_bits(i);
            let ghost prev = levels@;
            levels.push(level);
            assert forall|k: usize| k < i + 1 implies MeterBank::load_bits.ensures(
                (self, k),
                #[trigger] level_at(levels@, k),
            ) by {
                if k < i {
                    assert(level_at(levels@, k) == level_at(prev, k));
                }
            }
        }
        levels
    }

    /// `count`, but never more than the capacity: what `set_active(count)`
    /// stores, and what `len` makes of the stored count.
    fn clamped_active(&self, count: usize) -> (r: usize)
        ensures
            r == if count <= self.spec_capacity() {
                count as nat
            } else {
                self.spec_capacity()
            },
    {
        let cap = self.slots.len();
        if count < cap {
            count
        } else {
            cap
        }
    }

    /// Set the number of active slots: stores `count` clamped to the capacity
    /// (the smaller of the two) into the active cell, whatever the active count
    /// was before.
    pub fn set_active(&self, count: usize)
        ensures
            exists|n: usize|
                {
                    &&& #[trigger] stored_usize(self.spec_active_cell(), n)
                    &&& n <= count
                    &&& n <= self.spec_capacity()
                    &&& (n == count || n == self.spec_capacity())
                },
    {
        let n = self.clamped_active(count);
        self.active.store(n, Ordering::Relaxed);
        assert(stored_usize(self.spec_active_cell(), n));
    }
}

/// A meter bank shared between threads.
pub type SharedMeterBank = Arc<MeterBank>;

/// Make a shared meter bank of `capacity` meters reading zero, all active:
/// the bank `MeterBank::new(capacity)` makes, behind an `Arc`.
pub fn shared_meter_bank(capacity: usize) -> (bank: SharedMeterBank)
    ensures
        bank.spec_capacity() == capacity,
        MeterBank::new.ensures((capacity,), *bank),
{
    Arc::new(MeterBank::new(capacity))
}

} // verus!
