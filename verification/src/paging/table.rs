//! Translation tables as a tree: every table owns the tables that its
//! table descriptors point to.
//!
//! A table is a sequence of slots. A slot holds the descriptor word as the
//! hardware reads it and, where that word is a table descriptor, the
//! next-level table that lives at the address in the word.

use vstd::prelude::*;
use vstd::arithmetic::power2::pow2;
use crate::paging::entry::TableEntry;

verus! {

/// The number of entries of a table that fills one page.
pub const ENTRIES_PER_TABLE: usize = 512;

/// One entry of a table, with the table below it if there is one.
pub struct Slot {
    pub descriptor: TableEntry,
    pub child: Option<Box<Table>>,
}

/// A translation table at a physical address.
pub struct Table {
    pub address: u64,
    pub slots: Vec<Slot>,
}

pub ghost struct SlotView {
    pub descriptor: TableEntry,
    pub child: Option<Box<TableView>>,
}

pub ghost struct TableView {
    pub address: u64,
    pub slots: Seq<SlotView>,
}

impl TableView {
    /// The table with one slot replaced.
    pub open spec fn with_slot(self, index: int, slot: SlotView) -> TableView {
        TableView { address: self.address, slots: self.slots.update(index, slot) }
    }

    /// A table of invalid descriptors.
    pub open spec fn empty(address: u64, entries: nat) -> TableView {
        TableView {
            address,
            slots: Seq::new(entries, |i: int| SlotView { descriptor: TableEntry(0), child: None }),
        }
    }

    /// The tree is consistent for a table at `level`: the number of entries
    /// is a power of two, a slot has a table below it exactly where its
    /// descriptor is a table descriptor above the last level, and that table
    /// fills one page at the address in the descriptor.
    pub open spec fn well_formed(self, level: int) -> bool
        decreases 3 - level,
    {
        &&& 0 <= level <= 3
        &&& power_of_two(self.slots.len() as int)
        &&& forall|i: int|
            0 <= i < self.slots.len() ==> {
                let slot = #[trigger] self.slots[i];
                if level < 3 && slot.descriptor.is_table_descriptor() {
                    &&& slot.child is Some
                    &&& slot.child->0.address == slot.descriptor.get_next_table_address()
                    &&& slot.child->0.slots.len() == ENTRIES_PER_TABLE
                    &&& slot.child->0.well_formed(level + 1)
                } else {
                    slot.child is None
                }
            }
    }
}

/// `n` is `2^k` for some `k` below 64.
pub open spec fn power_of_two(n: int) -> bool {
    exists|k: nat| k < 64 && n == #[trigger] pow2(k)
}

impl Table {
    /// The table and everything below it as a mathematical tree.
    pub open spec fn model(&self) -> TableView
        decreases self,
    {
        TableView {
            address: self.address,
            slots: Seq::new(
                self.slots@.len(),
                |i: int|
                    SlotView {
                        descriptor: self.slots@[i].descriptor,
                        child: if 0 <= i < self.slots@.len() {
                            match self.slots@[i].child {
                                Some(table) => Some(Box::new(table.model())),
                                None => None,
                            }
                        } else {
                            None
                        },
                    },
            ),
        }
    }

    /// A table of `entries` invalid descriptors at `address`. Where the
    /// number of entries is a power of two, it can stand at any level.
    pub fn new(address: u64, entries: usize) -> (table: Table)
        ensures
            table@ == TableView::empty(address, entries as nat),
            power_of_two(entries as int) ==> forall|level: int|
                0 <= level <= 3 ==> #[trigger] table@.well_formed(level),
    {
        let mut slots: Vec<Slot> = Vec::new();
        let mut count: usize = 0;
        while count < entries
            invariant
                count <= entries,
                slots@.len() == count,
                forall|i: int|
                    0 <= i < count ==> (#[trigger] slots@[i]).descriptor == TableEntry(0)
                        && slots@[i].child is None,
            decreases entries - count,
        {
            slots.push(Slot { descriptor: TableEntry::new(), child: None });
            count += 1;
        }
        let table = Table { address, slots };
        assert(table@.slots =~= TableView::empty(address, entries as nat).slots);
        proof {
            if power_of_two(entries as int) {
                let bits: nat = choose|k: nat| k < 64 && entries as int == #[trigger] pow2(k);
                assert forall|level: int| 0 <= level <= 3 implies #[trigger] table@.well_formed(
                    level,
                ) by {
                    lemma_empty_well_formed(address, bits, level);
                }
            }
        }
        table
    }
}

impl View for Table {
    type V = TableView;

    open spec fn view(&self) -> TableView {
        self.model()
    }
}

/// A table of invalid descriptors is well formed at every level.
pub proof fn lemma_empty_well_formed(address: u64, bits: nat, level: int)
    requires
        0 <= level <= 3,
        bits < 64,
    ensures
        TableView::empty(address, pow2(bits)).well_formed(level),
{
    let table = TableView::empty(address, pow2(bits));
    assert(power_of_two(table.slots.len() as int));
    lemma_invalid_is_no_table();
}

/// A consistent table has entries, and its level is one of the four.
pub proof fn lemma_well_formed_has_entries(table: TableView, level: int)
    requires
        table.well_formed(level),
    ensures
        table.slots.len() > 0,
        0 <= level <= 3,
{
    let bits: nat = choose|k: nat| k < 64 && table.slots.len() as int == #[trigger] pow2(k);
    vstd::arithmetic::power2::lemma_pow2_pos(bits);
}

/// The all-zero word is no table descriptor.
pub proof fn lemma_invalid_is_no_table()
    ensures
        !TableEntry(0).is_table_descriptor(),
        !TableEntry(0).is_validated(),
{
    assert(0u64 & 3 == 0) by (bit_vector);
}

} // verus!
