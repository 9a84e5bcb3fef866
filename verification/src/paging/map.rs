//! Mapping a range of intermediate physical addresses into a table tree.
//!
//! The mapper visits the entries of a table from the one that covers the
//! first address onwards. An entry that can hold the rest of the range as one
//! aligned block becomes a block descriptor; at the last level every entry
//! becomes a page descriptor; anywhere else the mapper goes one level down,
//! into the table below the entry, which it allocates if there is none.

use vstd::prelude::*;
use vstd::arithmetic::power2::pow2;
use crate::memory::{allocate_memory, allocation_address, MemoryPool};
use crate::paging::entry::{
    Shareability,
    TableEntry,
    DESCRIPTOR_TYPE_BLOCK,
    DESCRIPTOR_TYPE_TABLE,
};
use crate::paging::table::{power_of_two, Slot, SlotView, Table, TableView, ENTRIES_PER_TABLE};

verus! {

/// The number of bytes that one entry of a table at `level` covers: 512 GiB,
/// 1 GiB, 2 MiB and 4 KiB at levels 0 to 3.
pub open spec fn block_size(level: int) -> int {
    blocks(1, level)
}

/// The number of bytes that `count` entries of a table at `level` cover.
#[verifier::opaque]
pub open spec fn blocks(count: int, level: int) -> int {
    if level <= 0 {
        count * 0x80_0000_0000
    } else if level == 1 {
        count * 0x4000_0000
    } else if level == 2 {
        count * 0x20_0000
    } else {
        count * 0x1000
    }
}

/// The number of whole blocks of `level` below `address`.
#[verifier::opaque]
pub open spec fn block_number(address: int, level: int) -> int {
    if level <= 0 {
        address / 0x80_0000_0000
    } else if level == 1 {
        address / 0x4000_0000
    } else if level == 2 {
        address / 0x20_0000
    } else {
        address / 0x1000
    }
}

/// How far `address` lies above the start of its block of `level`.
#[verifier::opaque]
pub open spec fn block_offset(address: int, level: int) -> int {
    if level <= 0 {
        address % 0x80_0000_0000
    } else if level == 1 {
        address % 0x4000_0000
    } else if level == 2 {
        address % 0x20_0000
    } else {
        address % 0x1000
    }
}

/// The entry of a table of `entries` entries at `level` that covers `va`.
pub open spec fn table_index(va: int, level: int, entries: int) -> int {
    block_number(va, level) % entries
}

/// The descriptor that maps a block or a page: output address, permission,
/// write-back memory, inner shareable, access flag set.
pub open spec fn mapping_descriptor(pa: u64, permission: u64, descriptor_type: u64) -> TableEntry {
    TableEntry(0).with_output_address(pa).with_permission(permission).with_write_back()
        .with_shareability(Shareability::InterShareable).validated_as(descriptor_type)
}

/// The descriptor that points to the table at `address`.
pub open spec fn table_descriptor(address: u64) -> TableEntry {
    TableEntry(0).with_output_address(address).validated_as(DESCRIPTOR_TYPE_TABLE)
}

/// The slot that the mapper leaves where it maps a block or a page.
pub open spec fn mapping_slot(pa: u64, permission: u64, level: int) -> SlotView {
    SlotView {
        descriptor: mapping_descriptor(
            pa,
            permission,
            if level == 3 {
                DESCRIPTOR_TYPE_TABLE
            } else {
                DESCRIPTOR_TYPE_BLOCK
            },
        ),
        child: None,
    }
}

/// Whether an entry at `level` takes the mapping itself: always at the last
/// level, and above it where the rest of the range is at least one block
/// and both addresses are multiples of the block size.
pub open spec fn takes_mapping(level: int, pa: int, va: int, remaining: int) -> bool {
    level == 3 || (remaining >= block_size(level) && block_offset(pa, level) == 0 && block_offset(
        va,
        level,
    ) == 0)
}

/// The slot at `index` once it has a table below it, with the pool after
/// that: both as they are where the slot has one, else with a table of
/// invalid descriptors on a fresh page. `None` where the pool has no page.
pub open spec fn table_below(table: TableView, index: int, pool: MemoryPool) -> Option<
    (SlotView, MemoryPool),
> {
    if table.slots[index].descriptor.is_table_descriptor() {
        Some((table.slots[index], pool))
    } else {
        match allocation_address(pool, 1, 12) {
            Some(address) => Some(
                (
                    SlotView {
                        descriptor: table_descriptor(address as u64),
                        child: Some(
                            Box::new(TableView::empty(address as u64, ENTRIES_PER_TABLE as nat)),
                        ),
                    },
                    MemoryPool { floor: pool.floor, top: address as u64 },
                ),
            ),
            None => None,
        }
    }
}

/// What a run of the mapper leaves behind.
pub ghost struct Mapped {
    /// The table, with everything below it.
    pub table: TableView,
    /// The number of bytes that are still to be mapped.
    pub remaining: int,
    /// The pool that the new tables came from.
    pub pool: MemoryPool,
    /// False where the pool ran out before the mapper was done.
    pub complete: bool,
}

/// The mapper's work on the entries of `table` from `index` onwards, for
/// the range of `remaining` bytes that starts at `va` and goes to `pa`.
#[verifier::opaque]
pub open spec fn map_entries(
    table: TableView,
    level: int,
    index: int,
    pa: int,
    va: int,
    remaining: int,
    permission: u64,
    pool: MemoryPool,
) -> Mapped
    decreases 3 - level, table.slots.len() - index,
{
    if level < 0 || level > 3 || index < 0 || index >= table.slots.len() || remaining <= 0 {
        Mapped { table, remaining, pool, complete: true }
    } else if takes_mapping(level, pa, va, remaining) {
        map_entries(
            table.with_slot(index, mapping_slot(pa as u64, permission, level)),
            level,
            index + 1,
            pa + block_size(level),
            va + block_size(level),
            remaining - block_size(level),
            permission,
            pool,
        )
    } else {
        match table_below(table, index, pool) {
            None => Mapped { table, remaining, pool, complete: false },
            Some((slot, pool_below)) => {
                let below = map_entries(
                    *slot.child->0,
                    level + 1,
                    table_index(va, level + 1, slot.child->0.slots.len() as int),
                    pa,
                    va,
                    remaining,
                    permission,
                    pool_below,
                );
                let table_after = table.with_slot(
                    index,
                    SlotView { descriptor: slot.descriptor, child: Some(Box::new(below.table)) },
                );
                if below.complete {
                    map_entries(
                        table_after,
                        level,
                        index + 1,
                        pa + (remaining - below.remaining),
                        va + (remaining - below.remaining),
                        below.remaining,
                        permission,
                        below.pool,
                    )
                } else {
                    Mapped {
                        table: table_after,
                        remaining: below.remaining,
                        pool: below.pool,
                        complete: false,
                    }
                }
            },
        }
    }
}

/// The mapper's work on `table`, from the entry that covers `va`.
pub open spec fn map_table(
    table: TableView,
    level: int,
    pa: int,
    va: int,
    remaining: int,
    permission: u64,
    pool: MemoryPool,
) -> Mapped {
    map_entries(
        table,
        level,
        table_index(va, level, table.slots.len() as int),
        pa,
        va,
        remaining,
        permission,
        pool,
    )
}

/// Shifts and masks pick the same entry and test the same alignment as
/// division and remainder do.
#[verifier::rlimit(60)]
pub proof fn lemma_index_and_alignment(address: u64, level: int, entries: u64)
    requires
        0 <= level <= 3,
        power_of_two(entries as int),
    ensures
        (1u64 << ((12 + 9 * (3 - level)) as u64)) == block_size(level),
        (address >> ((12 + 9 * (3 - level)) as u64)) & ((entries - 1) as u64) == table_index(
            address as int,
            level,
            entries as int,
        ),
        (address & ((block_size(level) - 1) as u64) == 0) == (block_offset(address as int, level)
            == 0),
        0 <= table_index(address as int, level, entries as int) < entries,
        4096 <= block_size(level),
        block_size(level) % 4096 == 0,
        level == 3 ==> block_size(level) == 4096,
{
    reveal(blocks);
    reveal(block_number);
    reveal(block_offset);
    let shift: u64 = (12 + 9 * (3 - level)) as u64;
    let bits: nat = choose|k: nat| k < 64 && entries as int == #[trigger] pow2(k);
    vstd::arithmetic::power2::lemma2_to64();
    vstd::arithmetic::power2::lemma2_to64_rest();
    vstd::bits::lemma_u64_pow2_no_overflow(shift as nat);
    vstd::bits::lemma_u64_shl_is_mul(1, shift);
    vstd::bits::lemma_u64_shr_is_div(address, shift);
    assert(pow2(shift as nat) == block_size(level));
    let upper: u64 = address >> shift;
    vstd::bits::lemma_u64_low_bits_mask_is_mod(upper, bits);
    assert(vstd::bits::low_bits_mask(bits) == entries - 1);
    vstd::bits::lemma_u64_low_bits_mask_is_mod(address, shift as nat);
    assert(vstd::bits::low_bits_mask(shift as nat) == block_size(level) - 1);
}

/// The words that a mapping descriptor goes through while it is built.
pub proof fn lemma_mapping_words(pa: u64, permission: u64, descriptor_type: u64) -> (words: (
    u64,
    u64,
    u64,
    u64,
))
    ensures
        words.0 == (0u64 & !0x0003_FFFF_FFFF_F000u64) | pa | 0x400u64,
        words.1 == (words.0 & !0xC0u64) | (permission << 6u64),
        words.2 == (words.1 & !0x3Cu64) | 0x3Cu64,
        words.3 == (words.2 & !0x300u64) | (3u64 << 8u64),
        mapping_descriptor(pa, permission, descriptor_type).0 == words.3 | descriptor_type,
{
    let first: u64 = (0u64 & !0x0003_FFFF_FFFF_F000u64) | pa | 0x400u64;
    let second: u64 = (first & !0xC0u64) | (permission << 6u64);
    let third: u64 = (second & !0x3Cu64) | 0x3Cu64;
    let fourth: u64 = (third & !0x300u64) | (3u64 << 8u64);
    (first, second, third, fourth)
}

/// An address that is a multiple of a block size is page-aligned.
pub proof fn lemma_block_aligned_is_page_aligned(address: int, level: int)
    requires
        0 <= address,
        block_offset(address, level) == 0,
    ensures
        address % 4096 == 0,
{
    reveal(block_offset);
}

/// For a page-aligned address the mapper's descriptors have the type they
/// were given: block above the last level, page at the last level.
pub proof fn lemma_mapping_descriptor_type(pa: u64, permission: u64)
    requires
        pa % 4096 == 0,
    ensures
        mapping_descriptor(pa, permission, DESCRIPTOR_TYPE_BLOCK).is_block_descriptor(),
        !mapping_descriptor(pa, permission, DESCRIPTOR_TYPE_BLOCK).is_table_descriptor(),
        mapping_descriptor(pa, permission, DESCRIPTOR_TYPE_TABLE).is_level3_descriptor(),
{
    let words = lemma_mapping_words(pa, permission, DESCRIPTOR_TYPE_BLOCK);
    let first: u64 = words.0;
    let second: u64 = words.1;
    let third: u64 = words.2;
    let fourth: u64 = words.3;
    assert((fourth | 1u64) & 3u64 == 1u64 && (fourth | 3u64) & 3u64 == 3u64) by (bit_vector)
        requires
            pa % 4096u64 == 0,
            first == (0u64 & !0x0003_FFFF_FFFF_F000u64) | pa | 0x400u64,
            second == (first & !0xC0u64) | (permission << 6u64),
            third == (second & !0x3Cu64) | 0x3Cu64,
            fourth == (third & !0x300u64) | (3u64 << 8u64),
    ;
}

/// The fields of the mapper's descriptors for a page-aligned address below
/// `2^50` and a two-bit permission read back as they were put in.
pub proof fn lemma_mapping_descriptor_fields(pa: u64, permission: u64, descriptor_type: u64)
    requires
        pa % 4096 == 0,
        pa < 0x4_0000_0000_0000,
        permission <= 0b11,
        descriptor_type <= 0b11,
    ensures
        mapping_descriptor(pa, permission, descriptor_type).output_address() == pa,
        mapping_descriptor(pa, permission, descriptor_type).permission() == permission,
        mapping_descriptor(pa, permission, descriptor_type).access_flag(),
        mapping_descriptor(pa, permission, descriptor_type).shareability()
            == Shareability::InterShareable.encoding(),
        mapping_descriptor(pa, permission, descriptor_type).memory_attribute() == 0b1111,
{
    let words = lemma_mapping_words(pa, permission, descriptor_type);
    let first: u64 = words.0;
    let second: u64 = words.1;
    let third: u64 = words.2;
    let fourth: u64 = words.3;
    let word: u64 = fourth | descriptor_type;
    assert(word & 0x0003_FFFF_FFFF_F000u64 == pa && (word & 0xC0u64) >> 6u64 == permission && word
        & 0x400u64 != 0 && (word & 0x300u64) >> 8u64 == 3 && (word & 0x3Cu64) >> 2u64 == 0xF)
        by (bit_vector)
        requires
            pa % 4096u64 == 0,
            pa < 0x4_0000_0000_0000u64,
            permission <= 3,
            descriptor_type <= 3,
            first == (0u64 & !0x0003_FFFF_FFFF_F000u64) | pa | 0x400u64,
            second == (first & !0xC0u64) | (permission << 6u64),
            third == (second & !0x3Cu64) | 0x3Cu64,
            fourth == (third & !0x300u64) | (3u64 << 8u64),
            word == fourth | descriptor_type,
    ;
}

/// A table descriptor holds the address of a page-aligned table below
/// `2^52`.
pub proof fn lemma_table_descriptor_fields(address: u64)
    requires
        address % 4096 == 0,
        address < 0x10_0000_0000_0000,
    ensures
        table_descriptor(address).is_table_descriptor(),
        table_descriptor(address).get_next_table_address() == address,
{
    let first: u64 = (0u64 & !0x0003_FFFF_FFFF_F000u64) | address | 0x400u64;
    let word: u64 = first | 3u64;
    assert(word & 3u64 == 3u64 && word & 0x000F_FFFF_FFFF_F000u64 == address) by (bit_vector)
        requires
            address % 4096u64 == 0,
            address < 0x10_0000_0000_0000u64,
            first == (0u64 & !0x0003_FFFF_FFFF_F000u64) | address | 0x400u64,
            word == first | 3u64,
    ;
}

/// Replacing a slot by one that is consistent in itself keeps the tree
/// consistent.
pub proof fn lemma_with_slot_well_formed(table: TableView, level: int, index: int, slot: SlotView)
    requires
        table.well_formed(level),
        0 <= index < table.slots.len(),
        if level < 3 && slot.descriptor.is_table_descriptor() {
            &&& slot.child is Some
            &&& slot.child->0.address == slot.descriptor.get_next_table_address()
            &&& slot.child->0.slots.len() == ENTRIES_PER_TABLE
            &&& slot.child->0.well_formed(level + 1)
        } else {
            slot.child is None
        },
    ensures
        table.with_slot(index, slot).well_formed(level),
{
    let after = table.with_slot(index, slot);
    assert forall|i: int| 0 <= i < after.slots.len() implies {
        let s = #[trigger] after.slots[i];
        if level < 3 && s.descriptor.is_table_descriptor() {
            &&& s.child is Some
            &&& s.child->0.address == s.descriptor.get_next_table_address()
            &&& s.child->0.slots.len() == ENTRIES_PER_TABLE
            &&& s.child->0.well_formed(level + 1)
        } else {
            s.child is None
        }
    } by {
        if i != index {
            assert(after.slots[i] == table.slots[i]);
        }
    }
}

/// Where an entry takes a block or a page, the mapper writes the mapping
/// and goes on with the next entry.
pub proof fn lemma_map_entries_installs(
    table: TableView,
    level: int,
    index: int,
    pa: int,
    va: int,
    remaining: int,
    permission: u64,
    pool: MemoryPool,
)
    requires
        0 <= level <= 3,
        0 <= index < table.slots.len(),
        remaining > 0,
        takes_mapping(level, pa, va, remaining),
    ensures
        map_entries(table, level, index, pa, va, remaining, permission, pool) == map_entries(
            table.with_slot(index, mapping_slot(pa as u64, permission, level)),
            level,
            index + 1,
            pa + block_size(level),
            va + block_size(level),
            remaining - block_size(level),
            permission,
            pool,
        ),
{
    reveal(map_entries);
}

/// Where an entry takes neither, the mapper runs on the table below it and,
/// unless the pool ran out there, goes on with the next entry.
pub proof fn lemma_map_entries_descends(
    table: TableView,
    level: int,
    index: int,
    pa: int,
    va: int,
    remaining: int,
    permission: u64,
    pool: MemoryPool,
)
    requires
        0 <= level < 3,
        0 <= index < table.slots.len(),
        remaining > 0,
        !takes_mapping(level, pa, va, remaining),
        table_below(table, index, pool) is Some,
    ensures
        ({
            let prepared = table_below(table, index, pool)->0;
            let slot = prepared.0;
            let below = map_table(
                *slot.child->0,
                level + 1,
                pa,
                va,
                remaining,
                permission,
                prepared.1,
            );
            let table_after = table.with_slot(
                index,
                SlotView { descriptor: slot.descriptor, child: Some(Box::new(below.table)) },
            );
            map_entries(table, level, index, pa, va, remaining, permission, pool)
                == if below.complete {
                map_entries(
                    table_after,
                    level,
                    index + 1,
                    pa + (remaining - below.remaining),
                    va + (remaining - below.remaining),
                    below.remaining,
                    permission,
                    below.pool,
                )
            } else {
                Mapped {
                    table: table_after,
                    remaining: below.remaining,
                    pool: below.pool,
                    complete: false,
                }
            }
        }),
{
    reveal(map_entries);
}

/// Where an entry needs a table below it and the pool has no page left,
/// the mapper stops and leaves everything as it is.
pub proof fn lemma_map_entries_exhausts(
    table: TableView,
    level: int,
    index: int,
    pa: int,
    va: int,
    remaining: int,
    permission: u64,
    pool: MemoryPool,
)
    requires
        0 <= level < 3,
        0 <= index < table.slots.len(),
        remaining > 0,
        !takes_mapping(level, pa, va, remaining),
        table_below(table, index, pool) is None,
    ensures
        map_entries(table, level, index, pa, va, remaining, permission, pool) == (Mapped {
            table,
            remaining,
            pool,
            complete: false,
        }),
{
    reveal(map_entries);
}

/// From an entry on which the mapper has nothing to do, nothing changes.
pub proof fn lemma_map_entries_done(
    table: TableView,
    level: int,
    index: int,
    pa: int,
    va: int,
    remaining: int,
    permission: u64,
    pool: MemoryPool,
)
    requires
        index >= table.slots.len() || remaining <= 0,
    ensures
        map_entries(table, level, index, pa, va, remaining, permission, pool) == (Mapped {
            table,
            remaining,
            pool,
            complete: true,
        }),
{
    reveal(map_entries);
}

/// Writes the descriptor of a block or page at `pa` into one entry, and
/// drops the table below the entry if there was one.
fn install_mapping(table: &mut Table, index: usize, pa: u64, permission: u64, table_level: i8)
    requires
        index < old(table)@.slots.len(),
        0 <= table_level <= 3,
    ensures
        final(table)@ == old(table)@.with_slot(
            index as int,
            mapping_slot(pa, permission, table_level as int),
        ),
{
    assert(table@.slots.len() == table.slots@.len());
    let entry = &mut table.slots[index];
    entry.descriptor.init();
    entry.descriptor.set_output_address(pa);
    entry.descriptor.set_permission(permission);
    entry.descriptor.set_memory_attribute_write_back();
    entry.descriptor.set_shareability(Shareability::InterShareable);
    if table_level == 3 {
        entry.descriptor.validate_as_level3_descriptor();
    } else {
        entry.descriptor.validate_as_block_descriptor();
    }
    entry.child = None;
    assert(table@.slots =~= old(table)@.slots.update(
        index as int,
        mapping_slot(pa, permission, table_level as int),
    ));
}

/// Puts a table of invalid descriptors at `address` below one entry, and
/// the table descriptor for it into the entry.
fn install_table(table: &mut Table, index: usize, address: u64)
    requires
        index < old(table)@.slots.len(),
    ensures
        final(table)@ == old(table)@.with_slot(
            index as int,
            SlotView {
                descriptor: table_descriptor(address),
                child: Some(Box::new(TableView::empty(address, ENTRIES_PER_TABLE as nat))),
            },
        ),
{
    assert(table@.slots.len() == table.slots@.len());
    let next_table = Table::new(address, ENTRIES_PER_TABLE);
    let entry = &mut table.slots[index];
    entry.descriptor.init();
    entry.descriptor.set_output_address(address);
    entry.descriptor.validate_as_table_descriptor();
    entry.child = Some(Box::new(next_table));
    assert(table@.slots =~= old(table)@.slots.update(
        index as int,
        SlotView {
            descriptor: table_descriptor(address),
            child: Some(Box::new(TableView::empty(address, ENTRIES_PER_TABLE as nat))),
        },
    ));
}

/// Runs the mapper on the table below one entry.
fn map_below(
    physical_address: &mut u64,
    virtual_address: &mut u64,
    remaining_size: &mut u64,
    table: &mut Table,
    index: usize,
    permission: u64,
    table_level: i8,
    pool: &mut MemoryPool,
) -> (result: Result<(), ()>)
    requires
        0 <= table_level < 3,
        index < old(table)@.slots.len(),
        old(table)@.slots[index as int].child is Some,
        old(table)@.slots[index as int].child->0.well_formed(table_level + 1),
        old(pool).wf(),
        0 < *old(remaining_size),
        *old(remaining_size) % 4096 == 0,
        *old(physical_address) + *old(remaining_size) <= u64::MAX,
        *old(virtual_address) + *old(remaining_size) <= u64::MAX,
    ensures
        ({
            let below = map_table(
                *old(table)@.slots[index as int].child->0,
                table_level + 1,
                *old(physical_address) as int,
                *old(virtual_address) as int,
                *old(remaining_size) as int,
                permission,
                *old(pool),
            );
            &&& final(table)@ == old(table)@.with_slot(
                index as int,
                SlotView {
                    descriptor: old(table)@.slots[index as int].descriptor,
                    child: Some(Box::new(below.table)),
                },
            )
            &&& *final(remaining_size) == below.remaining
            &&& *final(pool) == below.pool
            &&& result is Ok <==> below.complete
            &&& result is Ok ==> below.remaining < *old(remaining_size)
            &&& below.table.well_formed(table_level + 1)
            &&& below.table.address == old(table)@.slots[index as int].child->0.address
            &&& below.table.slots.len() == old(table)@.slots[index as int].child->0.slots.len()
        }),
        *final(remaining_size) <= *old(remaining_size),
        *final(remaining_size) % 4096 == 0,
        *final(physical_address) + *final(remaining_size) == *old(physical_address) + *old(
            remaining_size
        ),
        *final(virtual_address) + *final(remaining_size) == *old(virtual_address) + *old(
            remaining_size
        ),
        final(pool).wf(),
    decreases 3 - table_level, 0nat,
{
    let ghost descriptor = table@.slots[index as int].descriptor;
    assert(table@.slots.len() == table.slots@.len());
    let result = match &mut table.slots[index].child {
        Some(child) => _map_address_stage2(
            physical_address,
            virtual_address,
            remaining_size,
            &mut **child,
            permission,
            table_level + 1,
            pool,
        ),
        // Not taken: the entry has a table below it.
        None => Ok(()),
    };
    proof {
        let below = map_table(
            *old(table)@.slots[index as int].child->0,
            table_level + 1,
            *old(physical_address) as int,
            *old(virtual_address) as int,
            *old(remaining_size) as int,
            permission,
            *old(pool),
        );
        assert(table@.slots =~= old(table)@.slots.update(
            index as int,
            SlotView { descriptor, child: Some(Box::new(below.table)) },
        ));
    }
    result
}

/// The mapper's work on one entry: a block, a page, or a run on the table
/// below.
#[verifier::rlimit(60)]
fn map_entry(
    physical_address: &mut u64,
    virtual_address: &mut u64,
    remaining_size: &mut u64,
    table: &mut Table,
    index: usize,
    permission: u64,
    table_level: i8,
    pool: &mut MemoryPool,
) -> (result: Result<(), ()>)
    requires
        old(table)@.well_formed(table_level as int),
        index < old(table)@.slots.len(),
        old(pool).wf(),
        0 < *old(remaining_size),
        *old(remaining_size) % 4096 == 0,
        *old(physical_address) + *old(remaining_size) <= u64::MAX,
        *old(virtual_address) + *old(remaining_size) <= u64::MAX,
    ensures
        map_entries(
            old(table)@,
            table_level as int,
            index as int,
            *old(physical_address) as int,
            *old(virtual_address) as int,
            *old(remaining_size) as int,
            permission,
            *old(pool),
        ) == (if result is Ok {
            map_entries(
                final(table)@,
                table_level as int,
                index + 1,
                *final(physical_address) as int,
                *final(virtual_address) as int,
                *final(remaining_size) as int,
                permission,
                *final(pool),
            )
        } else {
            Mapped {
                table: final(table)@,
                remaining: *final(remaining_size) as int,
                pool: *final(pool),
                complete: false,
            }
        }),
        result is Ok ==> *final(remaining_size) < *old(remaining_size),
        *final(remaining_size) <= *old(remaining_size),
        *final(remaining_size) % 4096 == 0,
        *final(physical_address) + *final(remaining_size) == *old(physical_address) + *old(
            remaining_size
        ),
        *final(virtual_address) + *final(remaining_size) == *old(virtual_address) + *old(
            remaining_size
        ),
        final(table)@.well_formed(table_level as int),
        final(table)@.address == old(table)@.address,
        final(table)@.slots.len() == old(table)@.slots.len(),
        final(pool).wf(),
    decreases 3 - table_level, 1nat,
{
    let shift_level: u64 = 12 + 9 * (3 - table_level as u64);
    let ghost before = table@;
    let ghost pool_before = *pool;
    let ghost pa = *physical_address;
    let ghost va = *virtual_address;
    let ghost remaining = *remaining_size;
    proof {
        vstd::arithmetic::power2::lemma2_to64();
        assert(512 == pow2(9));
        lemma_index_and_alignment(pa, table_level as int, 512);
        lemma_index_and_alignment(va, table_level as int, 512);
    }
    let block_size: u64 = 1u64 << shift_level;
    let mask: u64 = block_size - 1;
    if table_level == 3 || (*remaining_size >= block_size && (*physical_address & mask) == 0
        && (*virtual_address & mask) == 0) {
        install_mapping(table, index, *physical_address, permission, table_level);
        proof {
            if table_level < 3 {
                lemma_block_aligned_is_page_aligned(pa as int, table_level as int);
                lemma_mapping_descriptor_type(pa, permission);
            }
            lemma_with_slot_well_formed(
                before,
                table_level as int,
                index as int,
                mapping_slot(pa, permission, table_level as int),
            );
            lemma_map_entries_installs(
                before,
                table_level as int,
                index as int,
                pa as int,
                va as int,
                remaining as int,
                permission,
                pool_before,
            );
        }
        *physical_address += block_size;
        *virtual_address += block_size;
        *remaining_size -= block_size;
        return Ok(());
    }
    assert(table@.slots.len() == table.slots@.len());
    if !table.slots[index].descriptor.is_table_descriptor() {
        let next_table_address = match allocate_memory(pool, 1, Some(12)) {
            Ok(address) => address,
            Err(_) => {
                proof {
                    lemma_map_entries_exhausts(
                        before,
                        table_level as int,
                        index as int,
                        pa as int,
                        va as int,
                        remaining as int,
                        permission,
                        pool_before,
                    );
                }
                return Err(());
            },
        };
        install_table(table, index, next_table_address);
        proof {
            lemma_table_descriptor_fields(next_table_address);
            crate::paging::table::lemma_empty_well_formed(next_table_address, 9, table_level + 1);
        }
    }
    let below = map_below(
        physical_address,
        virtual_address,
        remaining_size,
        table,
        index,
        permission,
        table_level,
        pool,
    );
    proof {
        let slot_after = table@.slots[index as int];
        assert(table@.slots =~= before.slots.update(index as int, slot_after));
        assert(table@ == before.with_slot(index as int, slot_after));
        lemma_with_slot_well_formed(before, table_level as int, index as int, slot_after);
        lemma_map_entries_descends(
            before,
            table_level as int,
            index as int,
            pa as int,
            va as int,
            remaining as int,
            permission,
            pool_before,
        );
    }
    below
}

/// Maps the range of `*remaining_size` bytes at `*virtual_address` to
/// `*physical_address`, in `table` and below, from the entry that covers
/// `*virtual_address` to the last entry of `table` at most.
///
/// The three counters move on by what was mapped. On `Err` the pool had no
/// page left for a table that was needed; what was mapped until then stays.
#[verifier::rlimit(60)]
pub fn _map_address_stage2(
    physical_address: &mut u64,
    virtual_address: &mut u64,
    remaining_size: &mut u64,
    table: &mut Table,
    permission: u64,
    table_level: i8,
    pool: &mut MemoryPool,
) -> (result: Result<(), ()>)
    requires
        old(table)@.well_formed(table_level as int),
        old(pool).wf(),
        0 < *old(remaining_size),
        *old(remaining_size) % 4096 == 0,
        *old(physical_address) + *old(remaining_size) <= u64::MAX,
        *old(virtual_address) + *old(remaining_size) <= u64::MAX,
    ensures
        ({
            let mapped = map_table(
                old(table)@,
                table_level as int,
                *old(physical_address) as int,
                *old(virtual_address) as int,
                *old(remaining_size) as int,
                permission,
                *old(pool),
            );
            &&& final(table)@ == mapped.table
            &&& *final(remaining_size) == mapped.remaining
            &&& *final(pool) == mapped.pool
            &&& result is Ok <==> mapped.complete
        }),
        *final(remaining_size) < *old(remaining_size) || result is Err,
        *final(remaining_size) <= *old(remaining_size),
        *final(remaining_size) % 4096 == 0,
        *final(physical_address) + *final(remaining_size) == *old(physical_address) + *old(
            remaining_size
        ),
        *final(virtual_address) + *final(remaining_size) == *old(virtual_address) + *old(
            remaining_size
        ),
        final(table)@.well_formed(table_level as int),
        final(table)@.address == old(table)@.address,
        final(table)@.slots.len() == old(table)@.slots.len(),
        final(pool).wf(),
    decreases 3 - table_level, 2nat,
{
    let shift_level: u64 = 12 + 9 * (3 - table_level as u64);
    let num_of_entries: usize = table.slots.len();
    assert(table@.slots.len() == table.slots@.len());
    proof {
        lemma_index_and_alignment(*virtual_address, table_level as int, num_of_entries as u64);
    }
    let table_index: usize = ((*virtual_address >> shift_level) & (num_of_entries as u64
        - 1)) as usize;
    let ghost expected = map_table(
        old(table)@,
        table_level as int,
        *old(physical_address) as int,
        *old(virtual_address) as int,
        *old(remaining_size) as int,
        permission,
        *old(pool),
    );
    let mut index: usize = table_index;
    while index < num_of_entries
        invariant
            0 <= table_level <= 3,
            table_index <= index <= num_of_entries,
            num_of_entries == table@.slots.len(),
            table@.slots.len() == old(table)@.slots.len(),
            table@.address == old(table)@.address,
            table@.well_formed(table_level as int),
            pool.wf(),
            0 < *remaining_size <= *old(remaining_size),
            index > table_index ==> *remaining_size < *old(remaining_size),
            *remaining_size % 4096 == 0,
            *physical_address + *remaining_size == *old(physical_address) + *old(remaining_size),
            *virtual_address + *remaining_size == *old(virtual_address) + *old(remaining_size),
            *old(physical_address) + *old(remaining_size) <= u64::MAX,
            *old(virtual_address) + *old(remaining_size) <= u64::MAX,
            expected == map_entries(
                table@,
                table_level as int,
                index as int,
                *physical_address as int,
                *virtual_address as int,
                *remaining_size as int,
                permission,
                *pool,
            ),
            expected == map_table(
                old(table)@,
                table_level as int,
                *old(physical_address) as int,
                *old(virtual_address) as int,
                *old(remaining_size) as int,
                permission,
                *old(pool),
            ),
        decreases num_of_entries - index,
    {
        let done = map_entry(
            physical_address,
            virtual_address,
            remaining_size,
            table,
            index,
            permission,
            table_level,
            pool,
        );
        if done.is_err() {
            return done;
        }
        if *remaining_size == 0 {
            proof {
                lemma_map_entries_done(
                    table@,
                    table_level as int,
                    index + 1,
                    *physical_address as int,
                    *virtual_address as int,
                    0,
                    permission,
                    *pool,
                );
            }
            return Ok(());
        }
        index += 1;
    }
    proof {
        lemma_map_entries_done(
            table@,
            table_level as int,
            index as int,
            *physical_address as int,
            *virtual_address as int,
            *remaining_size as int,
            permission,
            *pool,
        );
    }
    Ok(())
}

} // verus!
