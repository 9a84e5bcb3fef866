//! Walking a table tree, and what a walk finds after the mapper has run.

use vstd::prelude::*;
use crate::memory::{allocation_address, MemoryPool};
use crate::paging::entry::{Shareability, TableEntry};
use crate::paging::map::{
    lemma_map_entries_descends,
    lemma_map_entries_done,
    lemma_map_entries_exhausts,
    lemma_map_entries_installs,
    lemma_mapping_descriptor_type,
    lemma_table_descriptor_fields,
    lemma_with_slot_well_formed,
    block_number,
    block_offset,
    block_size,
    blocks,
    map_entries,
    map_table,
    mapping_slot,
    table_below,
    table_index,
    takes_mapping,
    Mapped,
};
use crate::paging::table::{lemma_empty_well_formed, SlotView, TableView, ENTRIES_PER_TABLE};

verus! {

/// The entry at which a walk ends.
pub ghost struct WalkEnd {
    /// The level of the table that holds the entry.
    pub level: int,
    /// The block or page descriptor in the entry.
    pub descriptor: TableEntry,
}

/// The walk for `va` from a table at `level`: at each level the entry that
/// covers `va`, down through table descriptors, to a block descriptor or, at
/// the last level, a page descriptor. `None` where the walk meets anything
/// else.
pub open spec fn walk(table: TableView, level: int, va: int) -> Option<WalkEnd>
    decreases 3 - level,
{
    let slot = table.slots[table_index(va, level, table.slots.len() as int)];
    if level < 0 || level > 3 {
        None
    } else if level == 3 {
        if slot.descriptor.is_level3_descriptor() {
            Some(WalkEnd { level, descriptor: slot.descriptor })
        } else {
            None
        }
    } else if slot.descriptor.is_block_descriptor() {
        Some(WalkEnd { level, descriptor: slot.descriptor })
    } else if slot.descriptor.is_table_descriptor() && slot.child is Some {
        walk(*slot.child->0, level + 1, va)
    } else {
        None
    }
}

/// The physical address that `va` translates to: the output address of
/// the descriptor at the end of the walk, plus the offset of `va` in the
/// block or page.
pub open spec fn translate(table: TableView, level: int, va: int) -> Option<int> {
    match walk(table, level, va) {
        Some(end) => Some(end.descriptor.output_address() + block_offset(va, end.level)),
        None => None,
    }
}

/// Whether the block of `level` around `x` can be one block of the mapping
/// of `size` bytes from `va` to `pa`: it lies within the range, and its
/// physical address is a multiple of the block size.
pub open spec fn block_fits(level: int, pa: int, va: int, size: int, x: int) -> bool {
    let start = x - block_offset(x, level);
    &&& va <= start
    &&& start + block_size(level) <= va + size
    &&& block_offset(pa + (start - va), level) == 0
}

/// The level at which a mapping of `size` bytes from `va` to `pa`, made
/// from `level` down, holds `x`: the first at which the block around `x`
/// fits, and the last level where none does.
pub open spec fn mapping_level(level: int, pa: int, va: int, size: int, x: int) -> int
    decreases 3 - level,
{
    if level >= 3 || block_fits(level, pa, va, size, x) {
        level
    } else {
        mapping_level(level + 1, pa, va, size, x)
    }
}

/// The entry that holds `x` in a mapping of `size` bytes from `va` to `pa`
/// that was made from `level` down.
pub open spec fn mapping_entry(
    level: int,
    pa: int,
    va: int,
    size: int,
    permission: u64,
    x: int,
) -> WalkEnd {
    let at = mapping_level(level, pa, va, size, x);
    let start = x - block_offset(x, at);
    WalkEnd {
        level: at,
        descriptor: mapping_slot((pa + (start - va)) as u64, permission, at).descriptor,
    }
}

/// The mapper keeps a table's address and length, and every entry before
/// the one it starts from.
pub proof fn lemma_map_entries_shape(
    table: TableView,
    level: int,
    index: int,
    pa: int,
    va: int,
    remaining: int,
    permission: u64,
    pool: MemoryPool,
)
    ensures
        ({
            let mapped = map_entries(table, level, index, pa, va, remaining, permission, pool);
            &&& mapped.table.address == table.address
            &&& mapped.table.slots.len() == table.slots.len()
            &&& forall|j: int|
                0 <= j < index && j < table.slots.len() ==> #[trigger] mapped.table.slots[j]
                    == table.slots[j]
        }),
    decreases 3 - level, table.slots.len() - index,
{
    reveal(map_entries);
    let mapped = map_entries(table, level, index, pa, va, remaining, permission, pool);
    if level < 0 || level > 3 || index < 0 || index >= table.slots.len() || remaining <= 0 {
    } else if takes_mapping(level, pa, va, remaining) {
        let table_after = table.with_slot(index, mapping_slot(pa as u64, permission, level));
        lemma_map_entries_shape(
            table_after,
            level,
            index + 1,
            pa + block_size(level),
            va + block_size(level),
            remaining - block_size(level),
            permission,
            pool,
        );
        assert forall|j: int|
            0 <= j < index && j < table.slots.len() implies #[trigger] mapped.table.slots[j]
            == table.slots[j] by {
            assert(table_after.slots[j] == table.slots[j]);
        }
    } else {
        match table_below(table, index, pool) {
            None => {},
            Some((slot, pool_below)) => {
                let below = map_table(
                    *slot.child->0,
                    level + 1,
                    pa,
                    va,
                    remaining,
                    permission,
                    pool_below,
                );
                let table_after = table.with_slot(
                    index,
                    SlotView { descriptor: slot.descriptor, child: Some(Box::new(below.table)) },
                );
                if below.complete {
                    lemma_map_entries_shape(
                        table_after,
                        level,
                        index + 1,
                        pa + (remaining - below.remaining),
                        va + (remaining - below.remaining),
                        below.remaining,
                        permission,
                        below.pool,
                    );
                }
                assert forall|j: int|
                    0 <= j < index && j < table.slots.len() implies #[trigger] mapped.table.slots[j]
                    == table.slots[j] by {
                    assert(table_after.slots[j] == table.slots[j]);
                }
            },
        }
    }
}

/// Whether the block or page at which the walk for `x` ends reaches into
/// the addresses from `from` up to `to`.
pub open spec fn walk_end_reaches(
    table: TableView,
    level: int,
    x: int,
    from: int,
    to: int,
) -> bool {
    match walk(table, level, x) {
        Some(end) => {
            let start = x - block_offset(x, end.level);
            from < to && start < to && from < start + block_size(end.level)
        },
        None => false,
    }
}

/// The block or page at which a walk ends lies within the entry of the
/// table that the walk started from.
pub proof fn lemma_walk_end_within_entry(table: TableView, level: int, x: int)
    requires
        0 <= x,
        walk(table, level, x) is Some,
    ensures
        level <= walk(table, level, x)->0.level <= 3,
        0 < block_size(walk(table, level, x)->0.level),
        x - block_offset(x, level) <= x - block_offset(x, walk(table, level, x)->0.level) <= x,
        x - block_offset(x, walk(table, level, x)->0.level) + block_size(
            walk(table, level, x)->0.level,
        ) <= x - block_offset(x, level) + block_size(level),
    decreases 3 - level,
{
    let slot = table.slots[table_index(x, level, table.slots.len() as int)];
    if level < 3 && !slot.descriptor.is_block_descriptor() {
        lemma_walk_end_within_entry(*slot.child->0, level + 1, x);
        lemma_block_within_block(x, level);
    } else {
        lemma_block_offset_range(x, level);
    }
}

/// An address lies less than one block above the start of its block.
pub proof fn lemma_block_offset_range(x: int, level: int)
    requires
        0 <= x,
    ensures
        0 <= block_offset(x, level) < block_size(level),
        block_offset(x, level) <= x,
        (x - block_offset(x, level)) % 4096 == 0,
        4096 <= block_size(level),
{
    reveal(blocks);
    reveal(block_number);
    reveal(block_offset);
}

/// The block of one level around an address lies within the block of the
/// level above.
#[verifier::rlimit(60)]
pub proof fn lemma_block_within_block(x: int, level: int)
    requires
        0 <= level < 3,
        0 <= x,
    ensures
        x - block_offset(x, level) <= x - block_offset(x, level + 1),
        x - block_offset(x, level + 1) + block_size(level + 1) <= x - block_offset(x, level)
            + block_size(level),
{
    reveal(blocks);
    reveal(block_number);
    reveal(block_offset);
    if level == 0 {
        lemma_finer_blocks(x, 0x4000_0000, 0x80_0000_0000);
        assert(0x4000_0000 * ((x / 0x4000_0000) % 512) <= 0x4000_0000 * 511);
    } else if level == 1 {
        lemma_finer_blocks(x, 0x20_0000, 0x4000_0000);
        assert(0x20_0000 * ((x / 0x20_0000) % 512) <= 0x20_0000 * 511);
    } else {
        lemma_finer_blocks(x, 0x1000, 0x20_0000);
        assert(0x1000 * ((x / 0x1000) % 512) <= 0x1000 * 511);
    }
}

/// The number of bytes from `va` to the end of a table that has
/// `entries_left` entries from the one that covers `va` onwards.
pub open spec fn bytes_to_end(va: int, level: int, entries_left: int) -> int {
    blocks(entries_left, level) - block_offset(va, level)
}

/// The table below an entry ends where the entry ends.
#[verifier::rlimit(60)]
pub proof fn lemma_table_below_ends_with_entry(va: int, level: int)
    requires
        0 <= level < 3,
        0 <= va,
    ensures
        0 <= table_index(va, level + 1, ENTRIES_PER_TABLE as int) < ENTRIES_PER_TABLE,
        bytes_to_end(
            va,
            level + 1,
            ENTRIES_PER_TABLE - table_index(va, level + 1, ENTRIES_PER_TABLE as int),
        ) == block_size(level) - block_offset(va, level),
{
    reveal(blocks);
    reveal(block_number);
    reveal(block_offset);
    if level == 0 {
        lemma_finer_blocks(va, 0x4000_0000, 0x80_0000_0000);
    } else if level == 1 {
        lemma_finer_blocks(va, 0x20_0000, 0x4000_0000);
    } else {
        lemma_finer_blocks(va, 0x1000, 0x20_0000);
    }
}

/// The slot that `table_below` gives has a consistent table below it, and
/// the pool that it gives is in order.
pub proof fn lemma_table_below_well_formed(
    table: TableView,
    level: int,
    index: int,
    pool: MemoryPool,
)
    requires
        0 <= level < 3,
        table.well_formed(level),
        0 <= index < table.slots.len(),
        pool.wf(),
        table_below(table, index, pool) is Some,
    ensures
        ({
            let prepared = table_below(table, index, pool)->0;
            let slot = prepared.0;
            &&& slot.descriptor.is_table_descriptor()
            &&& slot.child is Some
            &&& slot.child->0.address == slot.descriptor.get_next_table_address()
            &&& slot.child->0.slots.len() == ENTRIES_PER_TABLE
            &&& slot.child->0.well_formed(level + 1)
            &&& prepared.1.wf()
            &&& prepared.1.floor == pool.floor
            &&& prepared.1.top <= pool.top
        }),
{
    if !table.slots[index].descriptor.is_table_descriptor() {
        let address = allocation_address(pool, 1, 12)->0;
        vstd::arithmetic::power2::lemma2_to64();
        assert(vstd::arithmetic::power2::pow2(12) == 4096);
        assert(address == (pool.top - 4096) - (pool.top - 4096) % 4096);
        assert(address % 4096 == 0);
        lemma_table_descriptor_fields(address as u64);
        lemma_empty_well_formed(address as u64, 9, level + 1);
    }
}

/// The mapper keeps the tree consistent. It maps up to the end of the
/// range or of the table, whichever comes first, unless the pool that it
/// leaves has no page for a table that it needs.
#[verifier::rlimit(60)]
pub proof fn lemma_map_entries_progress(
    table: TableView,
    level: int,
    index: int,
    pa: int,
    va: int,
    remaining: int,
    permission: u64,
    pool: MemoryPool,
)
    requires
        0 <= level <= 3,
        table.well_formed(level),
        0 <= index < table.slots.len(),
        pool.wf(),
        0 <= pa,
        pa + remaining <= u64::MAX,
        0 <= va,
        remaining > 0,
        remaining % 4096 == 0,
    ensures
        ({
            let mapped = map_entries(table, level, index, pa, va, remaining, permission, pool);
            let to_end = bytes_to_end(va, level, table.slots.len() - index);
            &&& mapped.table.well_formed(level)
            &&& mapped.pool.wf()
            &&& mapped.pool.floor == pool.floor
            &&& mapped.pool.top <= pool.top
            &&& mapped.remaining % 4096 == 0
            &&& 0 <= mapped.remaining <= remaining
            &&& va % 4096 == 0 ==> remaining - to_end <= mapped.remaining
            &&& va % 4096 == 0 && mapped.complete ==> mapped.remaining == if remaining <= to_end {
                0
            } else {
                remaining - to_end
            }
            &&& !mapped.complete ==> mapped.remaining > 0 && allocation_address(
                mapped.pool,
                1,
                12,
            ) is None
        }),
    decreases 3 - level, table.slots.len() - index,
{
    reveal(blocks);
    reveal(block_number);
    reveal(block_offset);
    let size = block_size(level);
    let mapped = map_entries(table, level, index, pa, va, remaining, permission, pool);
    let to_end = bytes_to_end(va, level, table.slots.len() - index);
    if takes_mapping(level, pa, va, remaining) {
        let slot = mapping_slot(pa as u64, permission, level);
        let table_after = table.with_slot(index, slot);
        if level < 3 {
            lemma_mapping_descriptor_type(pa as u64, permission);
        }
        lemma_with_slot_well_formed(table, level, index, slot);
        lemma_map_entries_installs(table, level, index, pa, va, remaining, permission, pool);
        if va % 4096 == 0 {
            assert(block_offset(va, level) == 0);
            assert(block_offset(va + size, level) == 0);
            assert(to_end == size + bytes_to_end(va + size, level, table.slots.len() - index - 1));
        }
        if index + 1 < table.slots.len() && remaining - size > 0 {
            lemma_map_entries_progress(
                table_after,
                level,
                index + 1,
                pa + size,
                va + size,
                remaining - size,
                permission,
                pool,
            );
        } else {
            lemma_map_entries_done(
                table_after,
                level,
                index + 1,
                pa + size,
                va + size,
                remaining - size,
                permission,
                pool,
            );
        }
    } else if table_below(table, index, pool) is None {
        lemma_map_entries_exhausts(table, level, index, pa, va, remaining, permission, pool);
    } else {
        let prepared = table_below(table, index, pool)->0;
        let slot = prepared.0;
        let pool_below = prepared.1;
        lemma_table_below_well_formed(table, level, index, pool);
        lemma_table_below_ends_with_entry(va, level);
        lemma_map_entries_descends(table, level, index, pa, va, remaining, permission, pool);
        let child_index = table_index(va, level + 1, ENTRIES_PER_TABLE as int);
        lemma_map_entries_progress(
            *slot.child->0,
            level + 1,
            child_index,
            pa,
            va,
            remaining,
            permission,
            pool_below,
        );
        lemma_map_entries_shape(
            *slot.child->0,
            level + 1,
            child_index,
            pa,
            va,
            remaining,
            permission,
            pool_below,
        );
        let below = map_table(*slot.child->0, level + 1, pa, va, remaining, permission, pool_below);
        let slot_after = SlotView { descriptor: slot.descriptor, child: Some(Box::new(below.table)) };
        let table_after = table.with_slot(index, slot_after);
        lemma_with_slot_well_formed(table, level, index, slot_after);
        let rest_of_entry = size - block_offset(va, level);
        assert(to_end == rest_of_entry + blocks(table.slots.len() - index - 1, level));
        if below.complete {
            let moved = remaining - below.remaining;
            if index + 1 < table.slots.len() && below.remaining > 0 {
                if va % 4096 == 0 {
                    assert(moved == rest_of_entry);
                    assert(block_offset(va + moved, level) == 0);
                }
                lemma_map_entries_progress(
                    table_after,
                    level,
                    index + 1,
                    pa + moved,
                    va + moved,
                    below.remaining,
                    permission,
                    below.pool,
                );
            } else {
                lemma_map_entries_done(
                    table_after,
                    level,
                    index + 1,
                    pa + moved,
                    va + moved,
                    below.remaining,
                    permission,
                    below.pool,
                );
            }
        }
    }
}

/// A walk reads one entry of the table it starts from: two tables of the
/// same length that agree on that entry give the same walk.
pub proof fn lemma_walk_reads_one_entry(first: TableView, second: TableView, level: int, x: int)
    requires
        first.slots.len() == second.slots.len(),
        first.slots[table_index(x, level, first.slots.len() as int)] == second.slots[table_index(
            x,
            level,
            first.slots.len() as int,
        )],
    ensures
        walk(first, level, x) == walk(second, level, x),
{
}

/// A walk that meets one of the mapper's descriptors for a page-aligned
/// address ends there.
pub proof fn lemma_walk_ends_at_mapping(
    table: TableView,
    level: int,
    pa: int,
    permission: u64,
    x: int,
)
    requires
        0 <= level <= 3,
        0 <= pa <= u64::MAX,
        pa % 4096 == 0,
        table.slots[table_index(x, level, table.slots.len() as int)] == mapping_slot(
            pa as u64,
            permission,
            level,
        ),
    ensures
        walk(table, level, x) == Some(
            WalkEnd { level, descriptor: mapping_slot(pa as u64, permission, level).descriptor },
        ),
{
    lemma_mapping_descriptor_type(pa as u64, permission);
}

/// A walk that meets a table descriptor goes on in the table below.
pub proof fn lemma_walk_goes_below(table: TableView, level: int, x: int)
    requires
        0 <= level < 3,
        table.slots[table_index(x, level, table.slots.len() as int)].descriptor.is_table_descriptor(),
        table.slots[table_index(x, level, table.slots.len() as int)].child is Some,
    ensures
        walk(table, level, x) == walk(
            *table.slots[table_index(x, level, table.slots.len() as int)].child->0,
            level + 1,
            x,
        ),
{
}

/// A walk in a table of invalid descriptors ends nowhere.
pub proof fn lemma_walk_in_empty_table(address: u64, level: int, x: int)
    requires
        0 <= x,
    ensures
        walk(TableView::empty(address, ENTRIES_PER_TABLE as nat), level, x) is None,
{
    crate::paging::table::lemma_invalid_is_no_table();
    let table = TableView::empty(address, ENTRIES_PER_TABLE as nat);
    let index = table_index(x, level, ENTRIES_PER_TABLE as int);
    assert(0 <= index < ENTRIES_PER_TABLE);
    assert(table.slots[index].descriptor == TableEntry(0));
}

/// Where an entry above the last level does not take the mapping, the
/// block around an address in it does not fit, so the mapping holds the
/// address one level down or further.
pub proof fn lemma_mapping_entry_below(
    level: int,
    pa: int,
    va: int,
    size: int,
    done: int,
    permission: u64,
    x: int,
)
    requires
        0 <= level < 3,
        0 <= done < size,
        0 <= va,
        done == 0 || block_offset(va + done, level) == 0,
        !takes_mapping(level, pa + done, va + done, size - done),
        va + done <= x,
        block_number(x, level) == block_number(va + done, level),
    ensures
        mapping_entry(level, pa, va, size, permission, x) == mapping_entry(
            level + 1,
            pa,
            va,
            size,
            permission,
            x,
        ),
{
    reveal(blocks);
    reveal(block_number);
    reveal(block_offset);
    assert(!block_fits(level, pa, va, size, x));
}

/// Where an entry takes the mapping, the mapping holds every address of
/// the entry there.
pub proof fn lemma_mapping_entry_here(
    level: int,
    pa: int,
    va: int,
    size: int,
    done: int,
    permission: u64,
    x: int,
)
    requires
        0 <= level <= 3,
        0 <= done < size,
        0 <= va,
        done % 4096 == 0,
        va % 4096 == 0,
        size % 4096 == 0,
        takes_mapping(level, pa + done, va + done, size - done),
        0 <= x,
        block_number(x, level) == block_number(va + done, level),
    ensures
        mapping_entry(level, pa, va, size, permission, x) == (WalkEnd {
            level,
            descriptor: mapping_slot((pa + done) as u64, permission, level).descriptor,
        }),
        va + done <= x < va + done + block_size(level),
        block_offset(va + done, level) == 0,
{
    reveal(blocks);
    reveal(block_number);
    reveal(block_offset);
    assert(block_offset(va + done, level) == 0);
    assert(x - block_offset(x, level) == va + done);
    if level < 3 {
        assert(block_fits(level, pa, va, size, x));
    }
}

/// How the entry that covers `va` lies among the addresses: where it ends,
/// what follows it, and on which side of it another address lies.
#[verifier::rlimit(60)]
pub proof fn lemma_entry_arithmetic(va: int, x: int, level: int, entries_left: int)
    requires
        0 <= level <= 3,
        0 <= va,
        0 <= x,
        va % 4096 == 0,
    ensures
        ({
            let rest = block_size(level) - block_offset(va, level);
            &&& 0 <= block_offset(va, level) < block_size(level)
            &&& 4096 <= rest
            &&& rest % 4096 == 0
            &&& level == 3 ==> block_offset(va, level) == 0 && block_size(level) == 4096
            &&& block_offset(va + rest, level) == 0
            &&& block_number(va + rest, level) == block_number(va, level) + 1
            &&& bytes_to_end(va, level, entries_left) == rest + bytes_to_end(
                va + rest,
                level,
                entries_left - 1,
            )
            &&& entries_left >= 1 ==> bytes_to_end(va, level, entries_left) >= rest
            &&& block_number(x, level) < block_number(va, level) ==> x < va && x - block_offset(
                x,
                level,
            ) + block_size(level) <= va - block_offset(va, level)
            &&& block_number(x, level) == block_number(va, level) ==> va - block_offset(va, level)
                <= x < va + rest && x - block_offset(x, level) == va - block_offset(va, level)
            &&& block_number(x, level) > block_number(va, level) ==> x >= x - block_offset(x, level)
                >= va + rest
        }),
{
    reveal(blocks);
    reveal(block_number);
    reveal(block_offset);
}

/// Blocks of one size split into 512 blocks of the next.
pub proof fn lemma_finer_blocks(address: int, small: int, large: int)
    requires
        0 <= address,
        0 < small,
        large == small * 512,
    ensures
        address % large == small * ((address / small) % 512) + address % small,
        (address / small) / 512 == address / large,
        0 <= address % small,
        0 <= (address / small) % 512 < 512,
{
    vstd::arithmetic::div_mod::lemma_mod_breakdown(address, small, 512);
    vstd::arithmetic::div_mod::lemma_div_denominator(address, small, 512);
}

/// How two addresses in one entry lie in the table below the entry.
#[verifier::rlimit(60)]
pub proof fn lemma_table_below_arithmetic(va: int, x: int, level: int)
    requires
        0 <= level < 3,
        0 <= va,
        0 <= x,
        block_number(x, level) == block_number(va, level),
    ensures
        0 <= table_index(x, level + 1, ENTRIES_PER_TABLE as int) < ENTRIES_PER_TABLE,
        table_index(x, level + 1, ENTRIES_PER_TABLE as int) - table_index(
            va,
            level + 1,
            ENTRIES_PER_TABLE as int,
        ) == block_number(x, level + 1) - block_number(va, level + 1),
        block_offset(va, level) == 0 ==> block_offset(va, level + 1) == 0,
{
    reveal(blocks);
    reveal(block_number);
    reveal(block_offset);
    let small = block_size(level + 1);
    if level == 0 {
        lemma_finer_blocks(va, 0x4000_0000, 0x80_0000_0000);
        lemma_finer_blocks(x, 0x4000_0000, 0x80_0000_0000);
    } else if level == 1 {
        lemma_finer_blocks(va, 0x20_0000, 0x4000_0000);
        lemma_finer_blocks(x, 0x20_0000, 0x4000_0000);
    } else {
        lemma_finer_blocks(va, 0x1000, 0x20_0000);
        lemma_finer_blocks(x, 0x1000, 0x20_0000);
    }
    let first = va / small;
    let other = x / small;
    assert(first / 512 == other / 512);
    assert(first % 512 == first - 512 * (first / 512));
    assert(other % 512 == other - 512 * (other / 512));
    if block_offset(va, level) == 0 {
        assert(small * (first % 512) >= 0) by (nonlinear_arith)
            requires
                small > 0,
                first % 512 >= 0,
        ;
    }
}

/// What a walk for `x` finds after the mapper has gone on from `done` bytes
/// into the range, at the entry `index` of `table`: the mapping's own entry
/// for `x` where `x` lies in what the mapper got mapped, and elsewhere what
/// it found before, or nothing.
#[verifier::rlimit(50)]
pub proof fn lemma_walk_after_map_entries(
    table: TableView,
    level: int,
    index: int,
    pa: int,
    va: int,
    size: int,
    done: int,
    permission: u64,
    pool: MemoryPool,
    x: int,
)
    requires
        0 <= level <= 3,
        table.well_formed(level),
        0 <= index < table.slots.len(),
        pool.wf(),
        0 <= pa,
        0 <= va,
        pa % 4096 == 0,
        va % 4096 == 0,
        size % 4096 == 0,
        0 <= done < size,
        done % 4096 == 0,
        pa + size <= u64::MAX,
        done == 0 || block_offset(va + done, level) == 0,
        0 <= x,
        0 <= table_index(x, level, table.slots.len() as int) < table.slots.len(),
        table_index(x, level, table.slots.len() as int) - index == block_number(x, level)
            - block_number(va + done, level),
    ensures
        ({
            let mapped = map_entries(
                table,
                level,
                index,
                pa + done,
                va + done,
                size - done,
                permission,
                pool,
            );
            if va + done <= x < va + size - mapped.remaining {
                walk(mapped.table, level, x) == Some(
                    mapping_entry(level, pa, va, size, permission, x),
                )
            } else {
                &&& walk(mapped.table, level, x) == walk(table, level, x) || walk(
                    mapped.table,
                    level,
                    x,
                ) is None
                &&& mapped.complete ==> walk(mapped.table, level, x) == if walk_end_reaches(
                    table,
                    level,
                    x,
                    va + done,
                    va + size - mapped.remaining,
                ) {
                    None
                } else {
                    walk(table, level, x)
                }
            }
        }),
    decreases 3 - level, table.slots.len() - index,
{
    let entries = table.slots.len() as int;
    let at = table_index(x, level, entries);
    let here_pa = pa + done;
    let here_va = va + done;
    let remaining = size - done;
    let block = block_size(level);
    let mapped = map_entries(table, level, index, here_pa, here_va, remaining, permission, pool);
    lemma_entry_arithmetic(here_va, x, level, entries - index);
    lemma_map_entries_progress(table, level, index, here_pa, here_va, remaining, permission, pool);
    if takes_mapping(level, here_pa, here_va, remaining) {
        let slot = mapping_slot(here_pa as u64, permission, level);
        let table_after = table.with_slot(index, slot);
        if level < 3 {
            lemma_mapping_descriptor_type(here_pa as u64, permission);
        }
        lemma_with_slot_well_formed(table, level, index, slot);
        lemma_map_entries_installs(table, level, index, here_pa, here_va, remaining, permission, pool);
        lemma_map_entries_shape(
            table_after,
            level,
            index + 1,
            here_pa + block,
            here_va + block,
            remaining - block,
            permission,
            pool,
        );
        assert(block_offset(here_va, level) == 0);
        assert(mapped.table.slots[index] == table_after.slots[index]);
        if index + 1 < entries && remaining - block > 0 {
            lemma_map_entries_progress(
                table_after,
                level,
                index + 1,
                here_pa + block,
                here_va + block,
                remaining - block,
                permission,
                pool,
            );
        } else {
            lemma_map_entries_done(
                table_after,
                level,
                index + 1,
                here_pa + block,
                here_va + block,
                remaining - block,
                permission,
                pool,
            );
        }
        if at == index {
            lemma_mapping_entry_here(level, pa, va, size, done, permission, x);
            lemma_walk_ends_at_mapping(mapped.table, level, here_pa, permission, x);
        } else if at < index {
            assert(mapped.table.slots[at] == table_after.slots[at]);
            lemma_walk_reads_one_entry(mapped.table, table, level, x);
            if walk(table, level, x) is Some {
                lemma_walk_end_within_entry(table, level, x);
            }
        } else {
            lemma_walk_reads_one_entry(table_after, table, level, x);
            if walk(table, level, x) is Some {
                lemma_walk_end_within_entry(table, level, x);
            }
            if index + 1 < entries && remaining - block > 0 {
                lemma_walk_after_map_entries(
                    table_after,
                    level,
                    index + 1,
                    pa,
                    va,
                    size,
                    done + block,
                    permission,
                    pool,
                    x,
                );
            }
        }
    } else if table_below(table, index, pool) is None {
        lemma_map_entries_exhausts(table, level, index, here_pa, here_va, remaining, permission, pool);
    } else {
        let prepared = table_below(table, index, pool)->0;
        let slot = prepared.0;
        let pool_below = prepared.1;
        let child = *slot.child->0;
        lemma_table_below_well_formed(table, level, index, pool);
        lemma_table_below_ends_with_entry(here_va, level);
        lemma_map_entries_descends(table, level, index, here_pa, here_va, remaining, permission, pool);
        let child_index = table_index(here_va, level + 1, ENTRIES_PER_TABLE as int);
        lemma_map_entries_progress(
            child,
            level + 1,
            child_index,
            here_pa,
            here_va,
            remaining,
            permission,
            pool_below,
        );
        lemma_map_entries_shape(
            child,
            level + 1,
            child_index,
            here_pa,
            here_va,
            remaining,
            permission,
            pool_below,
        );
        let below = map_table(child, level + 1, here_pa, here_va, remaining, permission, pool_below);
        let slot_after = SlotView { descriptor: slot.descriptor, child: Some(Box::new(below.table)) };
        let table_after = table.with_slot(index, slot_after);
        lemma_with_slot_well_formed(table, level, index, slot_after);
        let rest_of_entry = block - block_offset(here_va, level);
        let moved = remaining - below.remaining;
        let goes_on = below.complete && index + 1 < entries && below.remaining > 0;
        if below.complete {
            lemma_map_entries_shape(
                table_after,
                level,
                index + 1,
                here_pa + moved,
                here_va + moved,
                below.remaining,
                permission,
                below.pool,
            );
            if goes_on {
                lemma_map_entries_progress(
                    table_after,
                    level,
                    index + 1,
                    here_pa + moved,
                    here_va + moved,
                    below.remaining,
                    permission,
                    below.pool,
                );
            } else {
                lemma_map_entries_done(
                    table_after,
                    level,
                    index + 1,
                    here_pa + moved,
                    here_va + moved,
                    below.remaining,
                    permission,
                    below.pool,
                );
            }
        }
        assert(mapped.table.slots[index] == slot_after);
        if at == index {
            lemma_walk_goes_below(mapped.table, level, x);
            lemma_table_below_arithmetic(here_va, x, level);
            lemma_walk_after_map_entries(
                child,
                level + 1,
                child_index,
                pa,
                va,
                size,
                done,
                permission,
                pool_below,
                x,
            );
            if here_va <= x < va + size - below.remaining {
                lemma_mapping_entry_below(level, pa, va, size, done, permission, x);
            } else {
                if table.slots[index].descriptor.is_table_descriptor() {
                    lemma_walk_goes_below(table, level, x);
                    if walk(table, level, x) is Some {
                        lemma_walk_end_within_entry(child, level + 1, x);
                        lemma_block_within_block(x, level);
                    }
                } else {
                    lemma_walk_in_empty_table(child.address, level + 1, x);
                }
            }
        } else if at < index {
            assert(mapped.table.slots[at] == table_after.slots[at]);
            lemma_walk_reads_one_entry(mapped.table, table, level, x);
            if walk(table, level, x) is Some {
                lemma_walk_end_within_entry(table, level, x);
            }
        } else {
            lemma_walk_reads_one_entry(table_after, table, level, x);
            if walk(table, level, x) is Some {
                lemma_walk_end_within_entry(table, level, x);
            }
            if goes_on {
                lemma_walk_after_map_entries(
                    table_after,
                    level,
                    index + 1,
                    pa,
                    va,
                    size,
                    done + moved,
                    permission,
                    below.pool,
                    x,
                );
            }
        }
    }
}

/// Where a range ends before the table does, its addresses lie in
/// successive entries from the one that covers its start.
#[verifier::rlimit(60)]
pub proof fn lemma_entries_of_range(va: int, x: int, level: int, entries: int)
    requires
        0 <= level <= 3,
        0 <= va <= x,
        entries > 0,
        x - va < bytes_to_end(va, level, entries - table_index(va, level, entries)),
    ensures
        0 <= table_index(x, level, entries) < entries,
        0 <= table_index(va, level, entries) < entries,
        table_index(x, level, entries) - table_index(va, level, entries) == block_number(x, level)
            - block_number(va, level),
{
    let first = block_number(va, level);
    let other = block_number(x, level);
    let index = table_index(va, level, entries);
    vstd::arithmetic::div_mod::lemma_mod_bound(first, entries);
    vstd::arithmetic::div_mod::lemma_fundamental_div_mod(first, entries);
    assert(0 <= other - first < entries - index) by {
        reveal(blocks);
        reveal(block_number);
        reveal(block_offset);
    }
    assert(entries * (first / entries) == (first / entries) * entries) by (nonlinear_arith);
    vstd::arithmetic::div_mod::lemma_fundamental_div_mod_converse(
        other,
        entries,
        first / entries,
        index + (other - first),
    );
}

/// Two addresses in one stretch of the address space that the table
/// covers lie as many entries apart as blocks.
pub proof fn lemma_entries_of_window(va: int, x: int, level: int, entries: int)
    requires
        entries > 0,
        block_number(x, level) / entries == block_number(va, level) / entries,
    ensures
        0 <= table_index(x, level, entries) < entries,
        0 <= table_index(va, level, entries) < entries,
        table_index(x, level, entries) - table_index(va, level, entries) == block_number(x, level)
            - block_number(va, level),
{
    let first = block_number(va, level);
    let other = block_number(x, level);
    vstd::arithmetic::div_mod::lemma_mod_bound(first, entries);
    vstd::arithmetic::div_mod::lemma_mod_bound(other, entries);
    vstd::arithmetic::div_mod::lemma_fundamental_div_mod(first, entries);
    vstd::arithmetic::div_mod::lemma_fundamental_div_mod(other, entries);
}

/// The level at which a mapping holds an address lies between the level
/// it was made from and the last.
pub proof fn lemma_mapping_level_range(level: int, pa: int, va: int, size: int, x: int)
    requires
        0 <= level <= 3,
    ensures
        level <= mapping_level(level, pa, va, size, x) <= 3,
        mapping_level(level, pa, va, size, x) < 3 ==> block_fits(
            mapping_level(level, pa, va, size, x),
            pa,
            va,
            size,
            x,
        ),
    decreases 3 - level,
{
    if level < 3 && !block_fits(level, pa, va, size, x) {
        lemma_mapping_level_range(level + 1, pa, va, size, x);
    }
}

/// After the mapper has run on a page-aligned range, the walk for every
/// address `x` of what it got mapped ends at the mapping's own entry for
/// `x`.
///
/// That entry is a block at the first level at which the block around `x`
/// lies within what was left of the range when the mapper came to it, with
/// both addresses multiples of the block size, and a page where there is no
/// such level.
pub proof fn lemma_walk_in_mapped_range(
    table: TableView,
    level: int,
    pa: int,
    va: int,
    size: int,
    permission: u64,
    pool: MemoryPool,
    x: int,
)
    requires
        table.well_formed(level),
        pool.wf(),
        0 <= pa,
        0 <= va,
        pa % 4096 == 0,
        va % 4096 == 0,
        size % 4096 == 0,
        pa + size <= u64::MAX,
        va <= x < va + size - map_table(table, level, pa, va, size, permission, pool).remaining,
    ensures
        walk(map_table(table, level, pa, va, size, permission, pool).table, level, x) == Some(
            mapping_entry(level, pa, va, size, permission, x),
        ),
{
    let entries = table.slots.len() as int;
    let index = table_index(va, level, entries);
    crate::paging::table::lemma_well_formed_has_entries(table, level);
    vstd::arithmetic::div_mod::lemma_mod_bound(block_number(va, level), entries);
    if size > 0 {
        lemma_map_entries_progress(table, level, index, pa, va, size, permission, pool);
        lemma_entries_of_range(va, x, level, entries);
        lemma_walk_after_map_entries(table, level, index, pa, va, size, 0, permission, pool, x);
    } else {
        lemma_map_entries_done(table, level, index, pa, va, size, permission, pool);
    }
}

/// After the mapper has run on a page-aligned range, the walk for an
/// address outside of what it got mapped, in the stretch of the address
/// space that the table covers around the range, finds what it found before,
/// or nothing. Unless the mapper stopped early, it finds nothing exactly
/// where it ended at a block before that reaches into what got mapped: the
/// mapper has put a table in the place of such a block.
pub proof fn lemma_walk_outside_mapped_range(
    table: TableView,
    level: int,
    pa: int,
    va: int,
    size: int,
    permission: u64,
    pool: MemoryPool,
    x: int,
)
    requires
        table.well_formed(level),
        pool.wf(),
        0 <= pa,
        0 <= va,
        pa % 4096 == 0,
        va % 4096 == 0,
        size % 4096 == 0,
        0 <= size,
        pa + size <= u64::MAX,
        0 <= x,
        !(va <= x < va + size - map_table(table, level, pa, va, size, permission, pool).remaining),
        block_number(x, level) / (table.slots.len() as int) == block_number(va, level) / (
        table.slots.len() as int),
    ensures
        walk(map_table(table, level, pa, va, size, permission, pool).table, level, x) == walk(
            table,
            level,
            x,
        ) || walk(map_table(table, level, pa, va, size, permission, pool).table, level, x) is None,
        map_table(table, level, pa, va, size, permission, pool).complete ==> walk(
            map_table(table, level, pa, va, size, permission, pool).table,
            level,
            x,
        ) == if walk_end_reaches(
            table,
            level,
            x,
            va,
            va + size - map_table(table, level, pa, va, size, permission, pool).remaining,
        ) {
            None
        } else {
            walk(table, level, x)
        },
{
    let entries = table.slots.len() as int;
    let index = table_index(va, level, entries);
    crate::paging::table::lemma_well_formed_has_entries(table, level);
    if size > 0 {
        lemma_entries_of_window(va, x, level, entries);
        lemma_walk_after_map_entries(table, level, index, pa, va, size, 0, permission, pool, x);
    } else {
        lemma_map_entries_done(table, level, index, pa, va, size, permission, pool);
    }
}

/// After the mapper has run on a page-aligned range below `2^50`, every
/// address of what it got mapped translates to the address that lies as far
/// into the physical range, through a descriptor with the permission that
/// was asked for, the access flag, inner shareability and the write-back
/// memory attribute.
#[verifier::rlimit(60)]
pub proof fn lemma_translate_in_mapped_range(
    table: TableView,
    level: int,
    pa: int,
    va: int,
    size: int,
    permission: u64,
    pool: MemoryPool,
    x: int,
)
    requires
        table.well_formed(level),
        pool.wf(),
        0 <= pa,
        0 <= va,
        pa % 4096 == 0,
        va % 4096 == 0,
        size % 4096 == 0,
        pa + size <= 0x4_0000_0000_0000,
        permission <= 0b11,
        va <= x < va + size - map_table(table, level, pa, va, size, permission, pool).remaining,
    ensures
        translate(map_table(table, level, pa, va, size, permission, pool).table, level, x) == Some(
            pa + (x - va),
        ),
        ({
            let descriptor = walk(
                map_table(table, level, pa, va, size, permission, pool).table,
                level,
                x,
            )->0.descriptor;
            &&& descriptor.permission() == permission
            &&& descriptor.access_flag()
            &&& descriptor.shareability() == Shareability::InterShareable.encoding()
            &&& descriptor.memory_attribute() == 0b1111
        }),
{
    let mapped = map_table(table, level, pa, va, size, permission, pool);
    crate::paging::table::lemma_well_formed_has_entries(table, level);
    if size <= 0 {
        lemma_map_entries_done(
            table,
            level,
            table_index(va, level, table.slots.len() as int),
            pa,
            va,
            size,
            permission,
            pool,
        );
    } else {
        lemma_map_table_progress(table, level, pa, va, size, permission, pool);
    }
    lemma_walk_in_mapped_range(table, level, pa, va, size, permission, pool, x);
    lemma_mapping_level_range(level, pa, va, size, x);
    let at = mapping_level(level, pa, va, size, x);
    let start = x - block_offset(x, at);
    lemma_block_offset_range(x, at);
    if at == 3 {
        assert(va <= start) by {
            reveal(block_offset);
        }
    }
    crate::paging::map::lemma_mapping_descriptor_fields(
        (pa + (start - va)) as u64,
        permission,
        if at == 3 {
            crate::paging::entry::DESCRIPTOR_TYPE_TABLE
        } else {
            crate::paging::entry::DESCRIPTOR_TYPE_BLOCK
        },
    );
}

/// The mapper keeps the tree consistent and takes from the pool's top
/// only. It stops early only where the pool that it leaves has no page for a
/// table that it needs; else, from a page-aligned address, it gets to the end
/// of the range or of the table, whichever comes first.
pub proof fn lemma_map_table_progress(
    table: TableView,
    level: int,
    pa: int,
    va: int,
    size: int,
    permission: u64,
    pool: MemoryPool,
)
    requires
        table.well_formed(level),
        pool.wf(),
        0 <= pa,
        0 <= va,
        size % 4096 == 0,
        0 < size,
        pa + size <= u64::MAX,
    ensures
        ({
            let mapped = map_table(table, level, pa, va, size, permission, pool);
            let to_end = bytes_to_end(
                va,
                level,
                table.slots.len() - table_index(va, level, table.slots.len() as int),
            );
            &&& mapped.table.well_formed(level)
            &&& mapped.pool.wf()
            &&& mapped.pool.floor == pool.floor
            &&& mapped.pool.top <= pool.top
            &&& 0 <= mapped.remaining <= size
            &&& va % 4096 == 0 ==> 4096 <= to_end
            &&& va % 4096 == 0 && mapped.complete ==> mapped.remaining == if size <= to_end {
                0
            } else {
                size - to_end
            }
            &&& !mapped.complete ==> mapped.remaining > 0 && allocation_address(
                mapped.pool,
                1,
                12,
            ) is None
        }),
{
    let entries = table.slots.len() as int;
    crate::paging::table::lemma_well_formed_has_entries(table, level);
    vstd::arithmetic::div_mod::lemma_mod_bound(block_number(va, level), entries);
    lemma_map_entries_progress(
        table,
        level,
        table_index(va, level, entries),
        pa,
        va,
        size,
        permission,
        pool,
    );
    if va % 4096 == 0 {
        lemma_entry_arithmetic(va, va, level, entries - table_index(va, level, entries));
    }
}

} // verus!
