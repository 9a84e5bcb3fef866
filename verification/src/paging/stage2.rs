//! The stage-2 address space: its two control registers and its table tree.

use vstd::prelude::*;
use vstd::arithmetic::power2::pow2;
use crate::memory::{allocate_memory, allocation_address, MemoryPool};
use crate::paging::entry::{
    Shareability,
    TableEntry,
    MEMORY_PERMISSION_READABLE_BIT,
    MEMORY_PERMISSION_WRITABLE_BIT,
    OUTPUT_ADDRESS_MASK,
    PAGE_SIZE,
};
use crate::paging::map::{
    _map_address_stage2,
    block_number,
    block_offset,
    block_size,
    lemma_index_and_alignment,
    map_table,
    table_index,
};
use crate::paging::walk::{
    bytes_to_end,
    lemma_entry_arithmetic,
    lemma_map_table_progress,
    lemma_translate_in_mapped_range,
    lemma_walk_in_mapped_range,
    lemma_walk_outside_mapped_range,
    mapping_entry,
    translate,
    walk,
    walk_end_reaches,
    WalkEnd,
};
use crate::paging::table::{Table, TableView, ENTRIES_PER_TABLE};

verus! {

/// The physical address range in `ID_AA64MMFR0_EL1`, bits 0..4.
pub const ID_AA64MMFR0_EL1_PARANGE: u64 = 0xF;

pub const VTCR_EL2_RES1: u64 = 0x8000_0000;

pub const VTCR_EL2_PS_BITS_OFFSET: u64 = 16;

pub const VTCR_EL2_TG0_BITS_OFFSET: u64 = 14;

pub const VTCR_EL2_SH0_BITS_OFFSET: u64 = 12;

pub const VTCR_EL2_ORG0_BITS_OFFSET: u64 = 10;

pub const VTCR_EL2_IRG0_BITS_OFFSET: u64 = 8;

pub const VTCR_EL2_SL0_BITS_OFFSET: u64 = 6;

pub const VTCR_EL2_SL0: u64 = 0xC0;

pub const VTCR_EL2_T0SZ_BITS_OFFSET: u64 = 0;

pub const VTCR_EL2_T0SZ: u64 = 0x3F;

/// Why a range could not be mapped.
#[derive(Clone, Copy, Debug, PartialEq, Eq, Structural)]
pub enum Error {
    /// The size is no multiple of the page size. Nothing was touched.
    SizeNotAligned,
    /// The pool had no page left for a table. What was mapped until then
    /// stays.
    AllocationFailed,
}

/// A stage-2 address space.
pub struct Stage2Translation {
    /// The value for `VTCR_EL2`.
    pub vtcr_el2: u64,
    /// The value for `VTTBR_EL2`: the address of the root table.
    pub vttbr_el2: u64,
    /// The root table, with every table below it.
    pub root: Table,
}

pub ghost struct Stage2View {
    pub vtcr_el2: u64,
    pub vttbr_el2: u64,
    pub root: TableView,
}

/// The `T0SZ` down to which one table at `first_level` is enough: 16, 25,
/// 34 and 43 for levels 0 to 3.
pub open spec fn boundary_bits(first_level: int) -> int {
    43 - 9 * (3 - first_level)
}

/// The number of tables that make up the root: `2^max(0, boundary_bits -
/// t0sz)`.
pub open spec fn concatenated_tables(t0sz: int, first_level: int) -> nat {
    pow2(
        if boundary_bits(first_level) > t0sz {
            (boundary_bits(first_level) - t0sz) as nat
        } else {
            0
        },
    )
}

/// The level at which a walk starts, from the `SL0` field of `VTCR_EL2`.
pub open spec fn first_level_of(vtcr_el2: u64) -> int {
    let sl0 = (vtcr_el2 & VTCR_EL2_SL0) >> VTCR_EL2_SL0_BITS_OFFSET;
    if sl0 == 0 {
        2
    } else if sl0 == 1 {
        1
    } else if sl0 == 2 {
        0
    } else {
        3
    }
}

/// The `T0SZ` field of `VTCR_EL2`.
pub open spec fn t0sz_of(vtcr_el2: u64) -> int {
    ((vtcr_el2 & VTCR_EL2_T0SZ) >> VTCR_EL2_T0SZ_BITS_OFFSET) as int
}

/// The access permission field for a mapping: bit 0 readable, bit 1
/// writable.
pub open spec fn permission_of(is_readable: bool, is_writable: bool) -> u64 {
    if is_writable {
        if is_readable {
            3
        } else {
            2
        }
    } else {
        if is_readable {
            1
        } else {
            0
        }
    }
}

/// Start level and `T0SZ` for a physical address range, as `(t0sz,
/// first_level)`.
pub open spec fn translation_parameters(parange: u64) -> (u64, int) {
    if parange == 0 {
        (32, 1)
    } else if parange == 1 {
        (28, 1)
    } else if parange == 2 {
        (24, 1)
    } else if parange == 3 {
        (22, 0)
    } else if parange == 4 {
        (20, 0)
    } else {
        (16, 0)
    }
}

/// The value of `VTCR_EL2` for a physical address range: 4 KiB granule,
/// inner shareable, write-back cacheable walks.
pub open spec fn vtcr_el2_for(parange: u64) -> u64 {
    let t0sz = translation_parameters(parange).0;
    let sl0: u64 = if translation_parameters(parange).1 == 1 {
        1
    } else {
        2
    };
    VTCR_EL2_RES1 | (parange << VTCR_EL2_PS_BITS_OFFSET) | (0u64 << VTCR_EL2_TG0_BITS_OFFSET) | (
    0b11u64 << VTCR_EL2_SH0_BITS_OFFSET) | (0b11u64 << VTCR_EL2_ORG0_BITS_OFFSET) | (0b11u64
        << VTCR_EL2_IRG0_BITS_OFFSET) | (sl0 << VTCR_EL2_SL0_BITS_OFFSET) | (t0sz
        << VTCR_EL2_T0SZ_BITS_OFFSET)
}

/// The alignment, as a number of address bits, of the root table.
pub open spec fn root_alignment(look_up_level: int, t0sz: int, number_of_tables: int) -> int {
    let bits = 64 - 9 * (4 - look_up_level) - t0sz;
    (if bits < 4 {
        4
    } else if bits > 12 {
        12
    } else {
        bits
    }) + (number_of_tables - 1)
}

impl View for Stage2Translation {
    type V = Stage2View;

    open spec fn view(&self) -> Stage2View {
        Stage2View { vtcr_el2: self.vtcr_el2, vttbr_el2: self.vttbr_el2, root: self.root@ }
    }
}

impl Stage2View {
    /// The level of the root table.
    pub open spec fn first_level(self) -> int {
        first_level_of(self.vtcr_el2)
    }

    /// The physical address that the intermediate physical address `ipa`
    /// translates to, if it is mapped.
    pub open spec fn translate(self, ipa: int) -> Option<int> {
        translate(self.root, self.first_level(), ipa)
    }

    /// The entry at which the walk for `ipa` ends, if it is mapped.
    pub open spec fn walk(self, ipa: int) -> Option<WalkEnd> {
        walk(self.root, self.first_level(), ipa)
    }

    /// The number of bytes from `ipa` to the end of the root table, as the
    /// walk sees it: the index into the root table wraps round at the
    /// table's size.
    pub open spec fn bytes_to_end(self, ipa: int) -> int {
        bytes_to_end(
            ipa,
            self.first_level(),
            self.root.slots.len() - table_index(
                ipa,
                self.first_level(),
                self.root.slots.len() as int,
            ),
        )
    }

    /// Whether two addresses lie in the same stretch of the address space
    /// that the root table covers without wrapping round.
    pub open spec fn same_window(self, first: int, second: int) -> bool {
        block_number(first, self.first_level()) / (self.root.slots.len() as int) == block_number(
            second,
            self.first_level(),
        ) / (self.root.slots.len() as int)
    }

    /// The root table is a consistent tree for the start level, of the
    /// size that start level and `T0SZ` call for, at the address in
    /// `VTTBR_EL2`.
    pub open spec fn well_formed(self) -> bool {
        &&& self.root.well_formed(self.first_level())
        &&& self.root.slots.len() == concatenated_tables(
            t0sz_of(self.vtcr_el2),
            self.first_level(),
        ) * ENTRIES_PER_TABLE
        &&& self.root.address == self.vttbr_el2
    }
}

impl Stage2Translation {
    /// The level of the root table.
    pub fn first_level(&self) -> (level: i8)
        ensures
            level == self@.first_level(),
            0 <= level <= 3,
    {
        let vtcr_el2: u64 = self.vtcr_el2;
        assert((vtcr_el2 & 0xC0u64) >> 6u64 <= 3) by (bit_vector);
        let sl0: u64 = (vtcr_el2 & VTCR_EL2_SL0) >> VTCR_EL2_SL0_BITS_OFFSET;
        if sl0 == 0b00 {
            2
        } else if sl0 == 0b01 {
            1
        } else if sl0 == 0b10 {
            0
        } else {
            3
        }
    }

    /// Walks the tables for `ipa` as the hardware does, and gives the
    /// physical address that it translates to, if it is mapped.
    pub fn translate(&self, ipa: u64) -> (pa: Option<u64>)
        requires
            self@.well_formed(),
        ensures
            match self@.translate(ipa as int) {
                Some(address) => pa == Some(address as u64),
                None => pa is None,
            },
    {
        let level = self.first_level();
        translate_from(&self.root, level, ipa)
    }
}

/// Walks the tables for `ipa` from `table` down.
#[verifier::rlimit(60)]
pub fn translate_from(table: &Table, table_level: i8, ipa: u64) -> (pa: Option<u64>)
    requires
        table@.well_formed(table_level as int),
    ensures
        match translate(table@, table_level as int, ipa as int) {
            Some(address) => pa == Some(address as u64),
            None => pa is None,
        },
    decreases 3 - table_level,
{
    proof {
        crate::paging::table::lemma_well_formed_has_entries(table@, table_level as int);
    }
    assert(table@.slots.len() == table.slots@.len());
    let shift_level: u64 = 12 + 9 * (3 - table_level as u64);
    let num_of_entries: usize = table.slots.len();
    proof {
        lemma_index_and_alignment(ipa, table_level as int, num_of_entries as u64);
        lemma_offset_is_mask(ipa, table_level as int);
    }
    let table_index: usize = ((ipa >> shift_level) & (num_of_entries as u64 - 1)) as usize;
    let slot = &table.slots[table_index];
    let offset: u64 = ipa & ((1u64 << shift_level) - 1);
    assert(table@.slots[table_index as int].descriptor == slot.descriptor);
    let output: u64 = slot.descriptor.0 & OUTPUT_ADDRESS_MASK;
    proof {
        lemma_output_and_offset(slot.descriptor.0, offset);
    }
    if table_level == 3 {
        if slot.descriptor.is_level3_descriptor() {
            Some(output + offset)
        } else {
            None
        }
    } else if slot.descriptor.is_block_descriptor() {
        Some(output + offset)
    } else if slot.descriptor.is_table_descriptor() {
        match &slot.child {
            Some(child) => {
                assert(child@ == *table@.slots[table_index as int].child->0);
                translate_from(child, table_level + 1, ipa)
            },
            None => None,
        }
    } else {
        None
    }
}

/// The offset of an address in its block is what the mask of the block
/// size leaves of it.
pub proof fn lemma_offset_is_mask(address: u64, level: int)
    requires
        0 <= level <= 3,
    ensures
        address & ((block_size(level) - 1) as u64) == block_offset(address as int, level),
        block_offset(address as int, level) < 0x80_0000_0000,
{
    reveal(crate::paging::map::blocks);
    reveal(block_offset);
    let shift: nat = (12 + 9 * (3 - level)) as nat;
    vstd::arithmetic::power2::lemma2_to64();
    vstd::arithmetic::power2::lemma2_to64_rest();
    vstd::bits::lemma_u64_low_bits_mask_is_mod(address, shift);
    assert(vstd::bits::low_bits_mask(shift) == block_size(level) - 1);
}

/// An output address and an offset in a block add up without overflow.
pub proof fn lemma_output_and_offset(word: u64, offset: u64)
    by (bit_vector)
    requires
        offset < 0x80_0000_0000,
    ensures
        (word & 0x0003_FFFF_FFFF_F000u64) + offset <= 0xFFFF_FFFF_FFFF_FFFFu64,
{
}

/// The number of tables that are concatenated at the start level.
pub fn number_of_concatenated_page_tables(t0sz: u8, first_level: i8) -> (tables: u64)
    requires
        0 <= first_level <= 3,
    ensures
        tables == concatenated_tables(t0sz as int, first_level as int),
        1 <= tables <= 0x800_0000_0000,
{
    let boundary: u8 = 43 - ((3 - first_level) as u8) * 9;
    proof {
        vstd::arithmetic::power2::lemma2_to64();
        vstd::arithmetic::power2::lemma2_to64_rest();
    }
    if t0sz > boundary {
        1
    } else {
        let exponent: u64 = (boundary - t0sz) as u64;
        proof {
            vstd::bits::lemma_u64_pow2_no_overflow(exponent as nat);
            vstd::bits::lemma_u64_shl_is_mul(1, exponent);
            vstd::arithmetic::power2::lemma_pow2_pos(exponent as nat);
            if exponent < 43 {
                vstd::arithmetic::power2::lemma_pow2_strictly_increases(exponent as nat, 43);
            }
        }
        1u64 << exponent
    }
}

/// For each physical address range the root is one table, but for the
/// range of 40 bits, which starts at level 1 with a `T0SZ` of 24 and takes
/// two.
pub proof fn lemma_root_tables_of_parameters(parange: u64)
    ensures
        concatenated_tables(
            translation_parameters(parange).0 as int,
            translation_parameters(parange).1,
        ) == if parange == 2 {
            2nat
        } else {
            1nat
        },
{
    vstd::arithmetic::power2::lemma2_to64();
}

/// Takes the root table's pages from the pool, aligned as the start level,
/// `T0SZ` and the number of concatenated tables ask, or the one page of a
/// table below the root.
pub fn allocate_page_table_for_stage_2(
    pool: &mut MemoryPool,
    look_up_level: i8,
    t0sz: u8,
    is_for_ttbr: bool,
    number_of_tables: u8,
) -> (result: Result<u64, ()>)
    requires
        old(pool).wf(),
        number_of_tables != 0,
        is_for_ttbr ==> 0 <= look_up_level <= 4 && 9 * (4 - look_up_level) + t0sz <= 64
            && number_of_tables <= 52,
        !is_for_ttbr ==> number_of_tables == 1,
    ensures
        final(pool).wf(),
        final(pool).floor == old(pool).floor,
        ({
            let alignment = if is_for_ttbr {
                root_alignment(look_up_level as int, t0sz as int, number_of_tables as int)
            } else {
                12
            };
            match allocation_address(*old(pool), number_of_tables as int, alignment) {
                Some(address) => {
                    &&& result == Ok::<u64, ()>(address as u64)
                    &&& final(pool).top == address
                    &&& address % (pow2(alignment as nat) as int) == 0
                    &&& address + number_of_tables * 4096 <= old(pool).top
                },
                None => result is Err && *final(pool) == *old(pool),
            }
        }),
{
    let alignment: usize = if is_for_ttbr {
        let bits: usize = 64 - 9 * (4 - look_up_level) as usize - t0sz as usize;
        let clamped: usize = if bits < 4 {
            4
        } else if bits > 12 {
            12
        } else {
            bits
        };
        clamped + (number_of_tables as usize - 1)
    } else {
        12
    };
    allocate_memory(pool, number_of_tables as usize, Some(alignment))
}

/// The fields of the `VTCR_EL2` value for a physical address range read
/// back as they were put in.
pub proof fn lemma_vtcr_fields(parange: u64)
    requires
        parange <= 0xF,
    ensures
        first_level_of(vtcr_el2_for(parange)) == translation_parameters(parange).1,
        t0sz_of(vtcr_el2_for(parange)) == translation_parameters(parange).0,
{
    let t0sz: u64 = translation_parameters(parange).0;
    let sl0: u64 = if translation_parameters(parange).1 == 1 {
        1
    } else {
        2
    };
    let value: u64 = vtcr_el2_for(parange);
    assert((value & 0xC0u64) >> 6u64 == sl0 && (value & 0x3Fu64) >> 0u64 == t0sz) by (bit_vector)
        requires
            value == 0x8000_0000u64 | (parange << 16u64) | (0u64 << 14u64) | (0b11u64 << 12u64) | (
            0b11u64 << 10u64) | (0b11u64 << 8u64) | (sl0 << 6u64) | (t0sz << 0u64),
            sl0 <= 3,
            t0sz <= 63,
            parange <= 0xF,
    ;
}

/// Sets up an empty stage-2 address space for the physical address range
/// that `ID_AA64MMFR0_EL1` reports: picks start level and `T0SZ`, takes the
/// root table from the pool, and gives the values of the two control
/// registers.
///
/// Fails when the pool has no room for the root table.
pub fn setup_stage_2_translation(id_aa64mmfr0_el1: u64, pool: &mut MemoryPool) -> (result: Result<
    Stage2Translation,
    (),
>)
    requires
        old(pool).wf(),
    ensures
        final(pool).wf(),
        final(pool).floor == old(pool).floor,
        ({
            let parange = id_aa64mmfr0_el1 & ID_AA64MMFR0_EL1_PARANGE;
            let t0sz = translation_parameters(parange).0 as int;
            let level = translation_parameters(parange).1;
            let tables = concatenated_tables(t0sz, level);
            match allocation_address(
                *old(pool),
                tables as int,
                root_alignment(level, t0sz, tables as int),
            ) {
                Some(address) => {
                    &&& result is Ok
                    &&& result->Ok_0@.well_formed()
                    &&& result->Ok_0@.vtcr_el2 == vtcr_el2_for(parange)
                    &&& result->Ok_0@.vttbr_el2 == address
                    &&& result->Ok_0@.first_level() == level
                    &&& result->Ok_0@.root == TableView::empty(
                        address as u64,
                        tables * ENTRIES_PER_TABLE as nat,
                    )
                    &&& final(pool).top == address
                },
                None => result is Err && *final(pool) == *old(pool),
            }
        }),
{
    let ps: u64 = id_aa64mmfr0_el1 & ID_AA64MMFR0_EL1_PARANGE;
    assert(ps <= 0xF) by (bit_vector)
        requires
            ps == id_aa64mmfr0_el1 & 0xFu64,
    ;
    let (t0sz, table_level): (u64, i8) = if ps == 0 {
        (32, 1)
    } else if ps == 1 {
        (28, 1)
    } else if ps == 2 {
        (24, 1)
    } else if ps == 3 {
        (22, 0)
    } else if ps == 4 {
        (20, 0)
    } else if ps == 5 {
        (16, 0)
    } else {
        (16, 0)
    };
    let sl0: u64 = if table_level == 1 {
        0b01
    } else {
        0b10
    };
    let number_of_tables: u64 = number_of_concatenated_page_tables(t0sz as u8, table_level);
    proof {
        vstd::arithmetic::power2::lemma2_to64();
        lemma_vtcr_fields(ps);
    }
    let table_address = match allocate_page_table_for_stage_2(
        pool,
        table_level,
        t0sz as u8,
        true,
        number_of_tables as u8,
    ) {
        Ok(address) => address,
        Err(_) => {
            return Err(());
        },
    };
    let root = Table::new(table_address, number_of_tables as usize * ENTRIES_PER_TABLE);
    let vtcr_el2: u64 = VTCR_EL2_RES1 | (ps << VTCR_EL2_PS_BITS_OFFSET) | (0
        << VTCR_EL2_TG0_BITS_OFFSET) | (0b11 << VTCR_EL2_SH0_BITS_OFFSET) | (0b11 << VTCR_EL2_ORG0_BITS_OFFSET) | (0b11
        << VTCR_EL2_IRG0_BITS_OFFSET) | (sl0 << VTCR_EL2_SL0_BITS_OFFSET) | (t0sz
        << VTCR_EL2_T0SZ_BITS_OFFSET);
    proof {
        if number_of_tables == 1 {
            crate::paging::table::lemma_empty_well_formed(table_address, 9, table_level as int);
        } else {
            crate::paging::table::lemma_empty_well_formed(table_address, 10, table_level as int);
        }
    }
    Ok(Stage2Translation { vtcr_el2, vttbr_el2: table_address, root })
}

/// There is at least one page between a page-aligned address and the end
/// of the root table.
pub proof fn lemma_bytes_to_end_positive(space: Stage2View, ipa: int)
    requires
        space.well_formed(),
        0 <= ipa,
        ipa % 4096 == 0,
    ensures
        4096 <= space.bytes_to_end(ipa),
{
    let level = space.first_level();
    let entries = space.root.slots.len() as int;
    crate::paging::table::lemma_well_formed_has_entries(space.root, level);
    vstd::arithmetic::div_mod::lemma_mod_bound(block_number(ipa, level), entries);
    lemma_entry_arithmetic(ipa, ipa, level, entries - table_index(ipa, level, entries));
}

/// Whether a descriptor has the fields that the mapper gives to a block or
/// page: the permission, the access flag, inner shareability and the
/// write-back memory attribute.
pub open spec fn is_mapping_descriptor(descriptor: TableEntry, permission: u64) -> bool {
    &&& descriptor.permission() == permission
    &&& descriptor.access_flag()
    &&& descriptor.shareability() == Shareability::InterShareable.encoding()
    &&& descriptor.memory_attribute() == 0b1111
}

/// The number of bytes from the start of a range that a call of
/// `map_address_stage2` gets mapped.
pub open spec fn mapped_bytes(
    space: Stage2View,
    pool: MemoryPool,
    physical_address: u64,
    virtual_address: u64,
    map_size: u64,
    permission: u64,
) -> int {
    if map_size % 4096 == 0 && map_size > 0 {
        map_size - map_table(
            space.root,
            space.first_level(),
            physical_address as int,
            virtual_address as int,
            map_size as int,
            permission,
            pool,
        ).remaining
    } else {
        0
    }
}

/// Maps `map_size` bytes of intermediate physical addresses from
/// `virtual_address` to the physical addresses from `physical_address`, with
/// the given permissions.
///
/// A size that is no multiple of the page size is refused before anything
/// is touched. Where the pool runs out of pages for tables on the way, what
/// was mapped until then stays. A range that goes beyond the last entry of
/// the root table is mapped up to that entry. The caller invalidates the
/// translation caches after a call that returned `Ok`.
///
/// For page-aligned addresses the last clauses say what the tables
/// translate afterwards. The walk for an address of what got mapped ends at
/// a block of the first level at which the block around the address lies
/// within the range with both addresses multiples of the block size, and at
/// a page where there is no such level. The address goes to its place in the
/// physical range, with the permission asked for. Around the range nothing is
/// mapped that was not mapped before, and after `Ok` an address loses its
/// mapping exactly where that was a block that reaches into the range.
#[verifier::rlimit(60)]
pub fn map_address_stage2(
    space: &mut Stage2Translation,
    pool: &mut MemoryPool,
    physical_address: u64,
    virtual_address: u64,
    map_size: u64,
    is_readable: bool,
    is_writable: bool,
) -> (result: Result<(), Error>)
    requires
        old(space)@.well_formed(),
        old(pool).wf(),
        physical_address + map_size <= u64::MAX,
        virtual_address + map_size <= u64::MAX,
    ensures
        final(space)@.well_formed(),
        final(pool).wf(),
        final(pool).floor == old(pool).floor,
        final(pool).top <= old(pool).top,
        final(space)@.vtcr_el2 == old(space)@.vtcr_el2,
        final(space)@.vttbr_el2 == old(space)@.vttbr_el2,
        map_size % 4096 != 0 ==> result == Err::<(), Error>(Error::SizeNotAligned) && final(space)@
            == old(space)@ && *final(pool) == *old(pool),
        map_size == 0 ==> result is Ok && final(space)@ == old(space)@ && *final(pool) == *old(pool),
        map_size % 4096 == 0 && map_size > 0 ==> {
            let mapped = map_table(
                old(space)@.root,
                old(space)@.first_level(),
                physical_address as int,
                virtual_address as int,
                map_size as int,
                permission_of(is_readable, is_writable),
                *old(pool),
            );
            &&& final(space)@.root == mapped.table
            &&& *final(pool) == mapped.pool
            &&& if mapped.complete {
                result is Ok
            } else {
                result == Err::<(), Error>(Error::AllocationFailed)
            }
        },
        result == Err::<(), Error>(Error::AllocationFailed) ==> allocation_address(
            *final(pool),
            1,
            12,
        ) is None,
        ({
            let before = old(space)@;
            let after = final(space)@;
            let level = before.first_level();
            let permission = permission_of(is_readable, is_writable);
            let start = virtual_address as int;
            let mapped = mapped_bytes(
                before,
                *old(pool),
                physical_address,
                virtual_address,
                map_size,
                permission,
            );
            &&& 0 <= mapped <= map_size
            &&& result is Ok && virtual_address % 4096 == 0 ==> mapped == if map_size
                <= before.bytes_to_end(start) {
                map_size as int
            } else {
                before.bytes_to_end(start)
            }
            &&& physical_address % 4096 == 0 && virtual_address % 4096 == 0 ==> {
                &&& forall|ipa: int|
                    start <= ipa < start + mapped ==> #[trigger] after.walk(ipa) == Some(
                        mapping_entry(
                            level,
                            physical_address as int,
                            start,
                            map_size as int,
                            permission,
                            ipa,
                        ),
                    )
                &&& physical_address + map_size <= 0x4_0000_0000_0000 ==> forall|ipa: int|
                    start <= ipa < start + mapped ==> #[trigger] after.translate(ipa) == Some(
                        physical_address + (ipa - start),
                    )
                &&& physical_address + map_size <= 0x4_0000_0000_0000 ==> forall|ipa: int|
                    start <= ipa < start + mapped ==> is_mapping_descriptor(
                        (#[trigger] after.walk(ipa))->0.descriptor,
                        permission,
                    )
                &&& forall|ipa: int|
                    0 <= ipa && !(start <= ipa < start + mapped) && before.same_window(ipa, start)
                        ==> #[trigger] after.walk(ipa) == before.walk(ipa) || after.walk(ipa) is None
                &&& result is Ok ==> forall|ipa: int|
                    0 <= ipa && !(start <= ipa < start + mapped) && before.same_window(ipa, start)
                        ==> #[trigger] after.walk(ipa) == if walk_end_reaches(
                        before.root,
                        level,
                        ipa,
                        start,
                        start + mapped,
                    ) {
                        None
                    } else {
                        before.walk(ipa)
                    }
            }
        }),
{
    assert((map_size & 0xFFFu64 == 0) == (map_size % 4096 == 0)) by (bit_vector);
    if (map_size & (PAGE_SIZE - 1)) != 0 {
        return Err(Error::SizeNotAligned);
    }
    if map_size == 0 {
        proof {
            if virtual_address % 4096 == 0 {
                lemma_bytes_to_end_positive(space@, virtual_address as int);
            }
        }
        return Ok(());
    }
    let ghost pa = physical_address as int;
    let ghost va = virtual_address as int;
    let ghost size = map_size as int;
    let mut physical_address: u64 = physical_address;
    let mut virtual_address: u64 = virtual_address;
    let mut map_size: u64 = map_size;
    let table_level: i8 = space.first_level();
    assert((1u64 << 1u64) | (1u64 << 0u64) == 3 && (1u64 << 1u64) | 0u64 == 2 && 0u64 | (1u64
        << 0u64) == 1 && 0u64 | 0u64 == 0) by (bit_vector);
    let permission: u64 = (if is_writable {
        1u64 << MEMORY_PERMISSION_WRITABLE_BIT
    } else {
        0
    }) | (if is_readable {
        1u64 << MEMORY_PERMISSION_READABLE_BIT
    } else {
        0
    });
    let mapped = _map_address_stage2(
        &mut physical_address,
        &mut virtual_address,
        &mut map_size,
        &mut space.root,
        permission,
        table_level,
        pool,
    );
    proof {
        let before = old(space)@;
        let level = before.first_level();
        let reached = size - map_size;
        assert(space@.first_level() == level);
        lemma_map_table_progress(before.root, level, pa, va, size, permission, *old(pool));
        if pa % 4096 == 0 && va % 4096 == 0 {
            assert forall|ipa: int| va <= ipa < va + reached implies #[trigger] space@.walk(ipa)
                == Some(mapping_entry(level, pa, va, size, permission, ipa)) by {
                lemma_walk_in_mapped_range(
                    before.root,
                    level,
                    pa,
                    va,
                    size,
                    permission,
                    *old(pool),
                    ipa,
                );
            }
            if pa + size <= 0x4_0000_0000_0000 {
                assert forall|ipa: int| va <= ipa < va + reached implies #[trigger] space@.translate(
                    ipa,
                ) == Some(pa + (ipa - va)) by {
                    lemma_translate_in_mapped_range(
                        before.root,
                        level,
                        pa,
                        va,
                        size,
                        permission,
                        *old(pool),
                        ipa,
                    );
                }
                assert forall|ipa: int| va <= ipa < va + reached implies is_mapping_descriptor(
                    (#[trigger] space@.walk(ipa))->0.descriptor,
                    permission,
                ) by {
                    lemma_translate_in_mapped_range(
                        before.root,
                        level,
                        pa,
                        va,
                        size,
                        permission,
                        *old(pool),
                        ipa,
                    );
                }
            }
            assert forall|ipa: int|
                0 <= ipa && !(va <= ipa < va + reached) && before.same_window(
                    ipa,
                    va,
                ) implies #[trigger] space@.walk(ipa) == before.walk(ipa) || space@.walk(
                ipa,
            ) is None by {
                lemma_walk_outside_mapped_range(
                    before.root,
                    level,
                    pa,
                    va,
                    size,
                    permission,
                    *old(pool),
                    ipa,
                );
            }
            if mapped is Ok {
                assert forall|ipa: int|
                    0 <= ipa && !(va <= ipa < va + reached) && before.same_window(
                        ipa,
                        va,
                    ) implies #[trigger] space@.walk(ipa) == if walk_end_reaches(
                    before.root,
                    level,
                    ipa,
                    va,
                    va + reached,
                ) {
                    None
                } else {
                    before.walk(ipa)
                } by {
                    lemma_walk_outside_mapped_range(
                        before.root,
                        level,
                        pa,
                        va,
                        size,
                        permission,
                        *old(pool),
                        ipa,
                    );
                }
            }
        }
    }
    match mapped {
        Ok(()) => Ok(()),
        Err(_) => Err(Error::AllocationFailed),
    }
}

} // verus!
