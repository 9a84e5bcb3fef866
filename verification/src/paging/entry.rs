//! Translation table descriptors: one 64-bit word per entry.
//!
//! Bits 0..2 hold the descriptor type (`00` invalid, `01` block, `11` table
//! or, at the last level, page), bits 2..6 the memory attribute index, bits
//! 6..8 the stage-2 access permission, bits 8..10 the shareability, bit 10 the
//! access flag and bits 12 and up the address.

use vstd::prelude::*;

verus! {

/// The number of address bits within a page.
pub const PAGE_SHIFT: u64 = 12;

/// The size of a page, and of a table that is not concatenated.
pub const PAGE_SIZE: u64 = 0x1000;

/// The bit of an access permission that allows reads.
pub const MEMORY_PERMISSION_READABLE_BIT: u64 = 0;

/// The bit of an access permission that allows writes.
pub const MEMORY_PERMISSION_WRITABLE_BIT: u64 = 1;

/// Address of the next-level table in a table descriptor: bits 12..52.
pub const TABLE_ADDRESS_MASK: u64 = 0x000F_FFFF_FFFF_F000;

/// Output address in a block or page descriptor: bits 12..50.
pub const OUTPUT_ADDRESS_MASK: u64 = 0x0003_FFFF_FFFF_F000;

pub const DESCRIPTOR_TYPE: u64 = 0b11;

pub const DESCRIPTOR_TYPE_BLOCK: u64 = 0b01;

pub const DESCRIPTOR_TYPE_TABLE: u64 = 0b11;

pub const AF_OFFSET: u64 = 10;

pub const AF: u64 = 0x400;

pub const SH_OFFSET: u64 = 8;

pub const SH: u64 = 0x300;

pub const S2AP_OFFSET: u64 = 6;

pub const S2AP: u64 = 0xC0;

pub const ATTR_INDEX_OFFSET: u64 = 2;

pub const ATTR_INDEX: u64 = 0x3C;

pub const ATTR_WRITE_BACK: u64 = 0x3C;

#[derive(Clone, Copy, Debug)]
pub enum Shareability {
    NonShareable,
    OuterShareable,
    InterShareable,
}

impl Shareability {
    /// The two-bit encoding of the shareability field.
    pub open spec fn encoding(self) -> u64 {
        match self {
            Shareability::NonShareable => 0b00,
            Shareability::OuterShareable => 0b10,
            Shareability::InterShareable => 0b11,
        }
    }

    pub fn bits(self) -> (bits: u64)
        ensures
            bits == self.encoding(),
    {
        match self {
            Shareability::NonShareable => 0b00,
            Shareability::OuterShareable => 0b10,
            Shareability::InterShareable => 0b11,
        }
    }
}

/// Setting the type bits of a word gives the type that was set.
pub proof fn lemma_descriptor_type_bits(word: u64)
    by (bit_vector)
    ensures
        (word | 0b11) & 0b11 == 0b11,
        word & 0b11 == 0 ==> (word | 0b01) & 0b11 == 0b01,
{
}

/// One translation table descriptor.
#[derive(Clone, Copy, Debug)]
pub struct TableEntry(pub u64);

impl TableEntry {
    /// The descriptor type, bits 0..2.
    pub open spec fn descriptor_type(self) -> u64 {
        self.0 & DESCRIPTOR_TYPE
    }

    pub open spec fn spec_is_validated(&self) -> bool {
        self.descriptor_type() != 0
    }

    pub open spec fn spec_is_table_descriptor(&self) -> bool {
        self.descriptor_type() == DESCRIPTOR_TYPE_TABLE
    }

    pub open spec fn spec_is_block_descriptor(&self) -> bool {
        self.descriptor_type() == DESCRIPTOR_TYPE_BLOCK
    }

    pub open spec fn spec_is_level3_descriptor(&self) -> bool {
        self.descriptor_type() == DESCRIPTOR_TYPE_TABLE
    }

    pub open spec fn spec_get_next_table_address(&self) -> u64 {
        self.0 & TABLE_ADDRESS_MASK
    }

    /// The output address of a block or page descriptor.
    pub open spec fn output_address(self) -> u64 {
        self.0 & OUTPUT_ADDRESS_MASK
    }

    /// The access flag, bit 10.
    pub open spec fn access_flag(self) -> bool {
        self.0 & AF != 0
    }

    /// The shareability field, bits 8..10.
    pub open spec fn shareability(self) -> u64 {
        (self.0 & SH) >> SH_OFFSET
    }

    /// The stage-2 access permission, bits 6..8: bit 0 readable, bit 1
    /// writable.
    pub open spec fn permission(self) -> u64 {
        (self.0 & S2AP) >> S2AP_OFFSET
    }

    /// The memory attribute index, bits 2..6.
    pub open spec fn memory_attribute(self) -> u64 {
        (self.0 & ATTR_INDEX) >> ATTR_INDEX_OFFSET
    }

    /// The descriptor after `set_output_address`.
    pub open spec fn with_output_address(self, output_address: u64) -> TableEntry {
        TableEntry((self.0 & !OUTPUT_ADDRESS_MASK) | output_address | AF)
    }

    /// The descriptor after `set_shareability`.
    pub open spec fn with_shareability(self, shareability: Shareability) -> TableEntry {
        TableEntry((self.0 & !SH) | (shareability.encoding() << SH_OFFSET))
    }

    /// The descriptor after `set_permission`.
    pub open spec fn with_permission(self, permission: u64) -> TableEntry {
        TableEntry((self.0 & !S2AP) | (permission << S2AP_OFFSET))
    }

    /// The descriptor after `set_memory_attribute_write_back`.
    pub open spec fn with_write_back(self) -> TableEntry {
        TableEntry((self.0 & !ATTR_INDEX) | ATTR_WRITE_BACK)
    }

    /// The descriptor with the given type bits set on top of its own.
    pub open spec fn validated_as(self, descriptor_type: u64) -> TableEntry {
        TableEntry(self.0 | descriptor_type)
    }

    pub fn new() -> (entry: Self)
        ensures
            entry == TableEntry(0),
    {
        Self(0)
    }

    pub fn init(&mut self)
        ensures
            *final(self) == TableEntry(0),
    {
        *self = Self::new();
    }

    pub fn validate_as_level3_descriptor(&mut self)
        ensures
            *final(self) == old(self).validated_as(DESCRIPTOR_TYPE_TABLE),
            final(self).is_level3_descriptor(),
    {
        proof {
            lemma_descriptor_type_bits(self.0);
        }
        self.0 |= 0b11;
    }

    pub fn validate_as_table_descriptor(&mut self)
        ensures
            *final(self) == old(self).validated_as(DESCRIPTOR_TYPE_TABLE),
            final(self).is_table_descriptor(),
    {
        proof {
            lemma_descriptor_type_bits(self.0);
        }
        self.0 |= 0b11;
    }

    /// Sets bit 0. The result is a block descriptor unless bit 1 was set
    /// before.
    pub fn validate_as_block_descriptor(&mut self)
        ensures
            *final(self) == old(self).validated_as(DESCRIPTOR_TYPE_BLOCK),
            !old(self).is_validated() ==> final(self).is_block_descriptor(),
    {
        proof {
            lemma_descriptor_type_bits(self.0);
        }
        self.0 |= 0b01;
    }

    #[verifier::when_used_as_spec(spec_is_validated)]
    pub fn is_validated(&self) -> (valid: bool)
        ensures
            valid == self.spec_is_validated(),
    {
        (self.0 & 0b11) != 0b00
    }

    #[verifier::when_used_as_spec(spec_is_table_descriptor)]
    pub fn is_table_descriptor(&self) -> (table: bool)
        ensures
            table == self.spec_is_table_descriptor(),
    {
        (self.0 & 0b11) == 0b11
    }

    #[verifier::when_used_as_spec(spec_is_block_descriptor)]
    pub fn is_block_descriptor(&self) -> (block: bool)
        ensures
            block == self.spec_is_block_descriptor(),
    {
        (self.0 & 0b11) == 0b01
    }

    #[verifier::when_used_as_spec(spec_is_level3_descriptor)]
    pub fn is_level3_descriptor(&self) -> (page: bool)
        ensures
            page == self.spec_is_level3_descriptor(),
    {
        (self.0 & 0b11) == 0b11
    }

    #[verifier::when_used_as_spec(spec_get_next_table_address)]
    pub fn get_next_table_address(&self) -> (address: u64)
        ensures
            address == self.spec_get_next_table_address(),
    {
        self.0 & TABLE_ADDRESS_MASK
    }

    /// Replaces the output address, bits 12..50, and sets the access flag.
    /// An address with bits outside the field also reaches the bits around
    /// it.
    pub fn set_output_address(&mut self, output_address: u64)
        ensures
            *final(self) == old(self).with_output_address(output_address),
            output_address & !OUTPUT_ADDRESS_MASK == 0 ==> {
                &&& final(self).output_address() == output_address
                &&& final(self).access_flag()
                &&& final(self).0 & !(OUTPUT_ADDRESS_MASK | AF) == old(self).0 & !(
                OUTPUT_ADDRESS_MASK | AF)
            },
    {
        proof {
            lemma_field_updates(self.0, output_address);
        }
        self.0 = (self.0 & !OUTPUT_ADDRESS_MASK) | output_address | AF;
    }

    /// Replaces the shareability field.
    pub fn set_shareability(&mut self, shareability: Shareability)
        ensures
            *final(self) == old(self).with_shareability(shareability),
            final(self).shareability() == shareability.encoding(),
            final(self).0 & !SH == old(self).0 & !SH,
    {
        proof {
            lemma_field_updates(self.0, shareability.encoding());
        }
        self.0 = (self.0 & !SH) | (shareability.bits() << SH_OFFSET);
    }

    /// Replaces the access permission field. A permission above `0b11` also
    /// reaches the bits above the field.
    pub fn set_permission(&mut self, permission: u64)
        ensures
            *final(self) == old(self).with_permission(permission),
            permission <= 0b11 ==> {
                &&& final(self).permission() == permission
                &&& final(self).0 & !S2AP == old(self).0 & !S2AP
            },
    {
        proof {
            lemma_field_updates(self.0, permission);
        }
        self.0 = (self.0 & !S2AP) | (permission << S2AP_OFFSET);
    }

    /// Selects the write-back memory attribute, index `0b1111`.
    pub fn set_memory_attribute_write_back(&mut self)
        ensures
            *final(self) == old(self).with_write_back(),
            final(self).memory_attribute() == 0b1111,
            final(self).0 & !ATTR_INDEX == old(self).0 & !ATTR_INDEX,
    {
        proof {
            lemma_field_updates(self.0, 0);
        }
        self.0 = (self.0 & !ATTR_INDEX) | ATTR_WRITE_BACK;
    }
}

/// Replacing one field of a word gives that field its new value and leaves
/// the bits outside it alone, as long as the value fits the field.
pub proof fn lemma_field_updates(word: u64, value: u64)
    by (bit_vector)
    ensures
        value & !0x0003_FFFF_FFFF_F000u64 == 0 ==> {
            &&& ((word & !0x0003_FFFF_FFFF_F000u64) | value | 0x400u64) & 0x0003_FFFF_FFFF_F000u64
                == value
            &&& ((word & !0x0003_FFFF_FFFF_F000u64) | value | 0x400u64) & 0x400u64 != 0
            &&& ((word & !0x0003_FFFF_FFFF_F000u64) | value | 0x400u64) & !(0x0003_FFFF_FFFF_F000u64
                | 0x400u64) == word & !(0x0003_FFFF_FFFF_F000u64 | 0x400u64)
        },
        value <= 3 ==> {
            &&& (((word & !0x300u64) | (value << 8u64)) & 0x300u64) >> 8u64 == value
            &&& ((word & !0x300u64) | (value << 8u64)) & !0x300u64 == word & !0x300u64
            &&& (((word & !0xC0u64) | (value << 6u64)) & 0xC0u64) >> 6u64 == value
            &&& ((word & !0xC0u64) | (value << 6u64)) & !0xC0u64 == word & !0xC0u64
        },
        (((word & !0x3Cu64) | 0x3Cu64) & 0x3Cu64) >> 2u64 == 0xF,
        ((word & !0x3Cu64) | 0x3Cu64) & !0x3Cu64 == word & !0x3Cu64,
{
}

} // verus!
