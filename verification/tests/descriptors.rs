use hypervisor_core::paging::entry::{Shareability, TableEntry};

#[test]
fn new_entry_is_invalid() {
    let entry = TableEntry::new();
    assert_eq!(entry.0, 0);
    assert!(!entry.is_validated());
    assert!(!entry.is_table_descriptor());
    assert!(!entry.is_block_descriptor());
    assert!(!entry.is_level3_descriptor());
}

#[test]
fn init_clears_every_bit() {
    let mut entry = TableEntry(0xFFFF_FFFF_FFFF_FFFF);
    entry.init();
    assert_eq!(entry.0, 0);
}

#[test]
fn validate_as_block_sets_bit_zero() {
    let mut entry = TableEntry::new();
    entry.validate_as_block_descriptor();
    assert_eq!(entry.0, 0b01);
    assert!(entry.is_validated());
    assert!(entry.is_block_descriptor());
    assert!(!entry.is_table_descriptor());
}

#[test]
fn validate_as_block_on_a_table_descriptor_stays_table() {
    let mut entry = TableEntry(0b10);
    entry.validate_as_block_descriptor();
    assert_eq!(entry.0, 0b11);
    assert!(!entry.is_block_descriptor());
}

#[test]
fn validate_as_table_sets_both_type_bits() {
    let mut entry = TableEntry(0x4000_0000);
    entry.validate_as_table_descriptor();
    assert_eq!(entry.0, 0x4000_0003);
    assert!(entry.is_table_descriptor());
    assert!(entry.is_validated());
}

#[test]
fn validate_as_level3_sets_both_type_bits() {
    let mut entry = TableEntry(0x1000);
    entry.validate_as_level3_descriptor();
    assert_eq!(entry.0, 0x1003);
    assert!(entry.is_level3_descriptor());
}

#[test]
fn output_address_is_stored_with_access_flag() {
    let mut entry = TableEntry::new();
    entry.set_output_address(0x4020_0000);
    assert_eq!(entry.0, 0x4020_0400);
}

#[test]
fn output_address_replaces_the_old_one_and_keeps_attributes() {
    let mut entry = TableEntry(0x0000_0000_8000_07FD);
    entry.set_output_address(0x1234_5000);
    assert_eq!(entry.0, 0x0000_0000_1234_57FD);
}

#[test]
fn next_table_address_reads_bits_12_to_52() {
    let entry = TableEntry(0xFFF0_0000_4567_8FFF);
    assert_eq!(entry.get_next_table_address(), 0x0000_0000_4567_8000);
    let mut table = TableEntry::new();
    table.set_output_address(0x8765_4000);
    table.validate_as_table_descriptor();
    assert_eq!(table.0, 0x8765_4403);
    assert_eq!(table.get_next_table_address(), 0x8765_4000);
}

#[test]
fn shareability_encodings() {
    assert_eq!(Shareability::NonShareable.bits(), 0b00);
    assert_eq!(Shareability::OuterShareable.bits(), 0b10);
    assert_eq!(Shareability::InterShareable.bits(), 0b11);
}

#[test]
fn shareability_field_is_replaced() {
    let mut entry = TableEntry(0xFFFF_FFFF_FFFF_FFFF);
    entry.set_shareability(Shareability::NonShareable);
    assert_eq!(entry.0, 0xFFFF_FFFF_FFFF_FCFF);
    entry.set_shareability(Shareability::OuterShareable);
    assert_eq!(entry.0, 0xFFFF_FFFF_FFFF_FEFF);
    let mut empty = TableEntry::new();
    empty.set_shareability(Shareability::InterShareable);
    assert_eq!(empty.0, 0x300);
}

#[test]
fn permission_field_is_replaced() {
    let mut entry = TableEntry::new();
    entry.set_permission(0b11);
    assert_eq!(entry.0, 0xC0);
    entry.set_permission(0b01);
    assert_eq!(entry.0, 0x40);
    let mut full = TableEntry(0xFFFF_FFFF_FFFF_FFFF);
    full.set_permission(0b10);
    assert_eq!(full.0, 0xFFFF_FFFF_FFFF_FFBF);
}

#[test]
fn permission_above_the_field_reaches_higher_bits() {
    let mut entry = TableEntry::new();
    entry.set_permission(0b100);
    assert_eq!(entry.0, 0x100);
}

#[test]
fn write_back_attribute_is_index_fifteen() {
    let mut entry = TableEntry::new();
    entry.set_memory_attribute_write_back();
    assert_eq!(entry.0, 0x3C);
    let mut other = TableEntry(0x4000_0401);
    other.set_memory_attribute_write_back();
    assert_eq!(other.0, 0x4000_043D);
}

#[test]
fn a_full_block_descriptor() {
    let mut entry = TableEntry(0xDEAD_BEEF);
    entry.init();
    entry.set_output_address(0x4020_0000);
    entry.set_permission(0b11);
    entry.set_memory_attribute_write_back();
    entry.set_shareability(Shareability::InterShareable);
    entry.validate_as_block_descriptor();
    assert_eq!(entry.0, 0x4020_07FD);
}
