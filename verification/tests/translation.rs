use hypervisor_core::memory::MemoryPool;
use hypervisor_core::paging::map::_map_address_stage2;
use hypervisor_core::paging::stage2::{
    allocate_page_table_for_stage_2, map_address_stage2, number_of_concatenated_page_tables,
    setup_stage_2_translation, Error, Stage2Translation,
};
use hypervisor_core::paging::table::{Slot, Table};

fn pool_of(pages: u64) -> MemoryPool {
    MemoryPool::new(0x8000_0000, pages).unwrap()
}

fn space_for(parange: u64, pool: &mut MemoryPool) -> Stage2Translation {
    setup_stage_2_translation(parange, pool).unwrap()
}

fn child(slot: &Slot) -> &Table {
    slot.child.as_ref().unwrap()
}

fn count_tables(table: &Table) -> usize {
    let mut count = 1;
    for slot in table.slots.iter() {
        if let Some(below) = &slot.child {
            count += count_tables(below);
        }
    }
    count
}

#[test]
fn root_tables_for_the_six_address_ranges() {
    assert_eq!(number_of_concatenated_page_tables(32, 1), 1);
    assert_eq!(number_of_concatenated_page_tables(28, 1), 1);
    assert_eq!(number_of_concatenated_page_tables(24, 1), 2);
    assert_eq!(number_of_concatenated_page_tables(22, 0), 1);
    assert_eq!(number_of_concatenated_page_tables(20, 0), 1);
    assert_eq!(number_of_concatenated_page_tables(16, 0), 1);
}

#[test]
fn root_tables_are_a_power_of_two() {
    assert_eq!(number_of_concatenated_page_tables(25, 1), 1);
    assert_eq!(number_of_concatenated_page_tables(26, 1), 1);
    assert_eq!(number_of_concatenated_page_tables(23, 1), 4);
    assert_eq!(number_of_concatenated_page_tables(21, 1), 16);
    assert_eq!(number_of_concatenated_page_tables(12, 0), 16);
    assert_eq!(number_of_concatenated_page_tables(30, 2), 16);
    assert_eq!(number_of_concatenated_page_tables(43, 3), 1);
    assert_eq!(number_of_concatenated_page_tables(40, 3), 8);
    assert_eq!(number_of_concatenated_page_tables(0, 3), 1 << 43);
    assert_eq!(number_of_concatenated_page_tables(255, 0), 1);
}

#[test]
fn setup_picks_level_and_t0sz_by_address_range() {
    let expected: [(u64, i8, u64, usize); 7] = [
        (0, 1, 32, 512),
        (1, 1, 28, 512),
        (2, 1, 24, 1024),
        (3, 0, 22, 512),
        (4, 0, 20, 512),
        (5, 0, 16, 512),
        (6, 0, 16, 512),
    ];
    for (parange, level, t0sz, entries) in expected {
        let mut pool = pool_of(16);
        let space = space_for(parange, &mut pool);
        assert_eq!(space.first_level(), level);
        assert_eq!(space.vtcr_el2 & 0x3F, t0sz);
        assert_eq!(space.root.slots.len(), entries);
        assert_eq!(space.root.address, space.vttbr_el2);
        assert!(space.root.slots.iter().all(|slot| slot.descriptor.0 == 0 && slot.child.is_none()));
    }
}

#[test]
fn setup_reads_only_the_address_range_field() {
    let mut pool = pool_of(16);
    let space = space_for(0xFFFF_FFFF_FFFF_FFF2, &mut pool);
    assert_eq!(space.first_level(), 1);
    assert_eq!(space.root.slots.len(), 1024);
    assert_eq!(space.vtcr_el2, 0x8000_0000 | (2 << 16) | 0x3F00 | (1 << 6) | 24);
}

#[test]
fn setup_gives_the_control_register_value() {
    let mut pool = pool_of(16);
    let space = space_for(5, &mut pool);
    assert_eq!(space.vtcr_el2, 0x8005_3F90);
    let mut other = pool_of(16);
    let small = space_for(0, &mut other);
    assert_eq!(small.vtcr_el2, 0x8000_3F60);
}

#[test]
fn setup_takes_the_root_from_the_pool() {
    let mut pool = pool_of(16);
    let space = space_for(5, &mut pool);
    assert_eq!(space.vttbr_el2, 0x8000_F000);
    assert_eq!(pool.top, 0x8000_F000);
    let mut two = pool_of(16);
    let wide = space_for(2, &mut two);
    assert_eq!(wide.vttbr_el2, 0x8000_E000);
    assert_eq!(two.top, 0x8000_E000);
}

#[test]
fn setup_fails_without_room_for_the_root() {
    let mut pool = pool_of(1);
    assert!(setup_stage_2_translation(2, &mut pool).is_err());
    assert_eq!(pool.top, 0x8000_1000);
    let mut empty = pool_of(0);
    assert!(setup_stage_2_translation(5, &mut empty).is_err());
}

#[test]
fn root_alignment_follows_level_and_t0sz() {
    let mut pool = MemoryPool { floor: 0x1000, top: 0x8_1010 };
    assert_eq!(allocate_page_table_for_stage_2(&mut pool, 1, 32, true, 1), Ok(0x8_0000));
    let mut wide = MemoryPool { floor: 0x1000, top: 0x8_5010 };
    assert_eq!(allocate_page_table_for_stage_2(&mut wide, 1, 24, true, 2), Ok(0x8_2000));
    let mut inner = MemoryPool { floor: 0x1000, top: 0x8_1010 };
    assert_eq!(allocate_page_table_for_stage_2(&mut inner, 1, 32, false, 1), Ok(0x8_0000));
    let mut fine = MemoryPool { floor: 0x1000, top: 0x8_1030 };
    assert_eq!(allocate_page_table_for_stage_2(&mut fine, 1, 32, true, 1), Ok(0x8_0020));
    let mut coarse = MemoryPool { floor: 0x1000, top: 0x8_1030 };
    assert_eq!(allocate_page_table_for_stage_2(&mut coarse, 0, 16, true, 1), Ok(0x8_0000));
}

#[test]
fn size_that_is_no_multiple_of_the_page_size_is_refused() {
    let mut pool = pool_of(16);
    let mut space = space_for(5, &mut pool);
    let top = pool.top;
    assert_eq!(
        map_address_stage2(&mut space, &mut pool, 0x4000_0000, 0x4000_0000, 0x1001, true, true),
        Err(Error::SizeNotAligned)
    );
    assert_eq!(
        map_address_stage2(&mut space, &mut pool, 0x4000_0000, 0x4000_0000, 0xFFF, true, true),
        Err(Error::SizeNotAligned)
    );
    assert_eq!(pool.top, top);
    assert_eq!(count_tables(&space.root), 1);
    assert!(space.root.slots.iter().all(|slot| slot.descriptor.0 == 0));
}

#[test]
fn empty_range_maps_nothing() {
    let mut pool = pool_of(16);
    let mut space = space_for(5, &mut pool);
    let top = pool.top;
    assert_eq!(
        map_address_stage2(&mut space, &mut pool, 0x4000_0000, 0x4000_0000, 0, true, true),
        Ok(())
    );
    assert_eq!(pool.top, top);
    assert!(space.root.slots.iter().all(|slot| slot.descriptor.0 == 0));
    assert_eq!(space.translate(0x4000_0000), None);
}

#[test]
fn one_page_goes_down_to_the_last_level() {
    let mut pool = pool_of(16);
    let mut space = space_for(0, &mut pool);
    assert_eq!(
        map_address_stage2(&mut space, &mut pool, 0x9000_3000, 0x4020_5000, 0x1000, true, false),
        Ok(())
    );
    assert_eq!(count_tables(&space.root), 3);
    let first = &space.root.slots[1];
    assert!(first.descriptor.is_table_descriptor());
    assert_eq!(first.descriptor.get_next_table_address(), child(first).address);
    assert_eq!(child(first).address, 0x8000_E000);
    assert_eq!(first.descriptor.0, 0x8000_E403);
    let second = &child(first).slots[1];
    assert_eq!(second.descriptor.0, 0x8000_D403);
    assert_eq!(child(second).address, 0x8000_D000);
    let page = &child(second).slots[5];
    assert_eq!(page.descriptor.0, 0x9000_3000 | 0x400 | 0x300 | 0x40 | 0x3C | 0b11);
    assert!(page.child.is_none());
    assert_eq!(pool.top, 0x8000_D000);
    assert_eq!(space.translate(0x4020_5000), Some(0x9000_3000));
    assert_eq!(space.translate(0x4020_5FFF), Some(0x9000_3FFF));
    assert_eq!(space.translate(0x4020_4FFF), None);
    assert_eq!(space.translate(0x4020_6000), None);
}

#[test]
fn aligned_two_megabytes_become_one_block() {
    let mut pool = pool_of(16);
    let mut space = space_for(0, &mut pool);
    assert_eq!(
        map_address_stage2(&mut space, &mut pool, 0x8020_0000, 0x4020_0000, 0x20_0000, true, true),
        Ok(())
    );
    assert_eq!(count_tables(&space.root), 2);
    let block = &child(&space.root.slots[1]).slots[1];
    assert!(block.descriptor.is_block_descriptor());
    assert_eq!(block.descriptor.0, 0x8020_0000 | 0x400 | 0x300 | 0xC0 | 0x3C | 0b01);
    assert!(block.child.is_none());
    assert_eq!(space.translate(0x4020_0000), Some(0x8020_0000));
    assert_eq!(space.translate(0x4031_2345), Some(0x8031_2345));
    assert_eq!(space.translate(0x403F_FFFF), Some(0x803F_FFFF));
    assert_eq!(space.translate(0x4040_0000), None);
    assert_eq!(space.translate(0x401F_FFFF), None);
}

#[test]
fn aligned_gigabyte_becomes_one_block_at_level_one() {
    let mut pool = pool_of(16);
    let mut space = space_for(0, &mut pool);
    assert_eq!(
        map_address_stage2(
            &mut space,
            &mut pool,
            0x4000_0000,
            0x4000_0000,
            0x8000_0000,
            true,
            true
        ),
        Ok(())
    );
    assert_eq!(count_tables(&space.root), 1);
    assert_eq!(space.root.slots[0].descriptor.0, 0);
    assert_eq!(space.root.slots[1].descriptor.0, 0x4000_07FD);
    assert_eq!(space.root.slots[2].descriptor.0, 0x8000_07FD);
    assert_eq!(space.root.slots[3].descriptor.0, 0);
    assert_eq!(space.translate(0x4000_0000), Some(0x4000_0000));
    assert_eq!(space.translate(0xBFFF_FFFF), Some(0xBFFF_FFFF));
    assert_eq!(space.translate(0xC000_0000), None);
    assert_eq!(space.translate(0x3FFF_FFFF), None);
}

#[test]
fn physical_misalignment_forces_pages() {
    let mut pool = pool_of(16);
    let mut space = space_for(0, &mut pool);
    assert_eq!(
        map_address_stage2(&mut space, &mut pool, 0x8020_1000, 0x4020_0000, 0x20_0000, true, true),
        Ok(())
    );
    assert_eq!(count_tables(&space.root), 3);
    let second = &child(&space.root.slots[1]).slots[1];
    assert!(second.descriptor.is_table_descriptor());
    let pages = child(second);
    for index in 0..512u64 {
        let page = &pages.slots[index as usize];
        assert!(page.descriptor.is_level3_descriptor());
        assert_eq!(page.descriptor.0 & 0x0003_FFFF_FFFF_F000, 0x8020_1000 + index * 0x1000);
    }
}

#[test]
fn mapped_range_translates_page_by_page() {
    let mut pool = pool_of(64);
    let mut space = space_for(0, &mut pool);
    let physical: u64 = 0x1_2345_6000;
    let virtual_start: u64 = 0x7FDF_F000;
    let size: u64 = 0x60_3000;
    assert_eq!(
        map_address_stage2(&mut space, &mut pool, physical, virtual_start, size, true, true),
        Ok(())
    );
    let mut offset: u64 = 0;
    while offset < size {
        assert_eq!(space.translate(virtual_start + offset), Some(physical + offset));
        assert_eq!(space.translate(virtual_start + offset + 0xABC), Some(physical + offset + 0xABC));
        offset += 0x1000;
    }
    assert_eq!(space.translate(virtual_start - 1), None);
    assert_eq!(space.translate(virtual_start + size), None);
}

#[test]
fn blocks_are_used_exactly_where_they_fit() {
    let mut pool = pool_of(64);
    let mut space = space_for(0, &mut pool);
    assert_eq!(
        map_address_stage2(
            &mut space,
            &mut pool,
            0x1_001F_F000,
            0x401F_F000,
            0x40_2000,
            true,
            true
        ),
        Ok(())
    );
    let gigabyte = child(&space.root.slots[1]);
    let head = &gigabyte.slots[0];
    assert!(head.descriptor.is_table_descriptor());
    assert_eq!(child(head).slots[510].descriptor.0, 0);
    assert_eq!(child(head).slots[511].descriptor.0, 0x1_001F_F7FF);
    assert_eq!(gigabyte.slots[1].descriptor.0, 0x1_0020_07FD);
    assert_eq!(gigabyte.slots[2].descriptor.0, 0x1_0040_07FD);
    let tail = &gigabyte.slots[3];
    assert!(tail.descriptor.is_table_descriptor());
    assert_eq!(child(tail).slots[0].descriptor.0, 0x1_0060_07FF);
    assert_eq!(child(tail).slots[1].descriptor.0, 0);
    assert_eq!(count_tables(&space.root), 4);
}

#[test]
fn permissions_are_packed_into_the_descriptor() {
    let cases: [(bool, bool, u64); 4] =
        [(false, false, 0), (true, false, 1), (false, true, 2), (true, true, 3)];
    for (readable, writable, field) in cases {
        let mut pool = pool_of(16);
        let mut space = space_for(0, &mut pool);
        assert_eq!(
            map_address_stage2(
                &mut space,
                &mut pool,
                0x4000_0000,
                0x4000_0000,
                0x4000_0000,
                readable,
                writable
            ),
            Ok(())
        );
        assert_eq!(space.root.slots[1].descriptor.0, 0x4000_0000 | 0x400 | 0x300 | (field << 6) | 0x3C | 1);
    }
}

#[test]
fn second_mapping_reuses_the_tables_that_are_there() {
    let mut pool = pool_of(16);
    let mut space = space_for(0, &mut pool);
    assert_eq!(
        map_address_stage2(&mut space, &mut pool, 0x9000_0000, 0x4020_0000, 0x1000, true, true),
        Ok(())
    );
    let top = pool.top;
    assert_eq!(
        map_address_stage2(&mut space, &mut pool, 0xA000_0000, 0x4020_1000, 0x1000, true, true),
        Ok(())
    );
    assert_eq!(pool.top, top);
    assert_eq!(count_tables(&space.root), 3);
    assert_eq!(space.translate(0x4020_0010), Some(0x9000_0010));
    assert_eq!(space.translate(0x4020_1010), Some(0xA000_0010));
}

#[test]
fn mapping_over_a_block_with_pages_drops_the_rest_of_the_block() {
    let mut pool = pool_of(16);
    let mut space = space_for(0, &mut pool);
    assert_eq!(
        map_address_stage2(&mut space, &mut pool, 0x8020_0000, 0x4020_0000, 0x20_0000, true, true),
        Ok(())
    );
    assert_eq!(space.translate(0x4020_2000), Some(0x8020_2000));
    assert_eq!(
        map_address_stage2(&mut space, &mut pool, 0x9000_0000, 0x4020_1000, 0x1000, true, true),
        Ok(())
    );
    assert_eq!(space.translate(0x4020_1000), Some(0x9000_0000));
    assert_eq!(space.translate(0x4020_0000), None);
    assert_eq!(space.translate(0x4020_2000), None);
}

#[test]
fn mapping_a_block_over_pages_drops_the_table_below() {
    let mut pool = pool_of(16);
    let mut space = space_for(0, &mut pool);
    assert_eq!(
        map_address_stage2(&mut space, &mut pool, 0x9000_0000, 0x4020_1000, 0x1000, true, true),
        Ok(())
    );
    assert_eq!(count_tables(&space.root), 3);
    assert_eq!(
        map_address_stage2(&mut space, &mut pool, 0x8020_0000, 0x4020_0000, 0x20_0000, true, true),
        Ok(())
    );
    assert_eq!(count_tables(&space.root), 2);
    assert_eq!(space.translate(0x4020_1000), Some(0x8020_1000));
}

#[test]
fn exhausted_pool_fails_and_keeps_what_was_mapped() {
    let mut pool = pool_of(4);
    let mut space = space_for(0, &mut pool);
    assert_eq!(
        map_address_stage2(&mut space, &mut pool, 0x9000_0000, 0x401F_F000, 0x2000, true, true),
        Ok(())
    );
    assert_eq!(pool.top, pool.floor);
    assert_eq!(count_tables(&space.root), 4);
    let mut other = pool_of(3);
    let mut short = space_for(0, &mut other);
    assert_eq!(
        map_address_stage2(&mut short, &mut other, 0x9000_0000, 0x401F_F000, 0x2000, true, true),
        Err(Error::AllocationFailed)
    );
    assert_eq!(other.top, other.floor);
    assert_eq!(short.translate(0x401F_F000), Some(0x9000_0000));
    assert_eq!(short.translate(0x4020_0000), None);
    let mut none = pool_of(1);
    let mut bare = space_for(0, &mut none);
    assert_eq!(
        map_address_stage2(&mut bare, &mut none, 0x9000_0000, 0x4020_0000, 0x1000, true, true),
        Err(Error::AllocationFailed)
    );
    assert!(bare.root.slots.iter().all(|slot| slot.descriptor.0 == 0));
}

#[test]
fn range_beyond_the_root_table_stops_at_its_end() {
    let mut pool = pool_of(16);
    let mut space = space_for(0, &mut pool);
    let last: u64 = 511 * 0x4000_0000;
    assert_eq!(
        map_address_stage2(&mut space, &mut pool, last, last, 0x8000_0000, true, true),
        Ok(())
    );
    assert_eq!(space.root.slots[511].descriptor.0, last | 0x7FD);
    assert_eq!(space.root.slots[0].descriptor.0, 0);
    assert_eq!(space.translate(last), Some(last));
    assert_eq!(space.translate(0), None);
}

#[test]
fn mapper_on_a_single_table_moves_the_counters() {
    let mut table = Table::new(0x10_0000, 512);
    let mut pool = pool_of(4);
    let mut physical: u64 = 0x5000_0000;
    let mut virtual_start: u64 = 0x1FE000;
    let mut remaining: u64 = 0x5000;
    let result = _map_address_stage2(
        &mut physical,
        &mut virtual_start,
        &mut remaining,
        &mut table,
        3,
        3,
        &mut pool,
    );
    assert_eq!(result, Ok(()));
    assert_eq!(physical, 0x5000_2000);
    assert_eq!(virtual_start, 0x20_0000);
    assert_eq!(remaining, 0x3000);
    assert_eq!(table.slots[509].descriptor.0, 0);
    assert_eq!(table.slots[510].descriptor.0, 0x5000_07FF);
    assert_eq!(table.slots[511].descriptor.0, 0x5000_17FF);
    assert_eq!(table.address, 0x10_0000);
}

#[test]
fn unaligned_virtual_address_maps_page_entries_in_turn() {
    let mut pool = pool_of(16);
    let mut space = space_for(0, &mut pool);
    assert_eq!(
        map_address_stage2(&mut space, &mut pool, 0x9000_0000, 0x4020_0800, 0x2000, true, true),
        Ok(())
    );
    let pages = child(&child(&space.root.slots[1]).slots[1]);
    assert_eq!(pages.slots[0].descriptor.0, 0x9000_07FF);
    assert_eq!(pages.slots[1].descriptor.0, 0x9000_17FF);
    assert_eq!(pages.slots[2].descriptor.0, 0);
}
