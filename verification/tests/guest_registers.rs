use hypervisor_core::el1::{
    guest_cnthctl_el2, guest_cpacr_el1_from, guest_cptr_el2_from, guest_hcr_el2,
    guest_tcr_el1_from,
};

#[test]
fn counter_and_timer_are_open_to_the_guest() {
    assert_eq!(guest_cnthctl_el2(), 0b11);
}

#[test]
fn hypervisor_configuration_value() {
    assert_eq!(
        guest_hcr_el2(),
        (1 << 47) | (1 << 41) | (1 << 40) | (1 << 31) | (1 << 19) | 1
    );
}

#[test]
fn cpacr_takes_zen_and_tta_and_never_traps_floating_point() {
    assert_eq!(guest_cpacr_el1_from(0), 0b11 << 20);
    assert_eq!(guest_cpacr_el1_from(0b01 << 16), (0b11 << 20) | (0b01 << 16));
    assert_eq!(guest_cpacr_el1_from(0b10 << 16), (0b11 << 20) | (0b10 << 16));
    assert_eq!(guest_cpacr_el1_from(1 << 20), (0b11 << 20) | (1 << 28));
    assert_eq!(guest_cpacr_el1_from(0b10 << 20), 0b11 << 20);
    assert_eq!(
        guest_cpacr_el1_from(0xFFFF_FFFF_FFFF_FFFF),
        (1 << 28) | (0b11 << 20) | (0b11 << 16)
    );
}

#[test]
fn cptr_stops_trapping_and_clears_three_bits() {
    assert_eq!(guest_cptr_el2_from(0), (0b11 << 20) | (0b11 << 16));
    assert_eq!(
        guest_cptr_el2_from(0xFFFF_FFFF_FFFF_FFFF),
        0xFFFF_FFFF_FFFF_FFFF & !((1 << 28) | (1 << 30) | (1 << 31))
    );
    assert_eq!(
        guest_cptr_el2_from(0x33FF),
        0x33FF | (0b11 << 20) | (0b11 << 16)
    );
    assert_eq!(guest_cptr_el2_from((1 << 29) | (1 << 31)), (1 << 29) | (0b11 << 20) | (0b11 << 16));
}

#[test]
fn tcr_keeps_the_low_fields_and_disables_ttbr1() {
    assert_eq!(guest_tcr_el1_from(0), 1 << 23);
    assert_eq!(guest_tcr_el1_from(0xFFFF), 0xFFFF | (1 << 23));
    assert_eq!(guest_tcr_el1_from(0x3519), 0x3519 | (1 << 23));
}

#[test]
fn tcr_moves_every_field_to_its_place() {
    let moves: [(u64, u64); 13] = [
        (32, 59),
        (30, 57),
        (29, 51),
        (28, 46),
        (27, 45),
        (26, 44),
        (25, 43),
        (24, 41),
        (22, 40),
        (21, 39),
        (20, 37),
        (18, 34),
        (16, 32),
    ];
    for (from, to) in moves {
        assert_eq!(guest_tcr_el1_from(1 << from), (1 << to) | (1 << 23));
    }
    assert_eq!(guest_tcr_el1_from(1 << 17), (1 << 33) | (1 << 23));
    assert_eq!(guest_tcr_el1_from(1 << 19), 1 << 23);
    assert_eq!(guest_tcr_el1_from(1 << 23), 1 << 23);
    assert_eq!(guest_tcr_el1_from(1 << 31), 1 << 23);
    assert_eq!(guest_tcr_el1_from(1 << 33), 1 << 23);
    assert_eq!(
        guest_tcr_el1_from(0xFFFF_FFFF_FFFF_FFFF),
        0x0A08_7BA7_0080_FFFF
    );
}
