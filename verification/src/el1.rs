//! The values of the system registers of EL1 and EL2 with which the guest
//! starts.
//!
//! Before the first return to EL1 the configuration of EL2 is carried over
//! to EL1: what EL2 allowed itself, the guest is allowed too. The fields that
//! mean the same in both lie at different places in the registers of the two
//! levels, so each is taken out of the one and put into the other.

use vstd::prelude::*;

verus! {

/* CNTHCTL_EL2 */

pub const CNTHCTL_EL2_EL1PCEN: u64 = 0x2;

pub const CNTHCTL_EL2_EL1PCTEN: u64 = 0x1;

/* CPACR_EL1 */

pub const CPACR_EL1_TTA_BIT_OFFSET: u64 = 28;

pub const CPACR_EL1_FPEN_BITS_OFFSET: u64 = 20;

pub const CPACR_EL1_ZEN_BITS_OFFSET: u64 = 16;

/* CPTR_EL2 */

pub const CPTR_EL2_TTA_BIT_OFFSET_WITHOUT_E2H: u64 = 20;

pub const CPTR_EL2_TTA_WITHOUT_E2H: u64 = 0x10_0000;

pub const CPTR_EL2_FPEN_BITS_OFFSET: u64 = 20;

pub const CPTR_EL2_FPEN: u64 = 0x30_0000;

pub const CPTR_EL2_FPEN_NO_TRAP: u64 = 0x30_0000;

pub const CPTR_EL2_ZEN_BITS_OFFSET: u64 = 16;

pub const CPTR_EL2_ZEN: u64 = 0x3_0000;

pub const CPTR_EL2_ZEN_NO_TRAP: u64 = 0x3_0000;

/// The bits of `CPTR_EL2` that are cleared for the guest: 28, 30 and 31.
pub const CPTR_EL2_CLEARED: u64 = 0xD000_0000;

/* TCR_EL2 */

pub const TCR_EL2_DS_BIT_OFFSET_WITHOUT_E2H: u64 = 32;

pub const TCR_EL2_DS_WITHOUT_E2H: u64 = 0x1_0000_0000;

pub const TCR_EL2_TCMA_BIT_OFFSET_WITHOUT_E2H: u64 = 30;

pub const TCR_EL2_TCMA_WITHOUT_E2H: u64 = 0x4000_0000;

pub const TCR_EL2_TBID_BIT_OFFSET_WITHOUT_E2H: u64 = 29;

pub const TCR_EL2_TBID_WITHOUT_E2H: u64 = 0x2000_0000;

pub const TCR_EL2_HWU_BITS_OFFSET_WITHOUT_E2H: u64 = 25;

pub const TCR_EL2_HWU_WITHOUT_E2H: u64 = 0x1E00_0000;

pub const TCR_EL2_HPD_BIT_OFFSET_WITHOUT_E2H: u64 = 24;

pub const TCR_EL2_HPD_WITHOUT_E2H: u64 = 0x100_0000;

pub const TCR_EL2_HD_BIT_OFFSET_WITHOUT_E2H: u64 = 22;

pub const TCR_EL2_HD_WITHOUT_E2H: u64 = 0x40_0000;

pub const TCR_EL2_HA_BIT_OFFSET_WITHOUT_E2H: u64 = 21;

pub const TCR_EL2_HA_WITHOUT_E2H: u64 = 0x20_0000;

pub const TCR_EL2_TBI_BIT_OFFSET_WITHOUT_E2H: u64 = 20;

pub const TCR_EL2_TBI_WITHOUT_E2H: u64 = 0x10_0000;

pub const TCR_EL2_PS_BITS_OFFSET_WITHOUT_E2H: u64 = 16;

pub const TCR_EL2_PS_WITHOUT_E2H: u64 = 0x7_0000;

/// The fields of `TCR_EL2` that lie at the same place in `TCR_EL1`: bits
/// 0..16.
pub const TCR_SAME_FIELDS: u64 = 0xFFFF;

/* TCR_EL1 */

pub const TCR_EL1_DS_BIT_OFFSET: u64 = 59;

pub const TCR_EL1_TCMA0_BIT_OFFSET: u64 = 57;

pub const TCR_EL1_TBID0_BIT_OFFSET: u64 = 51;

pub const TCR_EL1_HWU_BITS_OFFSET: u64 = 43;

pub const TCR_EL1_HPD0_BIT_OFFSET: u64 = 41;

pub const TCR_EL1_HD_BIT_OFFSET: u64 = 40;

pub const TCR_EL1_HA_BIT_OFFSET: u64 = 39;

pub const TCR_EL1_TBI0_BIT_OFFSET: u64 = 37;

pub const TCR_EL1_IPS_BITS_OFFSET: u64 = 32;

pub const TCR_EL1_EPD1: u64 = 0x80_0000;

/* HCR_EL2 */

pub const HCR_EL2_FIEN: u64 = 0x8000_0000_0000;

pub const HCR_EL2_API: u64 = 0x200_0000_0000;

pub const HCR_EL2_APK: u64 = 0x100_0000_0000;

pub const HCR_EL2_RW: u64 = 0x8000_0000;

pub const HCR_EL2_TSC: u64 = 0x8_0000;

pub const HCR_EL2_VM: u64 = 0x1;

/// The field of `value` under `mask`, taken down from bit `from` and put
/// at bit `to`.
pub open spec fn moved_field(value: u64, mask: u64, from: u64, to: u64) -> u64 {
    ((value & mask) >> from) << to
}

/// `CPACR_EL1` for the guest: the `ZEN` and `TTA` fields of `CPTR_EL2`, and
/// no trap on floating point and SIMD.
pub open spec fn guest_cpacr_el1(cptr_el2: u64) -> u64 {
    moved_field(cptr_el2, CPTR_EL2_ZEN, CPTR_EL2_ZEN_BITS_OFFSET, CPACR_EL1_ZEN_BITS_OFFSET)
        | moved_field(
        cptr_el2,
        CPTR_EL2_FPEN,
        CPTR_EL2_FPEN_BITS_OFFSET,
        CPACR_EL1_FPEN_BITS_OFFSET,
    ) | (0b11u64 << CPACR_EL1_FPEN_BITS_OFFSET) | moved_field(
        cptr_el2,
        CPTR_EL2_TTA_WITHOUT_E2H,
        CPTR_EL2_TTA_BIT_OFFSET_WITHOUT_E2H,
        CPACR_EL1_TTA_BIT_OFFSET,
    )
}

/// `CPTR_EL2` while the guest runs: as it is, with no trap on floating
/// point, SIMD and SVE, and bits 28, 30 and 31 clear.
pub open spec fn guest_cptr_el2(cptr_el2: u64) -> u64 {
    (cptr_el2 | CPTR_EL2_ZEN_NO_TRAP | CPTR_EL2_FPEN_NO_TRAP) & !CPTR_EL2_CLEARED
}

/// `TCR_EL1` for the guest: the fields of `TCR_EL2`, each at its place in
/// `TCR_EL1`, and walks through `TTBR1_EL1` disabled.
pub open spec fn guest_tcr_el1(tcr_el2: u64) -> u64 {
    (tcr_el2 & TCR_SAME_FIELDS) | moved_field(
        tcr_el2,
        TCR_EL2_DS_WITHOUT_E2H,
        TCR_EL2_DS_BIT_OFFSET_WITHOUT_E2H,
        TCR_EL1_DS_BIT_OFFSET,
    ) | moved_field(
        tcr_el2,
        TCR_EL2_TCMA_WITHOUT_E2H,
        TCR_EL2_TCMA_BIT_OFFSET_WITHOUT_E2H,
        TCR_EL1_TCMA0_BIT_OFFSET,
    ) | moved_field(
        tcr_el2,
        TCR_EL2_TBID_WITHOUT_E2H,
        TCR_EL2_TBID_BIT_OFFSET_WITHOUT_E2H,
        TCR_EL1_TBID0_BIT_OFFSET,
    ) | moved_field(
        tcr_el2,
        TCR_EL2_HWU_WITHOUT_E2H,
        TCR_EL2_HWU_BITS_OFFSET_WITHOUT_E2H,
        TCR_EL1_HWU_BITS_OFFSET,
    ) | moved_field(
        tcr_el2,
        TCR_EL2_HPD_WITHOUT_E2H,
        TCR_EL2_HPD_BIT_OFFSET_WITHOUT_E2H,
        TCR_EL1_HPD0_BIT_OFFSET,
    ) | moved_field(
        tcr_el2,
        TCR_EL2_HD_WITHOUT_E2H,
        TCR_EL2_HD_BIT_OFFSET_WITHOUT_E2H,
        TCR_EL1_HD_BIT_OFFSET,
    ) | moved_field(
        tcr_el2,
        TCR_EL2_HA_WITHOUT_E2H,
        TCR_EL2_HA_BIT_OFFSET_WITHOUT_E2H,
        TCR_EL1_HA_BIT_OFFSET,
    ) | moved_field(
        tcr_el2,
        TCR_EL2_TBI_WITHOUT_E2H,
        TCR_EL2_TBI_BIT_OFFSET_WITHOUT_E2H,
        TCR_EL1_TBI0_BIT_OFFSET,
    ) | moved_field(
        tcr_el2,
        TCR_EL2_PS_WITHOUT_E2H,
        TCR_EL2_PS_BITS_OFFSET_WITHOUT_E2H,
        TCR_EL1_IPS_BITS_OFFSET,
    ) | TCR_EL1_EPD1
}

/// One bit of a register.
pub open spec fn bit(value: u64, index: u64) -> bool {
    (value >> index) & 1 == 1
}

/// The bits of a register from `index` on, `count` of them.
pub open spec fn bits(value: u64, index: u64, count: u64) -> u64 {
    (value >> index) & (((1u64 << count) - 1) as u64)
}

/// The value for `CNTHCTL_EL2`: the guest may read the physical counter
/// and timer.
pub fn guest_cnthctl_el2() -> (value: u64)
    ensures
        value == 0b11,
{
    assert(0x2u64 | 0x1u64 == 3) by (bit_vector);
    CNTHCTL_EL2_EL1PCEN | CNTHCTL_EL2_EL1PCTEN
}

/// The value for `CPACR_EL1`, from the value of `CPTR_EL2`.
pub fn guest_cpacr_el1_from(cptr_el2: u64) -> (cpacr_el1: u64)
    ensures
        cpacr_el1 == guest_cpacr_el1(cptr_el2),
        bits(cpacr_el1, 16, 2) == bits(cptr_el2, 16, 2),
        bits(cpacr_el1, 20, 2) == 0b11,
        bit(cpacr_el1, 28) == bit(cptr_el2, 20),
        cpacr_el1 & !0x1033_0000u64 == 0,
{
    let mut cpacr_el1: u64 = 0;
    cpacr_el1 |= (((cptr_el2 & CPTR_EL2_ZEN) >> CPTR_EL2_ZEN_BITS_OFFSET)
        << CPACR_EL1_ZEN_BITS_OFFSET) | (((cptr_el2 & CPTR_EL2_FPEN) >> CPTR_EL2_FPEN_BITS_OFFSET)
        << CPACR_EL1_FPEN_BITS_OFFSET);
    cpacr_el1 |= 0b11 << CPACR_EL1_FPEN_BITS_OFFSET;
    cpacr_el1 |= ((cptr_el2 & CPTR_EL2_TTA_WITHOUT_E2H) >> CPTR_EL2_TTA_BIT_OFFSET_WITHOUT_E2H)
        << CPACR_EL1_TTA_BIT_OFFSET;
    proof {
        lemma_guest_cpacr_el1(cptr_el2, cpacr_el1);
    }
    cpacr_el1
}

/// The fields of `CPACR_EL1` as they are put together from `CPTR_EL2`.
pub proof fn lemma_guest_cpacr_el1(cptr_el2: u64, cpacr_el1: u64)
    by (bit_vector)
    requires
        cpacr_el1 == ((0u64 | ((((cptr_el2 & 0x3_0000u64) >> 16u64) << 16u64) | (((cptr_el2
            & 0x30_0000u64) >> 20u64) << 20u64))) | (0b11u64 << 20u64)) | (((cptr_el2
            & 0x10_0000u64) >> 20u64) << 28u64),
    ensures
        cpacr_el1 == (((cptr_el2 & 0x3_0000u64) >> 16u64) << 16u64) | (((cptr_el2 & 0x30_0000u64)
            >> 20u64) << 20u64) | (0b11u64 << 20u64) | (((cptr_el2 & 0x10_0000u64) >> 20u64)
            << 28u64),
        (cpacr_el1 >> 16u64) & (((1u64 << 2u64) - 1) as u64) == (cptr_el2 >> 16u64) & (((1u64
            << 2u64) - 1) as u64),
        (cpacr_el1 >> 20u64) & (((1u64 << 2u64) - 1) as u64) == 0b11,
        ((cpacr_el1 >> 28u64) & 1 == 1) == ((cptr_el2 >> 20u64) & 1 == 1),
        cpacr_el1 & !0x1033_0000u64 == 0,
{
}

/// The value for `CPTR_EL2` while the guest runs, from its value now.
pub fn guest_cptr_el2_from(cptr_el2: u64) -> (value: u64)
    ensures
        value == guest_cptr_el2(cptr_el2),
        bits(value, 16, 2) == 0b11,
        bits(value, 20, 2) == 0b11,
        !bit(value, 28) && !bit(value, 30) && !bit(value, 31),
        value & !0xD033_0000u64 == cptr_el2 & !0xD033_0000u64,
{
    let mut value: u64 = cptr_el2 | CPTR_EL2_ZEN_NO_TRAP | CPTR_EL2_FPEN_NO_TRAP;
    value &= !((1 << 28) | (1 << 30) | (1 << 31));
    proof {
        lemma_guest_cptr_el2(cptr_el2, value);
    }
    value
}

/// The fields of `CPTR_EL2` after it was changed for the guest.
pub proof fn lemma_guest_cptr_el2(cptr_el2: u64, value: u64)
    by (bit_vector)
    requires
        value == (cptr_el2 | 0x3_0000u64 | 0x30_0000u64) & !((1u64 << 28u64) | (1u64 << 30u64) | (
        1u64 << 31u64)),
    ensures
        value == (cptr_el2 | 0x3_0000u64 | 0x30_0000u64) & !0xD000_0000u64,
        (value >> 16u64) & (((1u64 << 2u64) - 1) as u64) == 0b11,
        (value >> 20u64) & (((1u64 << 2u64) - 1) as u64) == 0b11,
        (value >> 28u64) & 1 == 0,
        (value >> 30u64) & 1 == 0,
        (value >> 31u64) & 1 == 0,
        value & !0xD033_0000u64 == cptr_el2 & !0xD033_0000u64,
{
}

/// The value for `TCR_EL1`, from the value of `TCR_EL2`.
pub fn guest_tcr_el1_from(tcr_el2: u64) -> (tcr_el1: u64)
    ensures
        tcr_el1 == guest_tcr_el1(tcr_el2),
        bits(tcr_el1, 0, 16) == bits(tcr_el2, 0, 16),
        bit(tcr_el1, 59) == bit(tcr_el2, 32),
        bit(tcr_el1, 57) == bit(tcr_el2, 30),
        bit(tcr_el1, 51) == bit(tcr_el2, 29),
        bits(tcr_el1, 43, 4) == bits(tcr_el2, 25, 4),
        bit(tcr_el1, 41) == bit(tcr_el2, 24),
        bit(tcr_el1, 40) == bit(tcr_el2, 22),
        bit(tcr_el1, 39) == bit(tcr_el2, 21),
        bit(tcr_el1, 37) == bit(tcr_el2, 20),
        bits(tcr_el1, 32, 3) == bits(tcr_el2, 16, 3),
        bit(tcr_el1, 23),
        tcr_el1 & !0x0A08_7BA7_0080_FFFFu64 == 0,
{
    let mut tcr_el1: u64 = 0;
    tcr_el1 |= tcr_el2 & TCR_SAME_FIELDS;
    let same: u64 = tcr_el1;
    tcr_el1 |= ((tcr_el2 & TCR_EL2_DS_WITHOUT_E2H) >> TCR_EL2_DS_BIT_OFFSET_WITHOUT_E2H)
        << TCR_EL1_DS_BIT_OFFSET;
    tcr_el1 |= ((tcr_el2 & TCR_EL2_TCMA_WITHOUT_E2H) >> TCR_EL2_TCMA_BIT_OFFSET_WITHOUT_E2H)
        << TCR_EL1_TCMA0_BIT_OFFSET;
    tcr_el1 |= ((tcr_el2 & TCR_EL2_TBID_WITHOUT_E2H) >> TCR_EL2_TBID_BIT_OFFSET_WITHOUT_E2H)
        << TCR_EL1_TBID0_BIT_OFFSET;
    let upper: u64 = tcr_el1;
    tcr_el1 |= ((tcr_el2 & TCR_EL2_HWU_WITHOUT_E2H) >> TCR_EL2_HWU_BITS_OFFSET_WITHOUT_E2H)
        << TCR_EL1_HWU_BITS_OFFSET;
    tcr_el1 |= ((tcr_el2 & TCR_EL2_HPD_WITHOUT_E2H) >> TCR_EL2_HPD_BIT_OFFSET_WITHOUT_E2H)
        << TCR_EL1_HPD0_BIT_OFFSET;
    tcr_el1 |= ((tcr_el2 & TCR_EL2_HD_WITHOUT_E2H) >> TCR_EL2_HD_BIT_OFFSET_WITHOUT_E2H)
        << TCR_EL1_HD_BIT_OFFSET;
    let middle: u64 = tcr_el1;
    tcr_el1 |= ((tcr_el2 & TCR_EL2_HA_WITHOUT_E2H) >> TCR_EL2_HA_BIT_OFFSET_WITHOUT_E2H)
        << TCR_EL1_HA_BIT_OFFSET;
    tcr_el1 |= ((tcr_el2 & TCR_EL2_TBI_WITHOUT_E2H) >> TCR_EL2_TBI_BIT_OFFSET_WITHOUT_E2H)
        << TCR_EL1_TBI0_BIT_OFFSET;
    tcr_el1 |= ((tcr_el2 & TCR_EL2_PS_WITHOUT_E2H) >> TCR_EL2_PS_BITS_OFFSET_WITHOUT_E2H)
        << TCR_EL1_IPS_BITS_OFFSET;
    tcr_el1 |= TCR_EL1_EPD1;
    proof {
        lemma_guest_tcr_el1(tcr_el2, same, upper, middle, tcr_el1);
    }
    tcr_el1
}

/// The fields of `TCR_EL1` as they are put together from `TCR_EL2`, in
/// four steps.
pub proof fn lemma_guest_tcr_el1(tcr_el2: u64, same: u64, upper: u64, middle: u64, tcr_el1: u64)
    by (bit_vector)
    requires
        same == 0u64 | (tcr_el2 & 0xFFFFu64),
        upper == ((same | (((tcr_el2 & 0x1_0000_0000u64) >> 32u64) << 59u64)) | (((tcr_el2
            & 0x4000_0000u64) >> 30u64) << 57u64)) | (((tcr_el2 & 0x2000_0000u64) >> 29u64)
            << 51u64),
        middle == ((upper | (((tcr_el2 & 0x1E00_0000u64) >> 25u64) << 43u64)) | (((tcr_el2
            & 0x100_0000u64) >> 24u64) << 41u64)) | (((tcr_el2 & 0x40_0000u64) >> 22u64)
            << 40u64),
        tcr_el1 == (((middle | (((tcr_el2 & 0x20_0000u64) >> 21u64) << 39u64)) | (((tcr_el2
            & 0x10_0000u64) >> 20u64) << 37u64)) | (((tcr_el2 & 0x7_0000u64) >> 16u64) << 32u64))
            | 0x80_0000u64,
    ensures
        tcr_el1 == (tcr_el2 & 0xFFFFu64) | (((tcr_el2 & 0x1_0000_0000u64) >> 32u64) << 59u64) | (((
        tcr_el2 & 0x4000_0000u64) >> 30u64) << 57u64) | (((tcr_el2 & 0x2000_0000u64) >> 29u64)
            << 51u64) | (((tcr_el2 & 0x1E00_0000u64) >> 25u64) << 43u64) | (((tcr_el2
            & 0x100_0000u64) >> 24u64) << 41u64) | (((tcr_el2 & 0x40_0000u64) >> 22u64) << 40u64)
            | (((tcr_el2 & 0x20_0000u64) >> 21u64) << 39u64) | (((tcr_el2 & 0x10_0000u64) >> 20u64)
            << 37u64) | (((tcr_el2 & 0x7_0000u64) >> 16u64) << 32u64) | 0x80_0000u64,
        (tcr_el1 >> 0u64) & (((1u64 << 16u64) - 1) as u64) == (tcr_el2 >> 0u64) & (((1u64 << 16u64)
            - 1) as u64),
        ((tcr_el1 >> 59u64) & 1 == 1) == ((tcr_el2 >> 32u64) & 1 == 1),
        ((tcr_el1 >> 57u64) & 1 == 1) == ((tcr_el2 >> 30u64) & 1 == 1),
        ((tcr_el1 >> 51u64) & 1 == 1) == ((tcr_el2 >> 29u64) & 1 == 1),
        (tcr_el1 >> 43u64) & (((1u64 << 4u64) - 1) as u64) == (tcr_el2 >> 25u64) & (((1u64 << 4u64)
            - 1) as u64),
        ((tcr_el1 >> 41u64) & 1 == 1) == ((tcr_el2 >> 24u64) & 1 == 1),
        ((tcr_el1 >> 40u64) & 1 == 1) == ((tcr_el2 >> 22u64) & 1 == 1),
        ((tcr_el1 >> 39u64) & 1 == 1) == ((tcr_el2 >> 21u64) & 1 == 1),
        ((tcr_el1 >> 37u64) & 1 == 1) == ((tcr_el2 >> 20u64) & 1 == 1),
        (tcr_el1 >> 32u64) & (((1u64 << 3u64) - 1) as u64) == (tcr_el2 >> 16u64) & (((1u64 << 3u64)
            - 1) as u64),
        (tcr_el1 >> 23u64) & 1 == 1,
        tcr_el1 & !0x0A08_7BA7_0080_FFFFu64 == 0,
{
}

/// The value for `HCR_EL2`: stage 2 on, EL1 in AArch64, secure monitor
/// calls trapped, pointer authentication and fault injection left to the
/// guest.
pub fn guest_hcr_el2() -> (value: u64)
    ensures
        value == 0x8300_8008_0001,
        bit(value, 0) && bit(value, 19) && bit(value, 31) && bit(value, 40) && bit(value, 41)
            && bit(value, 47),
{
    let value: u64 = HCR_EL2_FIEN | HCR_EL2_API | HCR_EL2_APK | HCR_EL2_RW | HCR_EL2_TSC
        | HCR_EL2_VM;
    proof {
        lemma_guest_hcr_el2(value);
    }
    value
}

/// The bits of the value for `HCR_EL2`.
pub proof fn lemma_guest_hcr_el2(value: u64)
    by (bit_vector)
    requires
        value == 0x8000_0000_0000u64 | 0x200_0000_0000u64 | 0x100_0000_0000u64 | 0x8000_0000u64
            | 0x8_0000u64 | 0x1u64,
    ensures
        value == 0x8300_8008_0001u64,
        (value >> 0u64) & 1 == 1,
        (value >> 19u64) & 1 == 1,
        (value >> 31u64) & 1 == 1,
        (value >> 40u64) & 1 == 1,
        (value >> 41u64) & 1 == 1,
        (value >> 47u64) & 1 == 1,
{
}

} // verus!
