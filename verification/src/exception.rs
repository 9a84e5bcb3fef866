//! Synchronous exceptions from the guest: classifying them, decoding a data
//! abort into the access that caused it, and emulating that access.
//!
//! The code that takes the exception saves the general-purpose registers,
//! reads the syndrome and fault address registers, and hands all of them to
//! `synchronous_handler`. What comes back says whether the guest can go on,
//! at the return address that was moved past the faulting instruction, or
//! why it cannot.

use vstd::prelude::*;
use crate::mmio::pl011;
use crate::mmio::virt_mmio;

verus! {

/// The exception class in `ESR_EL2`, bits 26..32.
pub const ESR_EL2_EC_BITS_OFFSET: u64 = 26;

pub const ESR_EL2_EC: u64 = 0xFC00_0000;

/// The exception class of a data abort from a lower exception level.
pub const ESR_EL2_EC_DATA_ABORT: u64 = 0x9000_0000;

/// The syndrome of a data abort describes the access only where this bit
/// is set.
pub const ESR_EL2_ISS_ISV: u64 = 0x100_0000;

/// The size of the access, bits 22..24: 1, 2, 4 or 8 bytes.
pub const ESR_EL2_ISS_SAS_BITS_OFFSET: u64 = 22;

pub const ESR_EL2_ISS_SAS: u64 = 0xC0_0000;

/// The number of the register that the access loads or stores, bits
/// 16..21.
pub const ESR_EL2_ISS_SRT_BITS_OFFSET: u64 = 16;

pub const ESR_EL2_ISS_SRT: u64 = 0x1F_0000;

/// Set where the register is used as a 64-bit register.
pub const ESR_EL2_ISS_SF: u64 = 0x8000;

/// Set where the access is a write.
pub const ESR_EL2_ISS_WNR: u64 = 0x40;

/// The exception class of an instruction abort from a lower exception
/// level.
pub const ESR_EL2_EC_INSTRUCTION_ABORT: u64 = 0x8000_0000;

/// The fault status code of an instruction abort, bits 0..6.
pub const ESR_EL2_ISS_IFSC_BITS_OFFSET: u64 = 0;

pub const ESR_EL2_ISS_IFSC: u64 = 0x3F;

/// Set where the fault came from a stage-2 translation for a stage-1
/// table walk.
pub const ESR_EL2_ISS_S1PTW_BITS_OFFSET: u64 = 7;

pub const ESR_EL2_ISS_S1PTW: u64 = 0x80;

/// The faulting intermediate physical address in `HPFAR_EL2`, bits 4..44:
/// the address without its low 12 bits.
pub const HPFAR_EL2_FIPA_BITS_OFFSET: u64 = 4;

pub const HPFAR_EL2_FIPA: u64 = 0xFFF_FFFF_FFF0;

/// The device type that the virtio-mmio transport shows to the guest.
pub const VIRT_MMIO_DEVICE_TYPE: u32 = 0x1;

/// One past the last address that is routed to the virtio-mmio transport.
/// The window is one byte short of the transport's 0x200 bytes.
pub const VIRT_MMIO_ROUTED_END: u64 = 0xa0001ff;

/// The general-purpose registers of the guest as they were saved when the
/// exception was taken, `x0` to `x30`, and one more slot that keeps the
/// stack aligned.
#[derive(Clone, Copy, Debug)]
pub struct Registers {
    pub x0: u64,
    pub x1: u64,
    pub x2: u64,
    pub x3: u64,
    pub x4: u64,
    pub x5: u64,
    pub x6: u64,
    pub x7: u64,
    pub x8: u64,
    pub x9: u64,
    pub x10: u64,
    pub x11: u64,
    pub x12: u64,
    pub x13: u64,
    pub x14: u64,
    pub x15: u64,
    pub x16: u64,
    pub x17: u64,
    pub x18: u64,
    pub x19: u64,
    pub x20: u64,
    pub x21: u64,
    pub x22: u64,
    pub x23: u64,
    pub x24: u64,
    pub x25: u64,
    pub x26: u64,
    pub x27: u64,
    pub x28: u64,
    pub x29: u64,
    pub x30: u64,
    pub padding: u64,
}

impl View for Registers {
    type V = Seq<u64>;

    /// The 32 slots in order.
    open spec fn view(&self) -> Seq<u64> {
        seq![
            self.x0,
            self.x1,
            self.x2,
            self.x3,
            self.x4,
            self.x5,
            self.x6,
            self.x7,
            self.x8,
            self.x9,
            self.x10,
            self.x11,
            self.x12,
            self.x13,
            self.x14,
            self.x15,
            self.x16,
            self.x17,
            self.x18,
            self.x19,
            self.x20,
            self.x21,
            self.x22,
            self.x23,
            self.x24,
            self.x25,
            self.x26,
            self.x27,
            self.x28,
            self.x29,
            self.x30,
            self.padding,
        ]
    }
}

impl Registers {
    /// All slots zero.
    pub fn new() -> (registers: Registers)
        ensures
            registers@ == Seq::new(32, |i: int| 0u64),
    {
        let registers = Registers {
            x0: 0,
            x1: 0,
            x2: 0,
            x3: 0,
            x4: 0,
            x5: 0,
            x6: 0,
            x7: 0,
            x8: 0,
            x9: 0,
            x10: 0,
            x11: 0,
            x12: 0,
            x13: 0,
            x14: 0,
            x15: 0,
            x16: 0,
            x17: 0,
            x18: 0,
            x19: 0,
            x20: 0,
            x21: 0,
            x22: 0,
            x23: 0,
            x24: 0,
            x25: 0,
            x26: 0,
            x27: 0,
            x28: 0,
            x29: 0,
            x30: 0,
            padding: 0,
        };
        assert(registers@ =~= Seq::new(32, |i: int| 0u64));
        registers
    }

    /// The value in slot `index`.
    pub fn get(&self, index: usize) -> (value: u64)
        requires
            index < 32,
        ensures
            value == self@[index as int],
    {
        if index == 0 {
            self.x0
        } else if index == 1 {
            self.x1
        } else if index == 2 {
            self.x2
        } else if index == 3 {
            self.x3
        } else if index == 4 {
            self.x4
        } else if index == 5 {
            self.x5
        } else if index == 6 {
            self.x6
        } else if index == 7 {
            self.x7
        } else if index == 8 {
            self.x8
        } else if index == 9 {
            self.x9
        } else if index == 10 {
            self.x10
        } else if index == 11 {
            self.x11
        } else if index == 12 {
            self.x12
        } else if index == 13 {
            self.x13
        } else if index == 14 {
            self.x14
        } else if index == 15 {
            self.x15
        } else if index == 16 {
            self.x16
        } else if index == 17 {
            self.x17
        } else if index == 18 {
            self.x18
        } else if index == 19 {
            self.x19
        } else if index == 20 {
            self.x20
        } else if index == 21 {
            self.x21
        } else if index == 22 {
            self.x22
        } else if index == 23 {
            self.x23
        } else if index == 24 {
            self.x24
        } else if index == 25 {
            self.x25
        } else if index == 26 {
            self.x26
        } else if index == 27 {
            self.x27
        } else if index == 28 {
            self.x28
        } else if index == 29 {
            self.x29
        } else if index == 30 {
            self.x30
        } else {
            self.padding
        }
    }

    /// Puts `value` into slot `index`.
    pub fn set(&mut self, index: usize, value: u64)
        requires
            index < 32,
        ensures
            final(self)@ == old(self)@.update(index as int, value),
    {
        if index == 0 {
            self.x0 = value;
        } else if index == 1 {
            self.x1 = value;
        } else if index == 2 {
            self.x2 = value;
        } else if index == 3 {
            self.x3 = value;
        } else if index == 4 {
            self.x4 = value;
        } else if index == 5 {
            self.x5 = value;
        } else if index == 6 {
            self.x6 = value;
        } else if index == 7 {
            self.x7 = value;
        } else if index == 8 {
            self.x8 = value;
        } else if index == 9 {
            self.x9 = value;
        } else if index == 10 {
            self.x10 = value;
        } else if index == 11 {
            self.x11 = value;
        } else if index == 12 {
            self.x12 = value;
        } else if index == 13 {
            self.x13 = value;
        } else if index == 14 {
            self.x14 = value;
        } else if index == 15 {
            self.x15 = value;
        } else if index == 16 {
            self.x16 = value;
        } else if index == 17 {
            self.x17 = value;
        } else if index == 18 {
            self.x18 = value;
        } else if index == 19 {
            self.x19 = value;
        } else if index == 20 {
            self.x20 = value;
        } else if index == 21 {
            self.x21 = value;
        } else if index == 22 {
            self.x22 = value;
        } else if index == 23 {
            self.x23 = value;
        } else if index == 24 {
            self.x24 = value;
        } else if index == 25 {
            self.x25 = value;
        } else if index == 26 {
            self.x26 = value;
        } else if index == 27 {
            self.x27 = value;
        } else if index == 28 {
            self.x28 = value;
        } else if index == 29 {
            self.x29 = value;
        } else if index == 30 {
            self.x30 = value;
        } else {
            self.padding = value;
        }
        assert(self@ =~= old(self)@.update(index as int, value));
    }
}

/// The access that caused a data abort.
#[derive(Clone, Copy, Debug, PartialEq, Eq, Structural)]
pub struct DataAbort {
    /// The intermediate physical address that the guest accessed.
    pub address: u64,
    /// The width of the access in bits: 8, 16, 32 or 64.
    pub access_width: u64,
    /// Whether the guest wrote.
    pub is_write_access: bool,
    /// The slot of the register that the guest loads or stores.
    pub register_number: usize,
    /// Whether the guest uses the register as a 64-bit register.
    pub is_64bit_register: bool,
}

/// An emulated device.
#[derive(Clone, Copy, Debug, PartialEq, Eq, Structural)]
pub enum Device {
    /// The serial console.
    Console,
    /// The virtio-mmio transport.
    VirtioMmio,
}

/// The cause of an instruction abort: an address size fault or a
/// translation fault, at one of the four translation levels.
#[derive(Clone, Copy, Debug, PartialEq, Eq, Structural)]
pub enum InstructionFault {
    /// Level 0 stands for the translation table base register too.
    AddressSizeLevel0,
    AddressSizeLevel1,
    AddressSizeLevel2,
    AddressSizeLevel3,
    TranslationLevel0,
    TranslationLevel1,
    TranslationLevel2,
    TranslationLevel3,
}

/// How an exception ended where the guest can go on.
#[derive(Clone, Copy, Debug, PartialEq, Eq, Structural)]
pub enum Handled {
    /// A device took the access.
    Emulated { device: Device, access: DataAbort },
    /// No device claims the address. Nothing was read or written; the
    /// access and the value of its register are there to be logged.
    Unclaimed { access: DataAbort, register_value: u64 },
}

/// Why the guest cannot go on.
#[derive(Clone, Copy, Debug, PartialEq, Eq, Structural)]
pub enum Fatal {
    /// The exception class is neither data abort nor instruction abort.
    UnknownException { class: u64 },
    /// The syndrome of a data abort does not describe the access.
    DataAbortInfoUnavailable,
    /// The console refused the access.
    MmioFailed,
    /// The virtio-mmio transport refused the access.
    VirtioMmioFailed,
    /// An instruction abort. `stage1_walk` says whether it came from a
    /// stage-2 translation for a stage-1 table walk.
    InstructionAbort { fault: InstructionFault, stage1_walk: bool },
    /// An instruction abort with a fault status code that is not known.
    UnknownInstructionAbort,
}

/// The exception class of a syndrome.
pub open spec fn exception_class(esr_el2: u64) -> u64 {
    (esr_el2 & ESR_EL2_EC) >> ESR_EL2_EC_BITS_OFFSET
}

/// Whether the syndrome of a data abort describes the access.
pub open spec fn syndrome_valid(esr_el2: u64) -> bool {
    esr_el2 & ESR_EL2_ISS_ISV != 0
}

/// The access width in bits that a syndrome gives.
pub open spec fn access_width_of(esr_el2: u64) -> u64 {
    let size = (esr_el2 & ESR_EL2_ISS_SAS) >> ESR_EL2_ISS_SAS_BITS_OFFSET;
    if size == 0 {
        8
    } else if size == 1 {
        16
    } else if size == 2 {
        32
    } else {
        64
    }
}

/// The register slot that a syndrome gives.
pub open spec fn register_number_of(esr_el2: u64) -> u64 {
    (esr_el2 & ESR_EL2_ISS_SRT) >> ESR_EL2_ISS_SRT_BITS_OFFSET
}

/// The faulting intermediate physical address: the page from
/// `HPFAR_EL2`, the offset in the page from `FAR_EL2`.
pub open spec fn fault_address(hpfar_el2: u64, far_el2: u64) -> u64 {
    (((hpfar_el2 & HPFAR_EL2_FIPA) >> HPFAR_EL2_FIPA_BITS_OFFSET) << 12) | (far_el2 & 0xFFF)
}

/// The access that syndrome and fault address registers describe.
pub open spec fn data_abort_of(esr_el2: u64, hpfar_el2: u64, far_el2: u64) -> DataAbort {
    DataAbort {
        address: fault_address(hpfar_el2, far_el2),
        access_width: access_width_of(esr_el2),
        is_write_access: esr_el2 & ESR_EL2_ISS_WNR != 0,
        register_number: register_number_of(esr_el2) as usize,
        is_64bit_register: esr_el2 & ESR_EL2_ISS_SF != 0,
    }
}

/// The device that an address is routed to.
pub open spec fn device_at(address: u64) -> Option<Device> {
    if pl011::PL011 <= address < pl011::PL011 + pl011::PL011_SIZE {
        Some(Device::Console)
    } else if virt_mmio::VIRT_MMIO <= address < VIRT_MMIO_ROUTED_END {
        Some(Device::VirtioMmio)
    } else {
        None
    }
}

/// The value that a write stores: the register, or its low 32 bits where
/// the guest uses it as a 32-bit register.
pub open spec fn stored_value(registers: Seq<u64>, access: DataAbort) -> u64 {
    if access.is_64bit_register {
        registers[access.register_number as int]
    } else {
        registers[access.register_number as int] & 0xFFFF_FFFF
    }
}

/// What the registers hold after the access, and what the console put out,
/// or why the device refused.
pub open spec fn emulated(registers: Seq<u64>, access: DataAbort) -> Result<
    (Seq<u64>, Seq<char>),
    Fatal,
> {
    match device_at(access.address) {
        Some(Device::Console) => {
            let offset = (access.address - pl011::PL011) as usize;
            if access.is_write_access {
                if offset == pl011::UART_DR {
                    Ok((registers, pl011::emitted(stored_value(registers, access))))
                } else {
                    Err(Fatal::MmioFailed)
                }
            } else {
                if offset == pl011::UART_FR {
                    Ok((registers.update(access.register_number as int, 0), Seq::empty()))
                } else {
                    Err(Fatal::MmioFailed)
                }
            }
        },
        Some(Device::VirtioMmio) => {
            let offset = (access.address - virt_mmio::VIRT_MMIO) as usize;
            if access.is_write_access {
                Ok((registers, Seq::empty()))
            } else {
                match virt_mmio::register_value(VIRT_MMIO_DEVICE_TYPE, offset) {
                    Some(value) => Ok(
                        (
                            registers.update(access.register_number as int, value as u64),
                            Seq::empty(),
                        ),
                    ),
                    None => Err(Fatal::VirtioMmioFailed),
                }
            }
        },
        None => Ok((registers, Seq::empty())),
    }
}

/// What the handler reports of an access that went well.
pub open spec fn handled(registers: Seq<u64>, access: DataAbort) -> Handled {
    match device_at(access.address) {
        Some(device) => Handled::Emulated { device, access },
        None => Handled::Unclaimed {
            access,
            register_value: registers[access.register_number as int],
        },
    }
}

/// The cause that a fault status code stands for, for the codes that are
/// known: 0 to 3 address size faults, 4 to 7 translation faults, at levels 0
/// to 3.
pub open spec fn instruction_fault_of(esr_el2: u64) -> Option<InstructionFault> {
    let code = esr_el2 & ESR_EL2_ISS_IFSC;
    if code == 0 {
        Some(InstructionFault::AddressSizeLevel0)
    } else if code == 1 {
        Some(InstructionFault::AddressSizeLevel1)
    } else if code == 2 {
        Some(InstructionFault::AddressSizeLevel2)
    } else if code == 3 {
        Some(InstructionFault::AddressSizeLevel3)
    } else if code == 4 {
        Some(InstructionFault::TranslationLevel0)
    } else if code == 5 {
        Some(InstructionFault::TranslationLevel1)
    } else if code == 6 {
        Some(InstructionFault::TranslationLevel2)
    } else if code == 7 {
        Some(InstructionFault::TranslationLevel3)
    } else {
        None
    }
}

impl InstructionFault {
    /// The text that names the fault.
    pub open spec fn message_text(self) -> Seq<char> {
        match self {
            InstructionFault::AddressSizeLevel0 => "Address size fault, level 0 of translation or translation table base register."@,
            InstructionFault::AddressSizeLevel1 => "Address size fault, level 1."@,
            InstructionFault::AddressSizeLevel2 => "Address size fault, level 2."@,
            InstructionFault::AddressSizeLevel3 => "Address size fault, level 3."@,
            InstructionFault::TranslationLevel0 => "Translation fault, level 0."@,
            InstructionFault::TranslationLevel1 => "Translation fault, level 1."@,
            InstructionFault::TranslationLevel2 => "Translation fault, level 2."@,
            InstructionFault::TranslationLevel3 => "Translation fault, level 3."@,
        }
    }

    /// The text that says where a fault came from, for the one fault for
    /// which that is told: a translation fault at level 2.
    pub open spec fn walk_text(self, stage1_walk: bool) -> Option<Seq<char>> {
        match self {
            InstructionFault::TranslationLevel2 => Some(
                if stage1_walk {
                    "Fault on the stage 2 translation of an access for a stage 1 translation table walk."@
                } else {
                    "Fault not on a stage 2 translation for a stage 1 translation table walk."@
                },
            ),
            _ => None,
        }
    }

    /// The diagnostic line for the fault.
    pub fn message(&self) -> (text: &'static str)
        ensures
            text@ == self.message_text(),
    {
        match self {
            InstructionFault::AddressSizeLevel0 => "Address size fault, level 0 of translation or translation table base register.",
            InstructionFault::AddressSizeLevel1 => "Address size fault, level 1.",
            InstructionFault::AddressSizeLevel2 => "Address size fault, level 2.",
            InstructionFault::AddressSizeLevel3 => "Address size fault, level 3.",
            InstructionFault::TranslationLevel0 => "Translation fault, level 0.",
            InstructionFault::TranslationLevel1 => "Translation fault, level 1.",
            InstructionFault::TranslationLevel2 => "Translation fault, level 2.",
            InstructionFault::TranslationLevel3 => "Translation fault, level 3.",
        }
    }

    /// The second diagnostic line, which a translation fault at level 2
    /// has: whether the fault came from a stage-2 translation for a stage-1
    /// table walk.
    pub fn walk_message(&self, stage1_walk: bool) -> (text: Option<&'static str>)
        ensures
            match self.walk_text(stage1_walk) {
                Some(expected) => text is Some && text->0@ == expected,
                None => text is None,
            },
    {
        match self {
            InstructionFault::TranslationLevel2 => {
                if stage1_walk {
                    Some(
                        "Fault on the stage 2 translation of an access for a stage 1 translation table walk.",
                    )
                } else {
                    Some("Fault not on a stage 2 translation for a stage 1 translation table walk.")
                }
            },
            _ => None,
        }
    }
}

impl Fatal {
    /// The text that names what went wrong: for an instruction abort the
    /// text of its cause, and for an unknown exception a text after which
    /// the number of its class is to be put.
    pub open spec fn message_text(self) -> Seq<char> {
        match self {
            Fatal::UnknownException { .. } => "Unknown Exception: "@,
            Fatal::DataAbortInfoUnavailable => "Data Abort Info is not available."@,
            Fatal::MmioFailed => "Failed to handle MMIO"@,
            Fatal::VirtioMmioFailed => "Failed to handle VIRTIO MMIO"@,
            Fatal::InstructionAbort { fault, .. } => fault.message_text(),
            Fatal::UnknownInstructionAbort => "Unknown Instruction Abort"@,
        }
    }

    /// The diagnostic text for the halt.
    pub fn message(&self) -> (text: &'static str)
        ensures
            text@ == self.message_text(),
    {
        match self {
            Fatal::UnknownException { .. } => "Unknown Exception: ",
            Fatal::DataAbortInfoUnavailable => "Data Abort Info is not available.",
            Fatal::MmioFailed => "Failed to handle MMIO",
            Fatal::VirtioMmioFailed => "Failed to handle VIRTIO MMIO",
            Fatal::InstructionAbort { fault, .. } => fault.message(),
            Fatal::UnknownInstructionAbort => "Unknown Instruction Abort",
        }
    }
}

/// The facts about the fields of a syndrome that the decoder leans on.
pub proof fn lemma_syndrome_fields(esr_el2: u64)
    by (bit_vector)
    ensures
        (esr_el2 & 0xC0_0000u64) >> 22u64 <= 3,
        (esr_el2 & 0x1F_0000u64) >> 16u64 <= 31,
        (esr_el2 & 0xFC00_0000u64) >> 26u64 <= 63,
        esr_el2 & 0xFC00_0000u64 == 0x9000_0000u64 <==> (esr_el2 & 0xFC00_0000u64) >> 26u64
            == 0x24,
        esr_el2 & 0xFC00_0000u64 == 0x8000_0000u64 <==> (esr_el2 & 0xFC00_0000u64) >> 26u64
            == 0x20,
        esr_el2 & 0x3Fu64 <= 63,
{
}

/// Moves the return address past the instruction that caused the
/// exception.
pub fn advance_elr_el2(elr_el2: &mut u64)
    requires
        *old(elr_el2) + 4 <= u64::MAX,
    ensures
        *final(elr_el2) == *old(elr_el2) + 4,
{
    *elr_el2 = *elr_el2 + 4;
}

/// Decodes the access behind a data abort. `None` where the syndrome does
/// not describe the access.
pub fn decode_data_abort(esr_el2: u64, hpfar_el2: u64, far_el2: u64) -> (access: Option<DataAbort>)
    ensures
        access == if syndrome_valid(esr_el2) {
            Some(data_abort_of(esr_el2, hpfar_el2, far_el2))
        } else {
            None
        },
        access is Some ==> access->0.register_number < 32,
{
    if esr_el2 & ESR_EL2_ISS_ISV == 0 {
        return None;
    }
    proof {
        lemma_syndrome_fields(esr_el2);
    }
    let is_64bit_register = (esr_el2 & ESR_EL2_ISS_SF) != 0;
    let size: u64 = (esr_el2 & ESR_EL2_ISS_SAS) >> ESR_EL2_ISS_SAS_BITS_OFFSET;
    let access_width: u64 = if size == 0b00 {
        8
    } else if size == 0b01 {
        16
    } else if size == 0b10 {
        32
    } else {
        64
    };
    let is_write_access = (esr_el2 & ESR_EL2_ISS_WNR) != 0;
    let register_number = ((esr_el2 & ESR_EL2_ISS_SRT) >> ESR_EL2_ISS_SRT_BITS_OFFSET) as usize;
    let address: u64 = (((hpfar_el2 & HPFAR_EL2_FIPA) >> HPFAR_EL2_FIPA_BITS_OFFSET) << 12) | (far_el2
        & 0xFFF);
    Some(DataAbort { address, access_width, is_write_access, register_number, is_64bit_register })
}

/// Handles a data abort: decodes the access, lets the device at its
/// address take it, and moves the return address on.
///
/// A write hands the register's value to the device; a read puts what the
/// device gives into the register. An access to an address that no device
/// claims changes nothing and is reported as `Unclaimed`. Where the syndrome
/// does not describe the access, or the device refuses it, the guest cannot
/// go on, and nothing has changed.
pub fn data_abort_handler(
    registers: &mut Registers,
    esr_el2: u64,
    hpfar_el2: u64,
    far_el2: u64,
    elr_el2: &mut u64,
    console: &mut Vec<char>,
) -> (result: Result<Handled, Fatal>)
    requires
        *old(elr_el2) + 4 <= u64::MAX,
    ensures
        !syndrome_valid(esr_el2) ==> result == Err::<Handled, Fatal>(
            Fatal::DataAbortInfoUnavailable,
        ),
        syndrome_valid(esr_el2) ==> {
            let access = data_abort_of(esr_el2, hpfar_el2, far_el2);
            match emulated(old(registers)@, access) {
                Ok((values, text)) => {
                    &&& result == Ok::<Handled, Fatal>(handled(old(registers)@, access))
                    &&& final(registers)@ == values
                    &&& final(console)@ == old(console)@ + text
                    &&& *final(elr_el2) == *old(elr_el2) + 4
                },
                Err(fatal) => result == Err::<Handled, Fatal>(fatal),
            }
        },
        result is Err ==> final(registers)@ == old(registers)@ && final(console)@ == old(console)@
            && *final(elr_el2) == *old(elr_el2),
        syndrome_valid(esr_el2) && device_at(fault_address(hpfar_el2, far_el2)) is None ==> final(registers)@ == old(registers)@,
{
    let access = match decode_data_abort(esr_el2, hpfar_el2, far_el2) {
        Some(access) => access,
        None => {
            return Err(Fatal::DataAbortInfoUnavailable);
        },
    };
    let address = access.address;
    let register = registers.get(access.register_number);
    let outcome = if 0x09000000 <= address && address < 0x09001000 {
        let offset = (address - 0x09000000) as usize;
        if access.is_write_access {
            let register_value = if access.is_64bit_register {
                register
            } else {
                register & (u32::MAX as u64)
            };
            if pl011::mmio_write(offset, access.access_width, register_value, console).is_err() {
                return Err(Fatal::MmioFailed);
            }
        } else {
            match pl011::mmio_read(offset, access.access_width) {
                Ok(value) => registers.set(access.register_number, value),
                Err(_) => {
                    return Err(Fatal::MmioFailed);
                },
            }
        }
        Handled::Emulated { device: Device::Console, access }
    } else if 0xa000000 <= address && address < 0xa0001ff {
        let offset = (address - 0xa000000) as usize;
        if access.is_write_access {
            let register_value = if access.is_64bit_register {
                register
            } else {
                register & (u32::MAX as u64)
            };
            if virt_mmio::virt_mmio_write(
                VIRT_MMIO_DEVICE_TYPE,
                offset,
                access.access_width,
                (register_value & 0xFFFF_FFFF) as u32,
            ).is_err() {
                return Err(Fatal::VirtioMmioFailed);
            }
        } else {
            match virt_mmio::virt_mmio_read(VIRT_MMIO_DEVICE_TYPE, offset, access.access_width) {
                Ok(value) => registers.set(access.register_number, value as u64),
                Err(_) => {
                    return Err(Fatal::VirtioMmioFailed);
                },
            }
        }
        Handled::Emulated { device: Device::VirtioMmio, access }
    } else {
        Handled::Unclaimed { access, register_value: register }
    };
    advance_elr_el2(elr_el2);
    Ok(outcome)
}

/// Handles an instruction abort: names its cause. The guest cannot go on
/// after any of them.
pub fn instruction_abort_handler(registers: &mut Registers, esr_el2: u64) -> (fatal: Fatal)
    ensures
        final(registers)@ == old(registers)@,
        fatal == match instruction_fault_of(esr_el2) {
            Some(fault) => Fatal::InstructionAbort {
                fault,
                stage1_walk: esr_el2 & ESR_EL2_ISS_S1PTW != 0,
            },
            None => Fatal::UnknownInstructionAbort,
        },
{
    let ifsc: u64 = esr_el2 & ESR_EL2_ISS_IFSC;
    let stage1_walk = esr_el2 & ESR_EL2_ISS_S1PTW != 0;
    proof {
        lemma_syndrome_fields(esr_el2);
    }
    let fault = if ifsc == 0b000000 {
        InstructionFault::AddressSizeLevel0
    } else if ifsc == 0b000001 {
        InstructionFault::AddressSizeLevel1
    } else if ifsc == 0b000010 {
        InstructionFault::AddressSizeLevel2
    } else if ifsc == 0b000011 {
        InstructionFault::AddressSizeLevel3
    } else if ifsc == 0b000100 {
        InstructionFault::TranslationLevel0
    } else if ifsc == 0b000101 {
        InstructionFault::TranslationLevel1
    } else if ifsc == 0b000110 {
        InstructionFault::TranslationLevel2
    } else if ifsc == 0b000111 {
        InstructionFault::TranslationLevel3
    } else {
        return Fatal::UnknownInstructionAbort;
    };
    Fatal::InstructionAbort { fault, stage1_walk }
}

/// Handles a synchronous exception from the guest: a data abort is
/// emulated, an instruction abort is named, and every other class is
/// reported with its number.
pub fn synchronous_handler(
    registers: &mut Registers,
    esr_el2: u64,
    hpfar_el2: u64,
    far_el2: u64,
    elr_el2: &mut u64,
    console: &mut Vec<char>,
) -> (result: Result<Handled, Fatal>)
    requires
        *old(elr_el2) + 4 <= u64::MAX,
    ensures
        exception_class(esr_el2) != 0x24 && exception_class(esr_el2) != 0x20 ==> result == Err::<
            Handled,
            Fatal,
        >(Fatal::UnknownException { class: exception_class(esr_el2) }),
        exception_class(esr_el2) == 0x20 ==> result == Err::<Handled, Fatal>(
            match instruction_fault_of(esr_el2) {
                Some(fault) => Fatal::InstructionAbort {
                    fault,
                    stage1_walk: esr_el2 & ESR_EL2_ISS_S1PTW != 0,
                },
                None => Fatal::UnknownInstructionAbort,
            },
        ),
        exception_class(esr_el2) == 0x24 && !syndrome_valid(esr_el2) ==> result == Err::<
            Handled,
            Fatal,
        >(Fatal::DataAbortInfoUnavailable),
        exception_class(esr_el2) == 0x24 && syndrome_valid(esr_el2) ==> {
            let access = data_abort_of(esr_el2, hpfar_el2, far_el2);
            match emulated(old(registers)@, access) {
                Ok((values, text)) => {
                    &&& result == Ok::<Handled, Fatal>(handled(old(registers)@, access))
                    &&& final(registers)@ == values
                    &&& final(console)@ == old(console)@ + text
                    &&& *final(elr_el2) == *old(elr_el2) + 4
                },
                Err(fatal) => result == Err::<Handled, Fatal>(fatal),
            }
        },
        result is Err ==> final(registers)@ == old(registers)@ && final(console)@ == old(console)@
            && *final(elr_el2) == *old(elr_el2),
{
    let ec: u64 = esr_el2 & ESR_EL2_EC;
    proof {
        lemma_syndrome_fields(esr_el2);
    }
    if ec == ESR_EL2_EC_DATA_ABORT {
        data_abort_handler(registers, esr_el2, hpfar_el2, far_el2, elr_el2, console)
    } else if ec == ESR_EL2_EC_INSTRUCTION_ABORT {
        Err(instruction_abort_handler(registers, esr_el2))
    } else {
        Err(Fatal::UnknownException { class: ec >> ESR_EL2_EC_BITS_OFFSET })
    }
}

} // verus!
