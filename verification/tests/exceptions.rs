use hypervisor_core::exception::{
    advance_elr_el2, data_abort_handler, decode_data_abort, instruction_abort_handler,
    synchronous_handler, DataAbort, Device, Fatal, Handled, InstructionFault, Registers,
};

const DATA_ABORT: u64 = 0b100100 << 26;
const INSTRUCTION_ABORT: u64 = 0b100000 << 26;
const ISV: u64 = 1 << 24;
const SF: u64 = 1 << 15;
const WNR: u64 = 1 << 6;

fn syndrome(size: u64, register: u64) -> u64 {
    DATA_ABORT | ISV | (size << 22) | (register << 16)
}

fn hpfar(address: u64) -> u64 {
    (address >> 12) << 4
}

fn numbered() -> Registers {
    let mut registers = Registers::new();
    for index in 0..32usize {
        registers.set(index, 0x1111_0000_0000_0100 + index as u64);
    }
    registers
}

#[test]
fn registers_are_addressed_by_index() {
    let mut registers = Registers::new();
    for index in 0..32usize {
        assert_eq!(registers.get(index), 0);
    }
    registers.set(0, 10);
    registers.set(5, 50);
    registers.set(30, 300);
    registers.set(31, 310);
    assert_eq!(registers.x0, 10);
    assert_eq!(registers.x5, 50);
    assert_eq!(registers.x30, 300);
    assert_eq!(registers.padding, 310);
    assert_eq!(registers.get(5), 50);
    assert_eq!(registers.get(4), 0);
    registers.x17 = 170;
    assert_eq!(registers.get(17), 170);
}

#[test]
fn syndrome_of_a_32_bit_store_from_register_5() {
    let esr = DATA_ABORT | ISV | (0b10 << 22) | (5 << 16) | WNR;
    let access = decode_data_abort(esr, 0, 0).unwrap();
    assert_eq!(access.access_width, 32);
    assert!(access.is_write_access);
    assert_eq!(access.register_number, 5);
    assert!(!access.is_64bit_register);
}

#[test]
fn syndrome_gives_every_access_width() {
    assert_eq!(decode_data_abort(syndrome(0b00, 0), 0, 0).unwrap().access_width, 8);
    assert_eq!(decode_data_abort(syndrome(0b01, 0), 0, 0).unwrap().access_width, 16);
    assert_eq!(decode_data_abort(syndrome(0b10, 0), 0, 0).unwrap().access_width, 32);
    assert_eq!(decode_data_abort(syndrome(0b11, 0), 0, 0).unwrap().access_width, 64);
}

#[test]
fn syndrome_gives_register_direction_and_register_width() {
    let load = decode_data_abort(syndrome(0b11, 31) | SF, 0, 0).unwrap();
    assert_eq!(load.register_number, 31);
    assert!(!load.is_write_access);
    assert!(load.is_64bit_register);
    let store = decode_data_abort(syndrome(0b00, 16) | WNR, 0, 0).unwrap();
    assert_eq!(store.register_number, 16);
    assert!(store.is_write_access);
    assert!(!store.is_64bit_register);
}

#[test]
fn fault_address_joins_page_and_offset() {
    let access = decode_data_abort(syndrome(0, 0), 0x0009_0000, 0xFFFF_0000_1234_5018).unwrap();
    assert_eq!(access.address, 0x0900_0018);
    let high = decode_data_abort(syndrome(0, 0), 0xFFFF_FFFF_FFFF_FFFF, 0xABC).unwrap();
    assert_eq!(high.address, 0x000F_FFFF_FFFF_FABC);
}

#[test]
fn syndrome_without_valid_bit_is_not_decoded() {
    assert_eq!(decode_data_abort(DATA_ABORT | (0b10 << 22) | (5 << 16) | WNR, 0, 0), None);
}

#[test]
fn return_address_moves_by_one_instruction() {
    let mut elr: u64 = 0x4008_0000;
    advance_elr_el2(&mut elr);
    assert_eq!(elr, 0x4008_0004);
}

#[test]
fn store_to_the_console_emits_the_character() {
    let mut registers = numbered();
    registers.set(3, 0xFFFF_FF00_0000_0041);
    let before = registers;
    let mut elr: u64 = 0x1000;
    let mut console: Vec<char> = Vec::new();
    let result = data_abort_handler(
        &mut registers,
        syndrome(0b00, 3) | WNR,
        hpfar(0x0900_0000),
        0x000,
        &mut elr,
        &mut console,
    );
    let access = DataAbort {
        address: 0x0900_0000,
        access_width: 8,
        is_write_access: true,
        register_number: 3,
        is_64bit_register: false,
    };
    assert_eq!(result, Ok(Handled::Emulated { device: Device::Console, access }));
    assert_eq!(console, vec!['A']);
    assert_eq!(elr, 0x1004);
    for index in 0..32usize {
        assert_eq!(registers.get(index), before.get(index));
    }
}

#[test]
fn store_of_a_newline_emits_the_banner() {
    let mut registers = Registers::new();
    registers.set(0, 0x0A);
    let mut elr: u64 = 0;
    let mut console: Vec<char> = Vec::new();
    let result = data_abort_handler(
        &mut registers,
        syndrome(0b10, 0) | WNR | SF,
        hpfar(0x0900_0000),
        0,
        &mut elr,
        &mut console,
    );
    assert!(result.is_ok());
    let text: String = console.iter().collect();
    assert_eq!(text, "\nLet's access https://amazon.co.jp/ !!");
    assert_eq!(elr, 4);
}

#[test]
fn load_from_the_console_flags_clears_the_register() {
    let mut registers = numbered();
    let before = registers;
    let mut elr: u64 = 0x2000;
    let mut console: Vec<char> = Vec::new();
    let result = data_abort_handler(
        &mut registers,
        syndrome(0b10, 7),
        hpfar(0x0900_0000),
        0x018,
        &mut elr,
        &mut console,
    );
    assert!(matches!(result, Ok(Handled::Emulated { device: Device::Console, .. })));
    assert_eq!(registers.get(7), 0);
    for index in 0..32usize {
        if index != 7 {
            assert_eq!(registers.get(index), before.get(index));
        }
    }
    assert!(console.is_empty());
    assert_eq!(elr, 0x2004);
}

#[test]
fn console_refusing_the_access_is_fatal() {
    let mut registers = numbered();
    let before = registers;
    let mut elr: u64 = 0x2000;
    let mut console: Vec<char> = Vec::new();
    let load = data_abort_handler(
        &mut registers,
        syndrome(0b10, 7),
        hpfar(0x0900_0000),
        0x000,
        &mut elr,
        &mut console,
    );
    assert_eq!(load, Err(Fatal::MmioFailed));
    let store = data_abort_handler(
        &mut registers,
        syndrome(0b10, 7) | WNR,
        hpfar(0x0900_0000),
        0x018,
        &mut elr,
        &mut console,
    );
    assert_eq!(store, Err(Fatal::MmioFailed));
    assert_eq!(elr, 0x2000);
    assert!(console.is_empty());
    for index in 0..32usize {
        assert_eq!(registers.get(index), before.get(index));
    }
}

#[test]
fn load_from_virtio_reads_the_transport_registers() {
    let cases: [(u64, u64); 4] = [(0x00, 0x7472_6976), (0x04, 2), (0x08, 1), (0x34, 1024)];
    for (offset, value) in cases {
        let mut registers = numbered();
        let mut elr: u64 = 0x3000;
        let mut console: Vec<char> = Vec::new();
        let result = data_abort_handler(
            &mut registers,
            syndrome(0b10, 9),
            hpfar(0x0a00_0000),
            offset,
            &mut elr,
            &mut console,
        );
        assert!(matches!(result, Ok(Handled::Emulated { device: Device::VirtioMmio, .. })));
        assert_eq!(registers.get(9), value);
        assert_eq!(elr, 0x3004);
    }
}

#[test]
fn virtio_refusing_a_load_is_fatal() {
    let mut registers = numbered();
    let mut elr: u64 = 0x3000;
    let mut console: Vec<char> = Vec::new();
    let result = data_abort_handler(
        &mut registers,
        syndrome(0b10, 9),
        hpfar(0x0a00_0000),
        0x0c,
        &mut elr,
        &mut console,
    );
    assert_eq!(result, Err(Fatal::VirtioMmioFailed));
    assert_eq!(registers.get(9), 0x1111_0000_0000_0109);
    assert_eq!(elr, 0x3000);
}

#[test]
fn store_to_virtio_is_accepted_and_changes_nothing() {
    let mut registers = numbered();
    let before = registers;
    let mut elr: u64 = 0x3000;
    let mut console: Vec<char> = Vec::new();
    let result = data_abort_handler(
        &mut registers,
        syndrome(0b10, 9) | WNR,
        hpfar(0x0a00_0000),
        0x044,
        &mut elr,
        &mut console,
    );
    assert!(matches!(result, Ok(Handled::Emulated { device: Device::VirtioMmio, .. })));
    for index in 0..32usize {
        assert_eq!(registers.get(index), before.get(index));
    }
    assert!(console.is_empty());
    assert_eq!(elr, 0x3004);
}

#[test]
fn virtio_window_ends_one_byte_short() {
    let mut registers = numbered();
    let mut elr: u64 = 0;
    let mut console: Vec<char> = Vec::new();
    let inside = data_abort_handler(
        &mut registers,
        syndrome(0b00, 1) | WNR,
        hpfar(0x0a00_0000),
        0x1fe,
        &mut elr,
        &mut console,
    );
    assert!(matches!(inside, Ok(Handled::Emulated { device: Device::VirtioMmio, .. })));
    let outside = data_abort_handler(
        &mut registers,
        syndrome(0b00, 1) | WNR,
        hpfar(0x0a00_0000),
        0x1ff,
        &mut elr,
        &mut console,
    );
    assert!(matches!(outside, Ok(Handled::Unclaimed { .. })));
}

#[test]
fn store_to_an_unclaimed_address_leaves_the_registers() {
    let mut registers = numbered();
    let before = registers;
    let mut elr: u64 = 0x5000;
    let mut console: Vec<char> = Vec::new();
    let result = data_abort_handler(
        &mut registers,
        syndrome(0b11, 12) | WNR | SF,
        hpfar(0x0800_0000),
        0x010,
        &mut elr,
        &mut console,
    );
    let access = DataAbort {
        address: 0x0800_0010,
        access_width: 64,
        is_write_access: true,
        register_number: 12,
        is_64bit_register: true,
    };
    assert_eq!(
        result,
        Ok(Handled::Unclaimed { access, register_value: 0x1111_0000_0000_010C })
    );
    for index in 0..32usize {
        assert_eq!(registers.get(index), before.get(index));
    }
    assert!(console.is_empty());
    assert_eq!(elr, 0x5004);
}

#[test]
fn load_from_an_unclaimed_address_leaves_the_registers() {
    let mut registers = numbered();
    let before = registers;
    let mut elr: u64 = 0x5000;
    let mut console: Vec<char> = Vec::new();
    let result = data_abort_handler(
        &mut registers,
        syndrome(0b01, 2),
        hpfar(0x0900_1000),
        0,
        &mut elr,
        &mut console,
    );
    assert!(matches!(result, Ok(Handled::Unclaimed { register_value: 0x1111_0000_0000_0102, .. })));
    for index in 0..32usize {
        assert_eq!(registers.get(index), before.get(index));
    }
    assert_eq!(elr, 0x5004);
}

#[test]
fn data_abort_without_valid_syndrome_is_fatal() {
    let mut registers = numbered();
    let mut elr: u64 = 0x5000;
    let mut console: Vec<char> = Vec::new();
    let result = data_abort_handler(
        &mut registers,
        DATA_ABORT | WNR,
        hpfar(0x0900_0000),
        0,
        &mut elr,
        &mut console,
    );
    assert_eq!(result, Err(Fatal::DataAbortInfoUnavailable));
    assert_eq!(elr, 0x5000);
    assert!(console.is_empty());
}

#[test]
fn instruction_abort_names_its_cause() {
    let mut registers = numbered();
    let faults = [
        InstructionFault::AddressSizeLevel0,
        InstructionFault::AddressSizeLevel1,
        InstructionFault::AddressSizeLevel2,
        InstructionFault::AddressSizeLevel3,
        InstructionFault::TranslationLevel0,
        InstructionFault::TranslationLevel1,
        InstructionFault::TranslationLevel2,
        InstructionFault::TranslationLevel3,
    ];
    for (code, fault) in faults.iter().enumerate() {
        assert_eq!(
            instruction_abort_handler(&mut registers, INSTRUCTION_ABORT | code as u64),
            Fatal::InstructionAbort { fault: *fault, stage1_walk: false }
        );
        assert_eq!(
            instruction_abort_handler(&mut registers, INSTRUCTION_ABORT | code as u64 | (1 << 7)),
            Fatal::InstructionAbort { fault: *fault, stage1_walk: true }
        );
    }
    assert_eq!(registers.get(3), 0x1111_0000_0000_0103);
}

#[test]
fn instruction_fault_messages() {
    assert_eq!(
        InstructionFault::AddressSizeLevel0.message(),
        "Address size fault, level 0 of translation or translation table base register."
    );
    assert_eq!(InstructionFault::AddressSizeLevel1.message(), "Address size fault, level 1.");
    assert_eq!(InstructionFault::AddressSizeLevel2.message(), "Address size fault, level 2.");
    assert_eq!(InstructionFault::AddressSizeLevel3.message(), "Address size fault, level 3.");
    assert_eq!(InstructionFault::TranslationLevel0.message(), "Translation fault, level 0.");
    assert_eq!(InstructionFault::TranslationLevel1.message(), "Translation fault, level 1.");
    assert_eq!(InstructionFault::TranslationLevel2.message(), "Translation fault, level 2.");
    assert_eq!(InstructionFault::TranslationLevel3.message(), "Translation fault, level 3.");
}

#[test]
fn only_a_level_2_translation_fault_tells_of_the_walk() {
    assert_eq!(
        InstructionFault::TranslationLevel2.walk_message(false),
        Some("Fault not on a stage 2 translation for a stage 1 translation table walk.")
    );
    assert_eq!(
        InstructionFault::TranslationLevel2.walk_message(true),
        Some("Fault on the stage 2 translation of an access for a stage 1 translation table walk.")
    );
    assert_eq!(InstructionFault::TranslationLevel1.walk_message(true), None);
    assert_eq!(InstructionFault::TranslationLevel3.walk_message(false), None);
    assert_eq!(InstructionFault::AddressSizeLevel2.walk_message(true), None);
}

#[test]
fn fatal_messages() {
    assert_eq!(Fatal::UnknownException { class: 7 }.message(), "Unknown Exception: ");
    assert_eq!(Fatal::DataAbortInfoUnavailable.message(), "Data Abort Info is not available.");
    assert_eq!(Fatal::MmioFailed.message(), "Failed to handle MMIO");
    assert_eq!(Fatal::VirtioMmioFailed.message(), "Failed to handle VIRTIO MMIO");
    assert_eq!(Fatal::UnknownInstructionAbort.message(), "Unknown Instruction Abort");
    assert_eq!(
        Fatal::InstructionAbort { fault: InstructionFault::TranslationLevel0, stage1_walk: false }
            .message(),
        "Translation fault, level 0."
    );
}

#[test]
fn instruction_abort_with_unknown_status_code() {
    let mut registers = numbered();
    assert_eq!(
        instruction_abort_handler(&mut registers, INSTRUCTION_ABORT | 0b001000),
        Fatal::UnknownInstructionAbort
    );
    assert_eq!(
        instruction_abort_handler(&mut registers, INSTRUCTION_ABORT | 0b111111),
        Fatal::UnknownInstructionAbort
    );
}

#[test]
fn unknown_exception_class_is_reported_with_its_number() {
    let mut registers = numbered();
    let before = registers;
    let mut elr: u64 = 0x7000;
    let mut console: Vec<char> = Vec::new();
    for class in 0..64u64 {
        if class == 0b100100 || class == 0b100000 {
            continue;
        }
        let result = synchronous_handler(
            &mut registers,
            (class << 26) | ISV | WNR | 0x1F_FFFF,
            hpfar(0x0900_0000),
            0,
            &mut elr,
            &mut console,
        );
        assert_eq!(result, Err(Fatal::UnknownException { class }));
    }
    assert_eq!(elr, 0x7000);
    assert!(console.is_empty());
    for index in 0..32usize {
        assert_eq!(registers.get(index), before.get(index));
    }
}

#[test]
fn synchronous_handler_routes_by_class() {
    let mut registers = numbered();
    registers.set(4, 0x42);
    let mut elr: u64 = 0x7000;
    let mut console: Vec<char> = Vec::new();
    let data = synchronous_handler(
        &mut registers,
        syndrome(0b00, 4) | WNR,
        hpfar(0x0900_0000),
        0,
        &mut elr,
        &mut console,
    );
    assert!(matches!(data, Ok(Handled::Emulated { device: Device::Console, .. })));
    assert_eq!(console, vec!['B']);
    assert_eq!(elr, 0x7004);
    let instruction = synchronous_handler(
        &mut registers,
        INSTRUCTION_ABORT | 0b000101,
        0,
        0,
        &mut elr,
        &mut console,
    );
    assert_eq!(
        instruction,
        Err(Fatal::InstructionAbort {
            fault: InstructionFault::TranslationLevel1,
            stage1_walk: false
        })
    );
    assert_eq!(elr, 0x7004);
}

#[test]
fn upper_syndrome_bits_do_not_change_the_class() {
    let mut registers = numbered();
    let mut elr: u64 = 0;
    let mut console: Vec<char> = Vec::new();
    let result = synchronous_handler(
        &mut registers,
        0xFFFF_FFFF_0000_0000 | syndrome(0b10, 1),
        hpfar(0x0900_0000),
        0x018,
        &mut elr,
        &mut console,
    );
    assert!(result.is_ok());
    assert_eq!(registers.get(1), 0);
}
