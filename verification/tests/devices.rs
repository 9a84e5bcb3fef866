use hypervisor_core::mmio::pl011::{mmio_read, mmio_write, UART_DR, UART_FR};
use hypervisor_core::mmio::virt_mmio::{virt_mmio_read, virt_mmio_write};

#[test]
fn console_flag_register_reads_zero() {
    assert_eq!(mmio_read(UART_FR, 32), Ok(0));
    assert_eq!(mmio_read(0x018, 8), Ok(0));
}

#[test]
fn console_other_registers_cannot_be_read() {
    assert_eq!(mmio_read(UART_DR, 32), Err(()));
    assert_eq!(mmio_read(0x004, 32), Err(()));
    assert_eq!(mmio_read(0xFFC, 32), Err(()));
}

#[test]
fn console_emits_the_written_character() {
    let mut console: Vec<char> = Vec::new();
    assert_eq!(mmio_write(UART_DR, 8, 0x41, &mut console), Ok(()));
    assert_eq!(console, vec!['A']);
}

#[test]
fn console_emits_the_low_byte_only() {
    let mut console: Vec<char> = vec!['>'];
    assert_eq!(mmio_write(0, 32, 0x1234_5642, &mut console), Ok(()));
    assert_eq!(console, vec!['>', 'B']);
    assert_eq!(mmio_write(0, 32, 0xE9, &mut console), Ok(()));
    assert_eq!(console, vec!['>', 'B', '\u{e9}']);
}

#[test]
fn console_follows_a_newline_with_the_banner() {
    let mut console: Vec<char> = Vec::new();
    assert_eq!(mmio_write(UART_DR, 8, 0x0A, &mut console), Ok(()));
    let text: String = console.iter().collect();
    assert_eq!(text, "\nLet's access https://amazon.co.jp/ !!");
    assert_eq!(mmio_write(UART_DR, 8, 0x10A, &mut console), Ok(()));
    let twice: String = console.iter().collect();
    assert_eq!(
        twice,
        "\nLet's access https://amazon.co.jp/ !!\nLet's access https://amazon.co.jp/ !!"
    );
}

#[test]
fn console_other_registers_cannot_be_written() {
    let mut console: Vec<char> = Vec::new();
    assert_eq!(mmio_write(UART_FR, 32, 0x41, &mut console), Err(()));
    assert_eq!(mmio_write(0x030, 32, 0x41, &mut console), Err(()));
    assert!(console.is_empty());
}

#[test]
fn virtio_magic_does_not_depend_on_the_device_type() {
    assert_eq!(virt_mmio_read(0, 0x00, 32), Ok(0x7472_6976));
    assert_eq!(virt_mmio_read(1, 0x00, 32), Ok(0x7472_6976));
    assert_eq!(virt_mmio_read(0xFFFF_FFFF, 0x00, 32), Ok(0x7472_6976));
}

#[test]
fn virtio_version_is_two() {
    assert_eq!(virt_mmio_read(1, 0x04, 32), Ok(2));
}

#[test]
fn virtio_device_id_is_the_callers_device_type() {
    assert_eq!(virt_mmio_read(0, 0x08, 32), Ok(0));
    assert_eq!(virt_mmio_read(1, 0x08, 32), Ok(1));
    assert_eq!(virt_mmio_read(2, 0x08, 32), Ok(2));
    assert_eq!(virt_mmio_read(0xDEAD_BEEF, 0x08, 32), Ok(0xDEAD_BEEF));
}

#[test]
fn virtio_queue_num_max_is_1024() {
    assert_eq!(virt_mmio_read(1, 0x34, 32), Ok(1024));
}

#[test]
fn virtio_other_registers_cannot_be_read() {
    assert_eq!(virt_mmio_read(1, 0x0c, 32), Err(()));
    assert_eq!(virt_mmio_read(1, 0x10, 32), Err(()));
    assert_eq!(virt_mmio_read(1, 0x44, 32), Err(()));
    assert_eq!(virt_mmio_read(1, 0x01, 32), Err(()));
    assert_eq!(virt_mmio_read(1, 0x1fc, 32), Err(()));
}

#[test]
fn virtio_writes_are_accepted() {
    assert_eq!(virt_mmio_write(1, 0x44, 32, 1), Ok(()));
    assert_eq!(virt_mmio_write(1, 0x00, 32, 0xFFFF_FFFF), Ok(()));
    assert_eq!(virt_mmio_write(2, 0x1fc, 8, 0), Ok(()));
}
