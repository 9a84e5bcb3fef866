//! The emulated virtio-mmio transport: the registers by which a guest finds
//! a virtio device. No queue is behind them.

use vstd::prelude::*;

verus! {

/// The address of the transport's register window.
pub const VIRT_MMIO: u64 = 0xa000000;

/// The size of the transport's register window.
pub const VIRT_MMIO_SIZE: u64 = 0x200;

/// The magic value, the string "virt" in little-endian order.
pub const VIRT_MMIO_MAGIC_VALUE: u32 = 0x74726976;

pub const VIRT_MMIO_VERSION: u32 = 0x2;

/// The largest queue size that the device offers.
pub const VIRT_MMIO_QUEUE_NUM_MAX: u32 = 1024;

pub const VIRTIO_RESERVED: u32 = 0x00;

pub const VIRTIO_NETWORK_CARD: u32 = 0x01;

pub const VIRTIO_BLOCK_DEVICE: u32 = 0x02;

pub const VIRT_MMIO_MAGIC_OFFSET: usize = 0x00;

pub const VIRT_MMIO_VERSION_OFFSET: usize = 0x04;

pub const VIRT_MMIO_DEVICE_ID_OFFSET: usize = 0x08;

pub const VIRT_MMIO_VENDOR_ID_OFFSET: usize = 0x0c;

pub const VIRT_MMIO_DEVICE_FEATURES_OFFSET: usize = 0x10;

pub const VIRT_MMIO_DEVICE_FEATURE_SEL_OFFSET: usize = 0x14;

pub const VIRT_MMIO_DRIVER_FEATURES_OFFSET: usize = 0x20;

pub const VIRT_MMIO_DRIVER_FEATURES_SEL_OFFSET: usize = 0x24;

pub const VIRT_MMIO_QUEUE_SEL_OFFSET: usize = 0x30;

pub const VIRT_MMIO_QUEUE_NUM_MAX_OFFSET: usize = 0x34;

pub const VIRT_MMIO_QUEUE_NUM_OFFSET: usize = 0x38;

pub const VIRT_MMIO_QUEUE_READY_OFFSET: usize = 0x44;

pub const VIRT_MMIO_QUEUE_DESC_LOW_OFFSET: usize = 0x80;

pub const VIRT_MMIO_QUEUE_DESC_HIGH_OFFSET: usize = 0x84;

pub const VIRT_MMIO_QUEUE_DRIVER_LOW_OFFSET: usize = 0x90;

pub const VIRT_MMIO_QUEUE_DRIVER_HIGH_OFFSET: usize = 0x94;

pub const VIRT_MMIO_QUEUE_DEVICE_LOW_OFFSET: usize = 0xa0;

pub const VIRT_MMIO_QUEUE_DEVICE_HIGH_OFFSET: usize = 0xa4;

/// What a register of a device of type `device_type` reads as, for the
/// registers that can be read.
pub open spec fn register_value(device_type: u32, offset: usize) -> Option<u32> {
    if offset == VIRT_MMIO_MAGIC_OFFSET {
        Some(VIRT_MMIO_MAGIC_VALUE)
    } else if offset == VIRT_MMIO_VERSION_OFFSET {
        Some(VIRT_MMIO_VERSION)
    } else if offset == VIRT_MMIO_DEVICE_ID_OFFSET {
        Some(device_type)
    } else if offset == VIRT_MMIO_QUEUE_NUM_MAX_OFFSET {
        Some(VIRT_MMIO_QUEUE_NUM_MAX)
    } else {
        None
    }
}

/// Reads a register: the magic value, the version, the device type that
/// the caller names, or the largest queue size. Every other offset fails.
pub fn virt_mmio_read(device_type: u32, offset: usize, _access_width: u64) -> (result: Result<
    u32,
    (),
>)
    ensures
        match register_value(device_type, offset) {
            Some(value) => result == Ok::<u32, ()>(value),
            None => result is Err,
        },
{
    if offset == VIRT_MMIO_MAGIC_OFFSET {
        Ok(VIRT_MMIO_MAGIC_VALUE)
    } else if offset == VIRT_MMIO_VERSION_OFFSET {
        Ok(0x2)
    } else if offset == VIRT_MMIO_DEVICE_ID_OFFSET {
        Ok(device_type)
    } else if offset == VIRT_MMIO_QUEUE_NUM_MAX_OFFSET {
        Ok(VIRT_MMIO_QUEUE_NUM_MAX)
    } else {
        Err(())
    }
}

/// Writes a register. Every write is accepted and none has an effect.
pub fn virt_mmio_write(_device_type: u32, _offset: usize, _access_width: u64, _value: u32) -> (result:
    Result<(), ()>)
    ensures
        result is Ok,
{
    Ok(())
}

} // verus!
