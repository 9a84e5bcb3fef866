//! Core logic of a minimal AArch64 type-1 hypervisor: stage-2 translation
//! tables, decoding of guest aborts, and emulation of the memory-mapped
//! devices behind the addresses that stage 2 leaves untranslated.
//!
//! Everything here works on plain values. Reading and writing system
//! registers, placing tables in physical memory and printing are left to the
//! code that embeds this library.
//!
//! - `paging` builds the stage-2 tables and says what they translate.
//! - `exception` classifies a synchronous exception and emulates the access
//!   behind a data abort.
//! - `mmio` holds the emulated devices.
//! - `memory` hands out the pages that tables and stacks live in.
//! - `el1` gives the register values with which the guest starts.

pub mod el1;
pub mod exception;
pub mod memory;
pub mod mmio;
pub mod paging;
