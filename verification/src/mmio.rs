//! The emulated devices behind the addresses that stage 2 leaves
//! untranslated.

pub mod pl011;
pub mod virt_mmio;
