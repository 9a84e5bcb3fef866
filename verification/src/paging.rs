//! Stage-2 address translation: descriptors, tables and the mapper.

pub mod entry;
pub mod map;
pub mod stage2;
pub mod table;
pub mod walk;
