//! The ELF container format.

pub mod file;
pub mod header;
pub mod reader;
pub mod section;
pub mod strtab;
pub mod symbol;
pub mod text;
pub mod types;
