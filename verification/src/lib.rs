//! A read-only decoder for the ELF object-file container: the file header,
//! the section header table, the section payloads, and the symbol table.

pub mod elf;
pub mod endian;
pub mod namemap;
pub mod object;

pub use object::{ARMMode, ARMType, Arch, Endianness, Error, Object, Section, Width};
