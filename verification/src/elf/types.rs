//! The raw values that an ELF file stores, and their well-known constants.

use vstd::prelude::*;

verus! {

/// Number of bytes in the identification block.
pub const EI_NIDENT: usize = 16;

/// Position of the class byte in the identification block.
pub const EI_CLASS: usize = 4;

/// Position of the data-encoding byte in the identification block.
pub const EI_DATA: usize = 5;

/// Position of the format-version byte in the identification block.
pub const EI_VERSION: usize = 6;

/// Position of the OS ABI byte in the identification block.
pub const EI_OSABI: usize = 7;

/// Position of the ABI version byte in the identification block.
pub const EI_ABIVERSION: usize = 8;

/// The four bytes that every ELF file begins with.
pub const ELFMAG: [u8; 4] = [0x7f, 0x45, 0x4c, 0x46];

/// Word width of the container.
#[derive(Clone, Copy, Debug, PartialEq, Eq, Structural)]
pub struct Class(pub u8);

pub const ELFCLASSNONE: u8 = 0;

pub const ELFCLASS32: u8 = 1;

pub const ELFCLASS64: u8 = 2;

/// Byte order of the container's multi-byte fields.
#[derive(Clone, Copy, Debug, PartialEq, Eq, Structural)]
pub struct Data(pub u8);

pub const ELFDATANONE: u8 = 0;

pub const ELFDATA2LSB: u8 = 1;

pub const ELFDATA2MSB: u8 = 2;

/// Format version.
#[derive(Clone, Copy, Debug, PartialEq, Eq, Structural)]
pub struct Version(pub u32);

pub const EV_NONE: u32 = 0;

pub const EV_CURRENT: u32 = 1;

/// Operating-system ABI.
#[derive(Clone, Copy, Debug, PartialEq, Eq, Structural)]
pub struct OsAbi(pub u8);

pub const ELFOSABI_NONE: u8 = 0;

pub const ELFOSABI_LINUX: u8 = 3;

/// Kind of object file.
#[derive(Clone, Copy, Debug, PartialEq, Eq, Structural)]
pub struct Type(pub u16);

pub const ET_NONE: u16 = 0;

pub const ET_REL: u16 = 1;

pub const ET_EXEC: u16 = 2;

pub const ET_DYN: u16 = 3;

pub const ET_CORE: u16 = 4;

/// Target instruction set.
#[derive(Clone, Copy, Debug, PartialEq, Eq, Structural)]
pub struct Machine(pub u16);

pub const EM_NONE: u16 = 0;

pub const EM_386: u16 = 3;

pub const EM_PPC: u16 = 20;

pub const EM_PPC64: u16 = 21;

pub const EM_ARM: u16 = 40;

pub const EM_X86_64: u16 = 62;

pub const EM_AARCH64: u16 = 183;

/// Kind of section.
#[derive(Clone, Copy, Debug, PartialEq, Eq, Structural)]
pub struct SectionType(pub u32);

pub const SHT_NULL: u32 = 0;

pub const SHT_PROGBITS: u32 = 1;

pub const SHT_SYMTAB: u32 = 2;

pub const SHT_STRTAB: u32 = 3;

pub const SHT_NOBITS: u32 = 8;

/// Attribute bits of a section, widened to 64 bits.
#[derive(Clone, Copy, Debug, PartialEq, Eq, Structural)]
pub struct SectionFlag(pub u64);

/// The decoded file header.
#[derive(Clone, Copy, Debug, PartialEq, Eq, Structural)]
pub struct FileHeader {
    pub class: Class,
    pub data: Data,
    pub version: Version,
    pub os_abi: OsAbi,
    pub abi_version: u8,
    pub elf_type: Type,
    pub machine: Machine,
    pub entrypoint: u64,
}

/// One record of the section header table.
#[derive(Clone, Debug)]
pub struct SectionHeader {
    pub name: String,
    pub shtype: SectionType,
    pub flags: SectionFlag,
    pub addr: u64,
    pub offset: u64,
    pub size: u64,
    pub link: u32,
    pub info: u32,
    pub addralign: u64,
    pub entsize: u64,
}

/// A section header as plain values.
pub struct SectionHeaderView {
    pub name: Seq<char>,
    pub shtype: SectionType,
    pub flags: SectionFlag,
    pub addr: u64,
    pub offset: u64,
    pub size: u64,
    pub link: u32,
    pub info: u32,
    pub addralign: u64,
    pub entsize: u64,
}

impl View for SectionHeader {
    type V = SectionHeaderView;

    open spec fn view(&self) -> SectionHeaderView {
        SectionHeaderView {
            name: self.name@,
            shtype: self.shtype,
            flags: self.flags,
            addr: self.addr,
            offset: self.offset,
            size: self.size,
            link: self.link,
            info: self.info,
            addralign: self.addralign,
            entsize: self.entsize,
        }
    }
}

} // verus!
