//! The file header: the identification block and the fields that follow it.

use crate::elf::reader::{data_valid, read_failure, u16_at, u32_at, u64_at, Reader};
use crate::elf::types::{Class, Data, Machine, OsAbi, Type, Version};
use crate::elf::types::{EI_ABIVERSION, EI_CLASS, EI_DATA, EI_NIDENT, EI_OSABI, ELFCLASS32, ELFCLASS64};
use crate::object::Error;
use vstd::prelude::*;

verus! {

/// Every field of the file header, addresses and offsets widened to 64 bits.
#[derive(Clone, Copy, Debug, PartialEq, Eq, Structural)]
pub struct Header {
    pub class: Class,
    pub data: Data,
    pub os_abi: OsAbi,
    pub abi_version: u8,
    pub elf_type: Type,
    pub machine: Machine,
    pub version: Version,
    pub entry: u64,
    pub phoff: u64,
    pub shoff: u64,
    pub flags: u32,
    pub ehsize: u16,
    pub phentsize: u16,
    pub phnum: u16,
    pub shentsize: u16,
    pub shnum: u16,
    pub shstrndx: u16,
}

/// Whether `class` names one of the two layouts.
pub open spec fn class_valid(class: Class) -> bool {
    class.0 == ELFCLASS32 || class.0 == ELFCLASS64
}

/// Number of bytes of an address or offset in the layout `class`.
pub open spec fn word_len(class: Class) -> int {
    if class.0 == ELFCLASS32 {
        4
    } else {
        8
    }
}

/// The address or offset that `s` holds at `pos` in the layout `class`.
pub open spec fn word_at(class: Class, data: Data, s: Seq<u8>, pos: int) -> int {
    if class.0 == ELFCLASS32 {
        u32_at(data, s, pos)
    } else {
        u64_at(data, s, pos)
    }
}

/// Number of bytes of the file header in the layout `class`.
pub open spec fn header_len(class: Class) -> int {
    40 + 3 * word_len(class)
}

/// Whether `s` begins with the magic bytes.
pub open spec fn has_magic(s: Seq<u8>) -> bool {
    s.len() >= 4 && s[0] == 0x7f && s[1] == 0x45 && s[2] == 0x4c && s[3] == 0x46
}

/// The class byte of the identification block.
pub open spec fn class_of(s: Seq<u8>) -> Class {
    Class(s[EI_CLASS as int])
}

/// The data-encoding byte of the identification block.
pub open spec fn data_of(s: Seq<u8>) -> Data {
    Data(s[EI_DATA as int])
}

/// Why decoding the header of `s` fails, if it does. The checks come in
/// the order in which the bytes are needed: the magic bytes, the rest of
/// the identification block, the byte order, the three fields of fixed
/// width, the class, and the remaining fields.
pub open spec fn header_error(s: Seq<u8>) -> Option<Error> {
    if !has_magic(s) {
        Some(Error::InvalidMagic)
    } else if s.len() < EI_NIDENT {
        Some(Error::UnexpectedEof)
    } else if !data_valid(data_of(s)) {
        Some(Error::InvalidEndianness)
    } else if s.len() < 24 {
        Some(Error::UnexpectedEof)
    } else if !class_valid(class_of(s)) {
        Some(Error::InvalidClass)
    } else if s.len() < header_len(class_of(s)) {
        Some(Error::UnexpectedEof)
    } else {
        None
    }
}

/// The header that `s` encodes, field by field at its fixed place.
pub open spec fn header_of(s: Seq<u8>) -> Header {
    let class = class_of(s);
    let data = data_of(s);
    let w = word_len(class);
    Header {
        class,
        data,
        os_abi: OsAbi(s[EI_OSABI as int]),
        abi_version: s[EI_ABIVERSION as int],
        elf_type: Type(u16_at(data, s, 16) as u16),
        machine: Machine(u16_at(data, s, 18) as u16),
        version: Version(u32_at(data, s, 20) as u32),
        entry: word_at(class, data, s, 24) as u64,
        phoff: word_at(class, data, s, 24 + w) as u64,
        shoff: word_at(class, data, s, 24 + 2 * w) as u64,
        flags: u32_at(data, s, 24 + 3 * w) as u32,
        ehsize: u16_at(data, s, 28 + 3 * w) as u16,
        phentsize: u16_at(data, s, 30 + 3 * w) as u16,
        phnum: u16_at(data, s, 32 + 3 * w) as u16,
        shentsize: u16_at(data, s, 34 + 3 * w) as u16,
        shnum: u16_at(data, s, 36 + 3 * w) as u16,
        shstrndx: u16_at(data, s, 38 + 3 * w) as u16,
    }
}

/// Why a read of an address or offset of `s` at `pos` fails, if it does:
/// the class is judged first, then the byte order, then the input's length.
pub open spec fn word_failure(class: Class, data: Data, s: Seq<u8>, pos: int) -> Option<Error> {
    if !class_valid(class) {
        Some(Error::InvalidClass)
    } else {
        read_failure(data, s, pos, word_len(class))
    }
}

/// Reads an address or offset in the layout `class` and widens it to 64
/// bits.
pub fn read_word(r: &mut Reader, class: Class, data: Data) -> (res: Result<u64, Error>)
    ensures
        final(r).bytes@ == old(r).bytes@,
        match res {
            Ok(v) => word_failure(class, data, old(r).bytes@, old(r).pos as int) is None && v
                == word_at(class, data, old(r).bytes@, old(r).pos as int) && final(r).pos == old(r).pos + word_len(class),
            Err(e) => word_failure(class, data, old(r).bytes@, old(r).pos as int) == Some(e)
                && final(r).pos == old(r).pos,
        },
{
    if class.0 == ELFCLASS32 {
        match r.read_u32(data) {
            Ok(v) => Ok(v as u64),
            Err(e) => Err(e),
        }
    } else if class.0 == ELFCLASS64 {
        r.read_u64(data)
    } else {
        Err(Error::InvalidClass)
    }
}

/// Decodes the file header at the start of `bytes`.
pub fn parse_header(bytes: &[u8]) -> (res: Result<Header, Error>)
    ensures
        match res {
            Ok(h) => header_error(bytes@) is None && h == header_of(bytes@),
            Err(e) => header_error(bytes@) == Some(e),
        },
{
    if bytes.len() < 4 || bytes[0] != 0x7f || bytes[1] != 0x45 || bytes[2] != 0x4c || bytes[3]
        != 0x46 {
        return Err(Error::InvalidMagic);
    }
    if bytes.len() < EI_NIDENT {
        return Err(Error::UnexpectedEof);
    }
    let class = Class(bytes[EI_CLASS]);
    let data = Data(bytes[EI_DATA]);
    let os_abi = OsAbi(bytes[EI_OSABI]);
    let abi_version: u8 = bytes[EI_ABIVERSION];
    let mut r = Reader::new(bytes);
    r.seek(16);
    let elf_type = Type(r.read_u16(data)?);
    let machine = Machine(r.read_u16(data)?);
    let version = Version(r.read_u32(data)?);
    let entry: u64 = read_word(&mut r, class, data)?;
    let phoff: u64 = read_word(&mut r, class, data)?;
    let shoff: u64 = read_word(&mut r, class, data)?;
    let flags: u32 = r.read_u32(data)?;
    let ehsize: u16 = r.read_u16(data)?;
    let phentsize: u16 = r.read_u16(data)?;
    let phnum: u16 = r.read_u16(data)?;
    let shentsize: u16 = r.read_u16(data)?;
    let shnum: u16 = r.read_u16(data)?;
    let shstrndx: u16 = r.read_u16(data)?;
    Ok(
        Header {
            class,
            data,
            os_abi,
            abi_version,
            elf_type,
            machine,
            version,
            entry,
            phoff,
            shoff,
            flags,
            ehsize,
            phentsize,
            phnum,
            shentsize,
            shnum,
            shstrndx,
        },
    )
}

} // verus!
