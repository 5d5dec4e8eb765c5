//! The section header table and the bytes of each section.

use crate::elf::header::{class_valid, read_word, word_at, word_len};
use crate::elf::reader::{data_valid, u32_at, Reader};
use crate::elf::types::{Class, Data, SectionFlag, SectionHeader, SectionHeaderView, SectionType};
use crate::object::Error;
use vstd::prelude::*;

verus! {

/// Number of bytes of one record of the section header table in the
/// layout `class`.
pub open spec fn record_len(class: Class) -> int {
    16 + 6 * word_len(class)
}

/// Why decoding the record of `s` at `pos` fails, if it does. The name
/// index and the type are read before the class decides the rest.
pub open spec fn record_failure(class: Class, data: Data, s: Seq<u8>, pos: int) -> Option<Error> {
    if !data_valid(data) {
        Some(Error::InvalidEndianness)
    } else if pos + 8 > s.len() {
        Some(Error::UnexpectedEof)
    } else if !class_valid(class) {
        Some(Error::InvalidClass)
    } else if pos + record_len(class) > s.len() {
        Some(Error::UnexpectedEof)
    } else {
        None
    }
}

/// The place in the section-name string table that the record at `pos`
/// gives for its name.
pub open spec fn name_index_at(data: Data, s: Seq<u8>, pos: int) -> u32 {
    u32_at(data, s, pos) as u32
}

/// The section header that the record of `s` at `pos` encodes, its name
/// left empty.
pub open spec fn section_header_at(class: Class, data: Data, s: Seq<u8>, pos: int)
    -> SectionHeaderView {
    let w = word_len(class);
    SectionHeaderView {
        name: Seq::empty(),
        shtype: SectionType(u32_at(data, s, pos + 4) as u32),
        flags: SectionFlag(word_at(class, data, s, pos + 8) as u64),
        addr: word_at(class, data, s, pos + 8 + w) as u64,
        offset: word_at(class, data, s, pos + 8 + 2 * w) as u64,
        size: word_at(class, data, s, pos + 8 + 3 * w) as u64,
        link: u32_at(data, s, pos + 8 + 4 * w) as u32,
        info: u32_at(data, s, pos + 12 + 4 * w) as u32,
        addralign: word_at(class, data, s, pos + 16 + 4 * w) as u64,
        entsize: word_at(class, data, s, pos + 16 + 5 * w) as u64,
    }
}

/// Decodes the record at the reader's position: the header with an empty
/// name, and the index of its name.
pub fn read_section_header(r: &mut Reader, class: Class, data: Data) -> (res: Result<
    (SectionHeader, u32),
    Error,
>)
    ensures
        final(r).bytes@ == old(r).bytes@,
        match res {
            Ok(rec) => record_failure(class, data, old(r).bytes@, old(r).pos as int) is None
                && rec.0@ == section_header_at(class, data, old(r).bytes@, old(r).pos as int)
                && rec.1 == name_index_at(data, old(r).bytes@, old(r).pos as int) && final(r).pos
                == old(r).pos + record_len(class),
            Err(e) => record_failure(class, data, old(r).bytes@, old(r).pos as int) == Some(e),
        },
{
    let name_idx: u32 = r.read_u32(data)?;
    let shtype = SectionType(r.read_u32(data)?);
    let flags = SectionFlag(read_word(r, class, data)?);
    let addr: u64 = read_word(r, class, data)?;
    let offset: u64 = read_word(r, class, data)?;
    let size: u64 = read_word(r, class, data)?;
    let link: u32 = r.read_u32(data)?;
    let info: u32 = r.read_u32(data)?;
    let addralign: u64 = read_word(r, class, data)?;
    let entsize: u64 = read_word(r, class, data)?;
    let hdr = SectionHeader {
        name: String::new(),
        shtype,
        flags,
        addr,
        offset,
        size,
        link,
        info,
        addralign,
        entsize,
    };
    Ok((hdr, name_idx))
}

/// Why decoding `shnum` records of `s` from `shoff` on fails, if it does:
/// the first record's failure, or the input ending before the last record.
pub open spec fn table_failure(class: Class, data: Data, s: Seq<u8>, shoff: int, shnum: int)
    -> Option<Error> {
    if shnum <= 0 {
        None
    } else if record_failure(class, data, s, shoff) is Some {
        record_failure(class, data, s, shoff)
    } else if shoff + shnum * record_len(class) > s.len() {
        Some(Error::UnexpectedEof)
    } else {
        None
    }
}

/// The headers of the `shnum` records of `s` from `shoff` on, in file
/// order, their names left empty.
pub open spec fn section_table(class: Class, data: Data, s: Seq<u8>, shoff: int, shnum: int)
    -> Seq<SectionHeaderView> {
    Seq::new(
        shnum as nat,
        |i: int| section_header_at(class, data, s, shoff + i * record_len(class)),
    )
}

/// The name indices of the `shnum` records of `s` from `shoff` on, in file
/// order.
pub open spec fn name_indices(class: Class, data: Data, s: Seq<u8>, shoff: int, shnum: int)
    -> Seq<u32> {
    Seq::new(shnum as nat, |i: int| name_index_at(data, s, shoff + i * record_len(class)))
}

/// The headers as plain values.
pub open spec fn header_views(headers: Seq<SectionHeader>) -> Seq<SectionHeaderView> {
    Seq::new(headers.len(), |i: int| headers[i]@)
}

/// Decodes the section header table: `shnum` records from `shoff` on. The
/// headers come back in file order with empty names, beside the index of
/// each name.
pub fn parse_section_headers(bytes: &[u8], class: Class, data: Data, shoff: u64, shnum: u16) -> (res:
    Result<(Vec<SectionHeader>, Vec<u32>), Error>)
    ensures
        match res {
            Ok(t) => table_failure(class, data, bytes@, shoff as int, shnum as int) is None
                && header_views(t.0@) == section_table(
                class,
                data,
                bytes@,
                shoff as int,
                shnum as int,
            ) && t.1@ == name_indices(class, data, bytes@, shoff as int, shnum as int) && t.0@.len()
                == shnum && t.1@.len() == shnum,
            Err(e) => table_failure(class, data, bytes@, shoff as int, shnum as int) == Some(e),
        },
{
    let mut headers: Vec<SectionHeader> = Vec::new();
    let mut name_idxs: Vec<u32> = Vec::new();
    let mut r = Reader::new(bytes);
    r.seek(shoff);
    let ghost rl = record_len(class);
    let mut i: u16 = 0;
    while i < shnum
        invariant
            i <= shnum,
            rl == record_len(class),
            r.bytes@ == bytes@,
            r.pos == shoff + i * rl,
            i > 0 ==> record_failure(class, data, bytes@, shoff as int) is None,
            i > 0 ==> shoff + i * rl <= bytes@.len(),
            headers@.len() == i,
            name_idxs@.len() == i,
            forall|j: int|
                0 <= j < i ==> (#[trigger] headers@[j])@ == section_header_at(
                    class,
                    data,
                    bytes@,
                    shoff + j * rl,
                ),
            forall|j: int|
                0 <= j < i ==> #[trigger] name_idxs@[j] == name_index_at(
                    data,
                    bytes@,
                    shoff + j * rl,
                ),
        decreases shnum - i,
    {
        proof {
            assert((i + 1) * rl == i * rl + rl) by (nonlinear_arith);
            assert(i * rl >= 0) by (nonlinear_arith)
                requires
                    i >= 0,
                    rl >= 0,
            ;
            if i + 1 <= shnum {
                assert((i + 1) * rl <= shnum * rl) by (nonlinear_arith)
                    requires
                        i + 1 <= shnum,
                        rl >= 0,
                ;
            }
        }
        match read_section_header(&mut r, class, data) {
            Ok(rec) => {
                headers.push(rec.0);
                name_idxs.push(rec.1);
            },
            Err(e) => {
                return Err(e);
            },
        }
        i = i + 1;
    }
    proof {
        assert(header_views(headers@) =~= section_table(
            class,
            data,
            bytes@,
            shoff as int,
            shnum as int,
        ));
        assert(name_idxs@ =~= name_indices(class, data, bytes@, shoff as int, shnum as int));
    }
    Ok((headers, name_idxs))
}

/// The bytes of a section of `size` bytes at `offset` in `s`. A section of
/// no bytes is empty wherever it lies.
pub open spec fn payload_of(s: Seq<u8>, offset: int, size: int) -> Seq<u8> {
    if size == 0 {
        Seq::empty()
    } else {
        s.subrange(offset, offset + size)
    }
}

/// Whether `s` ends before the last byte of a section of `size` bytes at
/// `offset`.
pub open spec fn payload_cut(s: Seq<u8>, offset: int, size: int) -> bool {
    size != 0 && offset + size > s.len()
}

/// Why loading the bytes of every section fails, if it does.
pub open spec fn payloads_failure(s: Seq<u8>, headers: Seq<SectionHeaderView>) -> Option<Error> {
    if exists|i: int|
        0 <= i < headers.len() && payload_cut(
            s,
            (#[trigger] headers[i]).offset as int,
            headers[i].size as int,
        ) {
        Some(Error::UnexpectedEof)
    } else {
        None
    }
}

/// The bytes of every section, index for index with `headers`.
pub open spec fn payloads_of(s: Seq<u8>, headers: Seq<SectionHeaderView>) -> Seq<Seq<u8>> {
    Seq::new(headers.len(), |i: int| payload_of(s, headers[i].offset as int, headers[i].size as int))
}

/// The payloads as plain values.
pub open spec fn payload_views(payloads: Seq<Vec<u8>>) -> Seq<Seq<u8>> {
    Seq::new(payloads.len(), |i: int| payloads[i]@)
}

/// Copies the bytes of every section out of `bytes`, index for index with
/// `headers`.
pub fn load_payloads(bytes: &[u8], headers: &Vec<SectionHeader>) -> (res: Result<
    Vec<Vec<u8>>,
    Error,
>)
    ensures
        match res {
            Ok(p) => payloads_failure(bytes@, header_views(headers@)) is None && payload_views(p@)
                == payloads_of(bytes@, header_views(headers@)) && p@.len() == headers@.len(),
            Err(e) => payloads_failure(bytes@, header_views(headers@)) == Some(e),
        },
{
    let mut payloads: Vec<Vec<u8>> = Vec::new();
    let mut r = Reader::new(bytes);
    let ghost views = header_views(headers@);
    let mut i: usize = 0;
    while i < headers.len()
        invariant
            i <= headers@.len(),
            views == header_views(headers@),
            r.bytes@ == bytes@,
            payloads@.len() == i,
            forall|j: int|
                0 <= j < i ==> !payload_cut(
                    bytes@,
                    (#[trigger] views[j]).offset as int,
                    views[j].size as int,
                ),
            forall|j: int|
                0 <= j < i ==> (#[trigger] payloads@[j])@ == payload_of(
                    bytes@,
                    views[j].offset as int,
                    views[j].size as int,
                ),
        decreases headers@.len() - i,
    {
        r.seek(headers[i].offset);
        match r.read_bytes(headers[i].size) {
            Ok(data) => {
                payloads.push(data);
            },
            Err(e) => {
                assert(payload_cut(bytes@, views[i as int].offset as int, views[i as int].size as int));
                return Err(e);
            },
        }
        i = i + 1;
    }
    proof {
        assert(payload_views(payloads@) =~= payloads_of(bytes@, views));
    }
    Ok(payloads)
}

} // verus!
