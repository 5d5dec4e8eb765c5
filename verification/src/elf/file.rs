//! A whole ELF file: its header, its sections by name, and its symbols by
//! name.

use crate::elf::header::{class_of, class_valid, data_of, has_magic, header_error, header_len};
use crate::elf::header::{header_of, parse_header, Header};
use crate::elf::reader::data_valid;
use crate::elf::section::{header_views, load_payloads, name_indices, parse_section_headers};
use crate::elf::section::{payload_cut, record_len};
use crate::elf::section::{payload_views, payloads_failure, payloads_of, section_table, table_failure};
use crate::elf::strtab::{elf_string, get_elf_string};
use crate::elf::symbol::{extract_symbols, is_symbol_table, string_table, symbol_count, symbol_len};
use crate::elf::symbol::{symbols_failure, symbols_upto};
use crate::elf::types::{Data, FileHeader, Machine, SectionHeader, SectionHeaderView};
use crate::elf::types::{EI_NIDENT, ELFDATA2LSB, ELFDATA2MSB, EM_386, EM_AARCH64, EM_ARM, EM_PPC, EM_PPC64, EM_X86_64};
use crate::namemap::{key_order, lemma_map_of_keys, lemma_map_of_last_wins, map_of, NameMap};
use crate::object::{ARMMode, ARMType, Arch, Endianness, Error, Object, Section, SectionView, Width};
use vstd::prelude::*;

verus! {

/// The part of the header that a parsed file keeps.
pub open spec fn file_header(h: Header) -> FileHeader {
    FileHeader {
        class: h.class,
        data: h.data,
        version: h.version,
        os_abi: h.os_abi,
        abi_version: h.abi_version,
        elf_type: h.elf_type,
        machine: h.machine,
        entrypoint: h.entry,
    }
}

/// The name of each section: what `strtab` holds at the section's name
/// index.
pub open spec fn section_names(idxs: Seq<u32>, strtab: Seq<u8>) -> Seq<Seq<char>> {
    Seq::new(idxs.len(), |i: int| elf_string(strtab, idxs[i] as int))
}

/// Each section under its name, in table order.
pub open spec fn section_pairs(
    headers: Seq<SectionHeaderView>,
    names: Seq<Seq<char>>,
    payloads: Seq<Seq<u8>>,
) -> Seq<(Seq<char>, SectionView)> {
    Seq::new(
        headers.len(),
        |i: int|
            (
                names[i],
                SectionView {
                    name: names[i],
                    addr: headers[i].addr,
                    offset: headers[i].offset,
                    size: headers[i].size,
                    data: payloads[i],
                },
            ),
    )
}

/// The sections of a map as plain values.
pub open spec fn section_views(m: Map<Seq<char>, Section>) -> Map<Seq<char>, SectionView> {
    m.map_values(|s: Section| s@)
}

/// The names as plain values.
pub open spec fn name_views(names: Seq<String>) -> Seq<Seq<char>> {
    Seq::new(names.len(), |i: int| names[i]@)
}

/// Resolves the name of each section in the section-name string table:
/// the bytes of the section with the index `shstrndx`. Where there is no
/// such section, every name is empty.
pub fn resolve_section_names(name_idxs: &Vec<u32>, payloads: &Vec<Vec<u8>>, shstrndx: u16) -> (names:
    Vec<String>)
    ensures
        names@.len() == name_idxs@.len(),
        name_views(names@) == section_names(
            name_idxs@,
            string_table(payload_views(payloads@), shstrndx as int),
        ),
{
    let none: Vec<u8> = Vec::new();
    let at: usize = shstrndx as usize;
    let strtab: &Vec<u8> = if at < payloads.len() {
        &payloads[at]
    } else {
        &none
    };
    assert(strtab@ =~= string_table(payload_views(payloads@), shstrndx as int));
    let mut names: Vec<String> = Vec::new();
    let mut i: usize = 0;
    while i < name_idxs.len()
        invariant
            i <= name_idxs@.len(),
            names@.len() == i,
            forall|j: int|
                0 <= j < i ==> (#[trigger] names@[j])@ == elf_string(strtab@, name_idxs@[j] as int),
        decreases name_idxs@.len() - i,
    {
        names.push(get_elf_string(strtab, name_idxs[i] as usize));
        i = i + 1;
    }
    assert(name_views(names@) =~= section_names(name_idxs@, strtab@));
    names
}

/// Puts each section under its name, in table order: of two sections
/// with one name the later stays.
pub fn assemble_sections(headers: &Vec<SectionHeader>, names: &Vec<String>, payloads: Vec<Vec<u8>>) -> (m:
    NameMap<Section>)
    requires
        names@.len() == headers@.len(),
        payloads@.len() == headers@.len(),
    ensures
        m.wf(),
        section_views(m@) == map_of(
            section_pairs(header_views(headers@), name_views(names@), payload_views(payloads@)),
        ),
        m.names() == key_order(
            section_pairs(header_views(headers@), name_views(names@), payload_views(payloads@)),
        ),
{
    let mut m: NameMap<Section> = NameMap::new();
    let ghost pairs = section_pairs(
        header_views(headers@),
        name_views(names@),
        payload_views(payloads@),
    );
    let n: usize = headers.len();
    let mut i: usize = 0;
    assert(section_views(m@) =~= map_of(pairs.take(0)));
    for data in it: payloads
        invariant
            i == it.index(),
            n == headers@.len(),
            names@.len() == headers@.len(),
            payloads@.len() == headers@.len(),
            pairs == section_pairs(
                header_views(headers@),
                name_views(names@),
                payload_views(payloads@),
            ),
            m.wf(),
            section_views(m@) == map_of(pairs.take(i as int)),
            m.names() == key_order(pairs.take(i as int)),
    {
        let hdr = &headers[i];
        let name = names[i].clone();
        let section = Section {
            name: names[i].clone(),
            addr: hdr.addr,
            offset: hdr.offset,
            size: hdr.size,
            data,
        };
        proof {
            assert(pairs.take(i + 1).drop_last() =~= pairs.take(i as int));
            assert(pairs.take(i + 1).last() == pairs[i as int]);
            assert(section@ == pairs[i as int].1);
            assert(section_views(m@.insert(name@, section)) =~= section_views(m@).insert(
                name@,
                section@,
            ));
        }
        m.insert(name, section);
        i = i + 1;
    }
    assert(pairs.take(pairs.len() as int) =~= pairs);
    m
}

/// The section headers that `s` encodes, in table order.
pub open spec fn headers_in(s: Seq<u8>) -> Seq<SectionHeaderView> {
    let h = header_of(s);
    section_table(h.class, h.data, s, h.shoff as int, h.shnum as int)
}

/// The bytes of each section of `s`, in table order.
pub open spec fn payloads_in(s: Seq<u8>) -> Seq<Seq<u8>> {
    payloads_of(s, headers_in(s))
}

/// The name of each section of `s`, in table order.
pub open spec fn names_in(s: Seq<u8>) -> Seq<Seq<char>> {
    let h = header_of(s);
    section_names(
        name_indices(h.class, h.data, s, h.shoff as int, h.shnum as int),
        string_table(payloads_in(s), h.shstrndx as int),
    )
}

/// Why parsing `s` fails, if it does: the first failure among the header,
/// the section header table, the sections' bytes, and the symbol tables.
pub open spec fn parse_failure(s: Seq<u8>) -> Option<Error> {
    let h = header_of(s);
    if header_error(s) is Some {
        header_error(s)
    } else if table_failure(h.class, h.data, s, h.shoff as int, h.shnum as int) is Some {
        table_failure(h.class, h.data, s, h.shoff as int, h.shnum as int)
    } else if payloads_failure(s, headers_in(s)) is Some {
        payloads_failure(s, headers_in(s))
    } else {
        symbols_failure(h.class, h.data, headers_in(s), payloads_in(s), h.shnum as int)
    }
}

/// The sections of `s` by name: of two sections with one name the later
/// in the table stays.
pub open spec fn sections_of(s: Seq<u8>) -> Map<Seq<char>, SectionView> {
    map_of(section_pairs(headers_in(s), names_in(s), payloads_in(s)))
}

/// The symbols of `s` in the order in which they are decoded.
pub open spec fn symbol_list(s: Seq<u8>) -> Seq<(Seq<char>, u64)> {
    let h = header_of(s);
    symbols_upto(h.class, h.data, headers_in(s), payloads_in(s), h.shnum as int)
}

/// The address of each symbol of `s` by name: of two symbols with one name
/// the one decoded later stays.
pub open spec fn symbols_of(s: Seq<u8>) -> Map<Seq<char>, u64> {
    map_of(symbol_list(s))
}

/// The architecture that a machine identifier and a byte order stand for.
/// An unknown byte order or machine gives `Arch::Unknown`.
pub open spec fn arch_for(machine: Machine, data: Data) -> Arch {
    let endian = if data.0 == ELFDATA2LSB {
        Endianness::Little
    } else {
        Endianness::Big
    };
    if data.0 != ELFDATA2LSB && data.0 != ELFDATA2MSB {
        Arch::Unknown
    } else if machine.0 == EM_386 {
        Arch::X86(Width::W32)
    } else if machine.0 == EM_X86_64 {
        Arch::X86(Width::W64)
    } else if machine.0 == EM_PPC {
        Arch::PPC(Width::W32, endian)
    } else if machine.0 == EM_PPC64 {
        Arch::PPC(Width::W64, endian)
    } else if machine.0 == EM_ARM {
        Arch::ARM(Width::W32, endian, ARMMode::ARM, ARMType::ARM)
    } else if machine.0 == EM_AARCH64 {
        Arch::ARM(Width::W64, endian, ARMMode::ARM, ARMType::ARM)
    } else {
        Arch::Unknown
    }
}

/// A parsed ELF file.
pub struct File {
    pub hdr: FileHeader,
    pub sections: NameMap<Section>,
    pub symbols: NameMap<u64>,
}

impl File {
    /// Whether both maps are well formed, as they are in every file that
    /// `parse` returns.
    pub open spec fn valid(&self) -> bool {
        self.sections.wf() && self.symbols.wf()
    }

    /// Parses the ELF file that `bytes` holds: the header, the section
    /// header table, the bytes of each section, the symbols of every
    /// symbol table, and the section names, in this order.
    pub fn parse(bytes: &[u8]) -> (res: Result<File, Error>)
        ensures
            match res {
                Ok(f) => parse_failure(bytes@) is None && f.valid() && f.hdr == file_header(
                    header_of(bytes@),
                ) && section_views(f.sections@) == sections_of(bytes@) && f.symbols@ == symbols_of(
                    bytes@,
                ) && f.sections.names() == key_order(
                    section_pairs(headers_in(bytes@), names_in(bytes@), payloads_in(bytes@)),
                ) && f.symbols.names() == key_order(symbol_list(bytes@)),
                Err(e) => parse_failure(bytes@) == Some(e),
            },
    {
        let h = parse_header(bytes)?;
        let table = parse_section_headers(bytes, h.class, h.data, h.shoff, h.shnum)?;
        let headers = table.0;
        let name_idxs = table.1;
        let payloads = load_payloads(bytes, &headers)?;
        let symbols = NameMap::from_pairs(extract_symbols(h.class, h.data, &headers, &payloads)?);
        let names = resolve_section_names(&name_idxs, &payloads, h.shstrndx);
        let sections = assemble_sections(&headers, &names, payloads);
        Ok(
            File {
                hdr: FileHeader {
                    class: h.class,
                    data: h.data,
                    version: h.version,
                    os_abi: h.os_abi,
                    abi_version: h.abi_version,
                    elf_type: h.elf_type,
                    machine: h.machine,
                    entrypoint: h.entry,
                },
                sections,
                symbols,
            },
        )
    }

    /// The sections by name.
    pub fn sections(&self) -> (m: &NameMap<Section>)
        ensures
            *m == self.sections,
    {
        &self.sections
    }

    /// The address of each symbol by name.
    pub fn symbols(&self) -> (m: &NameMap<u64>)
        ensures
            *m == self.symbols,
    {
        &self.symbols
    }
}

impl Object for File {
    open spec fn wf(&self) -> bool {
        self.valid()
    }

    open spec fn section_map(&self) -> Map<Seq<char>, SectionView> {
        section_views(self.sections@)
    }

    fn arch(&self) -> (a: Arch)
        ensures
            a == arch_for(self.hdr.machine, self.hdr.data),
    {
        let data: u8 = self.hdr.data.0;
        let machine: u16 = self.hdr.machine.0;
        let endian = if data == ELFDATA2LSB {
            Endianness::Little
        } else if data == ELFDATA2MSB {
            Endianness::Big
        } else {
            return Arch::Unknown;
        };
        if machine == EM_386 {
            Arch::X86(Width::W32)
        } else if machine == EM_X86_64 {
            Arch::X86(Width::W64)
        } else if machine == EM_PPC {
            Arch::PPC(Width::W32, endian)
        } else if machine == EM_PPC64 {
            Arch::PPC(Width::W64, endian)
        } else if machine == EM_ARM {
            Arch::ARM(Width::W32, endian, ARMMode::ARM, ARMType::ARM)
        } else if machine == EM_AARCH64 {
            Arch::ARM(Width::W64, endian, ARMMode::ARM, ARMType::ARM)
        } else {
            Arch::Unknown
        }
    }

    fn get_section(&self, name: &str) -> (res: Option<&Section>) {
        self.sections.get(name)
    }
}

/// An input that does not begin with the magic bytes fails with
/// `InvalidMagic`, whatever else it holds.
pub proof fn lemma_magic_is_judged_first(s: Seq<u8>)
    requires
        !has_magic(s),
    ensures
        parse_failure(s) == Some(Error::InvalidMagic),
{
}

/// An input that begins with the magic bytes and ends within the file
/// header fails with `UnexpectedEof`, where its byte order and its class
/// are known ones.
pub proof fn lemma_truncated_header_is_rejected(s: Seq<u8>)
    requires
        has_magic(s),
        s.len() < EI_NIDENT || (data_valid(data_of(s)) && (s.len() < 24 || (class_valid(class_of(s))
            && s.len() < header_len(class_of(s))))),
    ensures
        parse_failure(s) == Some(Error::UnexpectedEof),
{
}

/// An input whose class byte names neither layout fails with
/// `InvalidClass`, where it begins with the magic bytes, names a byte
/// order, and holds the three fields of fixed width.
pub proof fn lemma_unknown_class_is_rejected(s: Seq<u8>)
    requires
        has_magic(s),
        s.len() >= 24,
        data_valid(data_of(s)),
        !class_valid(class_of(s)),
    ensures
        parse_failure(s) == Some(Error::InvalidClass),
{
}

/// An input with an unknown byte order fails with `InvalidEndianness`,
/// where it begins with the magic bytes and holds the identification
/// block.
pub proof fn lemma_unknown_byte_order_is_rejected(s: Seq<u8>)
    requires
        has_magic(s),
        s.len() >= EI_NIDENT,
        !data_valid(data_of(s)),
    ensures
        parse_failure(s) == Some(Error::InvalidEndianness),
{
}

/// Of the sections that share a name the last in the table stays: under
/// the name of section `i` the map holds section `i`, where no later
/// section has that name.
pub proof fn lemma_later_section_wins(s: Seq<u8>, i: int)
    requires
        0 <= i < header_of(s).shnum,
        forall|j: int| i < j < header_of(s).shnum ==> names_in(s)[j] != names_in(s)[i],
    ensures
        sections_of(s).contains_key(names_in(s)[i]),
        sections_of(s)[names_in(s)[i]] == (SectionView {
            name: names_in(s)[i],
            addr: headers_in(s)[i].addr,
            offset: headers_in(s)[i].offset,
            size: headers_in(s)[i].size,
            data: payloads_in(s)[i],
        }),
{
    let pairs = section_pairs(headers_in(s), names_in(s), payloads_in(s));
    assert forall|j: int| i < j < pairs.len() implies (#[trigger] pairs[j]).0 != pairs[i].0 by {
        assert(names_in(s)[j] != names_in(s)[i]);
    }
    lemma_map_of_last_wins(pairs, i);
}

/// The map of sections holds the names of the table's sections and no
/// other name.
pub proof fn lemma_section_names_are_the_keys(s: Seq<u8>, name: Seq<char>)
    ensures
        sections_of(s).contains_key(name) <==> exists|i: int|
            0 <= i < header_of(s).shnum && #[trigger] names_in(s)[i] == name,
{
    let pairs = section_pairs(headers_in(s), names_in(s), payloads_in(s));
    lemma_map_of_keys(pairs, name);
    if sections_of(s).contains_key(name) {
        let i = choose|i: int| 0 <= i < pairs.len() && (#[trigger] pairs[i]).0 == name;
        assert(names_in(s)[i] == name);
    }
    if exists|i: int| 0 <= i < header_of(s).shnum && #[trigger] names_in(s)[i] == name {
        let i = choose|i: int| 0 <= i < header_of(s).shnum && #[trigger] names_in(s)[i] == name;
        assert(pairs[i].0 == name);
    }
}

/// Of the symbols that share a name the one decoded last stays: under the
/// name of symbol `i` the map holds its address, where no later symbol has
/// that name.
pub proof fn lemma_later_symbol_wins(s: Seq<u8>, i: int)
    requires
        0 <= i < symbol_list(s).len(),
        forall|j: int|
            i < j < symbol_list(s).len() ==> (#[trigger] symbol_list(s)[j]).0 != symbol_list(s)[i].0,
    ensures
        symbols_of(s).contains_key(symbol_list(s)[i].0),
        symbols_of(s)[symbol_list(s)[i].0] == symbol_list(s)[i].1,
{
    lemma_map_of_last_wins(symbol_list(s), i);
}

/// Whether `s` is whole: its header can be decoded, the section header
/// table and the bytes of every section lie within it, and the records of
/// every symbol table are as long as the fields that are read of them.
pub open spec fn whole(s: Seq<u8>) -> bool {
    let h = header_of(s);
    &&& header_error(s) is None
    &&& h.shnum > 0 ==> h.shoff + h.shnum * record_len(h.class) <= s.len()
    &&& forall|i: int|
        0 <= i < h.shnum ==> !payload_cut(
            s,
            (#[trigger] headers_in(s)[i]).offset as int,
            headers_in(s)[i].size as int,
        )
    &&& forall|i: int|
        0 <= i < h.shnum && is_symbol_table(#[trigger] headers_in(s)[i]) ==> headers_in(s)[i].entsize
            >= symbol_len(h.class)
}

/// Every whole input parses.
pub proof fn lemma_whole_input_parses(s: Seq<u8>)
    requires
        whole(s),
    ensures
        parse_failure(s) is None,
{
    let h = header_of(s);
    let rl = record_len(h.class);
    if h.shnum > 0 {
        assert(rl <= h.shnum * rl) by (nonlinear_arith)
            requires
                h.shnum >= 1,
                rl >= 0,
        ;
    }
    lemma_whole_symbol_tables_decode(s, h.shnum as int);
}

/// The symbol tables among the first `n` sections of a whole input can be
/// decoded.
proof fn lemma_whole_symbol_tables_decode(s: Seq<u8>, n: int)
    requires
        whole(s),
        0 <= n <= header_of(s).shnum,
    ensures
        symbols_failure(header_of(s).class, header_of(s).data, headers_in(s), payloads_in(s), n)
            is None,
    decreases n,
{
    if n > 0 {
        lemma_whole_symbol_tables_decode(s, n - 1);
        let h = header_of(s);
        let t = headers_in(s)[n - 1];
        if is_symbol_table(t) {
            let count = symbol_count(t.size as int, t.entsize as int);
            if count > 0 {
                assert(!payload_cut(s, t.offset as int, t.size as int));
                assert(payloads_in(s)[n - 1].len() == t.size);
                assert((count - 1) * t.entsize + t.entsize <= t.size) by (nonlinear_arith)
                    requires
                        t.entsize > 0,
                        count == (t.size as int) / (t.entsize as int),
                ;
                assert((count - 1) * t.entsize >= 0) by (nonlinear_arith)
                    requires
                        count >= 1,
                        t.entsize > 0,
                ;
            }
        }
    }
}

} // verus!
