//! Symbol tables: sections that hold one fixed-size record per symbol.

use crate::elf::header::class_valid;
use crate::elf::reader::{read_failure, u32_at, u64_at, Reader};
use crate::elf::strtab::{elf_string, get_elf_string};
use crate::elf::section::{header_views, payload_views};
use crate::elf::types::{Class, Data, SectionHeader, SectionHeaderView};
use crate::elf::types::{ELFCLASS32, ELFCLASS64, SHT_SYMTAB};
use crate::namemap::named;
use crate::object::Error;
use vstd::prelude::*;

verus! {

/// Number of bytes that are read of one symbol record in the layout
/// `class`.
pub open spec fn symbol_len(class: Class) -> int {
    if class.0 == ELFCLASS32 {
        8
    } else {
        16
    }
}

/// The place in the string table that the record of `s` at `pos` gives for
/// its name.
pub open spec fn symbol_name_index(data: Data, s: Seq<u8>, pos: int) -> u32 {
    u32_at(data, s, pos) as u32
}

/// The address of the symbol whose record stands in `s` at `pos`, widened
/// to 64 bits.
pub open spec fn symbol_value(class: Class, data: Data, s: Seq<u8>, pos: int) -> u64 {
    if class.0 == ELFCLASS32 {
        u32_at(data, s, pos + 4) as u64
    } else {
        u64_at(data, s, pos + 8) as u64
    }
}

/// Why decoding the symbol record of `s` at `pos` fails, if it does.
pub open spec fn symbol_failure(class: Class, data: Data, s: Seq<u8>, pos: int) -> Option<Error> {
    if !class_valid(class) {
        Some(Error::InvalidClass)
    } else {
        read_failure(data, s, pos, symbol_len(class))
    }
}

/// Decodes the symbol record at the reader's position: the index of the
/// symbol's name and its address.
pub fn read_symbol(r: &mut Reader, class: Class, data: Data) -> (res: Result<(u32, u64), Error>)
    ensures
        final(r).bytes@ == old(r).bytes@,
        match res {
            Ok(sym) => symbol_failure(class, data, old(r).bytes@, old(r).pos as int) is None
                && sym.0 == symbol_name_index(data, old(r).bytes@, old(r).pos as int) && sym.1
                == symbol_value(class, data, old(r).bytes@, old(r).pos as int) && final(r).pos
                == old(r).pos + symbol_len(class),
            Err(e) => symbol_failure(class, data, old(r).bytes@, old(r).pos as int) == Some(e),
        },
{
    if class.0 == ELFCLASS32 {
        let name: u32 = r.read_u32(data)?;
        let addr: u32 = r.read_u32(data)?;
        Ok((name, addr as u64))
    } else if class.0 == ELFCLASS64 {
        let name: u32 = r.read_u32(data)?;
        let _info: u8 = r.read_u8()?;
        let _other: u8 = r.read_u8()?;
        let _shndx: u16 = r.read_u16(data)?;
        let addr: u64 = r.read_u64(data)?;
        Ok((name, addr))
    } else {
        Err(Error::InvalidClass)
    }
}

/// Number of records in a symbol table of `size` bytes whose records take
/// `entsize` bytes each. A table that declares records of no bytes holds
/// none.
pub open spec fn symbol_count(size: int, entsize: int) -> int {
    if entsize <= 0 {
        0
    } else {
        size / entsize
    }
}

/// Why decoding the records of a symbol table fails, if it does. The
/// records are read at multiples of `entsize`, so the last one reaches
/// furthest.
pub open spec fn table_symbols_failure(
    class: Class,
    data: Data,
    size: int,
    entsize: int,
    payload: Seq<u8>,
) -> Option<Error> {
    let n = symbol_count(size, entsize);
    if n <= 0 {
        None
    } else if symbol_failure(class, data, payload, 0) is Some {
        symbol_failure(class, data, payload, 0)
    } else if (n - 1) * entsize + symbol_len(class) > payload.len() {
        Some(Error::UnexpectedEof)
    } else {
        None
    }
}

/// The symbols of one table in record order, each with the name that
/// `strtab` holds for it.
pub open spec fn table_symbols(
    class: Class,
    data: Data,
    size: int,
    entsize: int,
    payload: Seq<u8>,
    strtab: Seq<u8>,
) -> Seq<(Seq<char>, u64)> {
    Seq::new(
        symbol_count(size, entsize) as nat,
        |k: int|
            (
                elf_string(strtab, symbol_name_index(data, payload, k * entsize) as int),
                symbol_value(class, data, payload, k * entsize),
            ),
    )
}

/// Decodes every record of a symbol table of `size` bytes with records of
/// `entsize` bytes, out of its bytes `payload`, and resolves each name in
/// `strtab`.
pub fn read_table_symbols(
    class: Class,
    data: Data,
    size: u64,
    entsize: u64,
    payload: &[u8],
    strtab: &Vec<u8>,
) -> (res: Result<Vec<(String, u64)>, Error>)
    ensures
        match res {
            Ok(syms) => table_symbols_failure(class, data, size as int, entsize as int, payload@)
                is None && named(syms@) == table_symbols(
                class,
                data,
                size as int,
                entsize as int,
                payload@,
                strtab@,
            ) && syms@.len() == symbol_count(size as int, entsize as int),
            Err(e) => table_symbols_failure(class, data, size as int, entsize as int, payload@)
                == Some(e),
        },
{
    let mut syms: Vec<(String, u64)> = Vec::new();
    if entsize == 0 {
        assert(named(syms@) =~= table_symbols(
            class,
            data,
            size as int,
            entsize as int,
            payload@,
            strtab@,
        ));
        return Ok(syms);
    }
    let n: u64 = size / entsize;
    assert(n * entsize <= size) by (nonlinear_arith)
        requires
            entsize > 0,
            n == size / entsize,
    ;
    let mut r = Reader::new(payload);
    let mut k: u64 = 0;
    while k < n
        invariant
            k <= n,
            entsize > 0,
            n == symbol_count(size as int, entsize as int),
            n * entsize <= size,
            r.bytes@ == payload@,
            k > 0 ==> symbol_failure(class, data, payload@, 0) is None,
            k > 0 ==> (k - 1) * entsize + symbol_len(class) <= payload@.len(),
            syms@.len() == k,
            forall|j: int|
                0 <= j < k ==> (#[trigger] syms@[j]).0@ == elf_string(
                    strtab@,
                    symbol_name_index(data, payload@, j * entsize) as int,
                ),
            forall|j: int|
                0 <= j < k ==> (#[trigger] syms@[j]).1 == symbol_value(
                    class,
                    data,
                    payload@,
                    j * entsize,
                ),
        decreases n - k,
    {
        proof {
            assert(k * entsize <= (n - 1) * entsize) by (nonlinear_arith)
                requires
                    k <= n - 1,
                    entsize > 0,
            ;
            assert((n - 1) * entsize <= n * entsize) by (nonlinear_arith)
                requires
                    entsize > 0,
            ;
            assert(k * entsize >= 0) by (nonlinear_arith)
                requires
                    k >= 0,
                    entsize > 0,
            ;
        }
        r.seek(k * entsize);
        match read_symbol(&mut r, class, data) {
            Ok(sym) => {
                let name = get_elf_string(strtab, sym.0 as usize);
                syms.push((name, sym.1));
            },
            Err(e) => {
                return Err(e);
            },
        }
        k = k + 1;
    }
    proof {
        assert(named(syms@) =~= table_symbols(
            class,
            data,
            size as int,
            entsize as int,
            payload@,
            strtab@,
        ));
    }
    Ok(syms)
}

/// The string table that a symbol table names by `link`: the bytes of the
/// section with that index, or no bytes where there is no such section.
pub open spec fn string_table(payloads: Seq<Seq<u8>>, link: int) -> Seq<u8> {
    if 0 <= link < payloads.len() {
        payloads[link]
    } else {
        Seq::empty()
    }
}

/// Whether a section with this header is a symbol table.
pub open spec fn is_symbol_table(h: SectionHeaderView) -> bool {
    h.shtype.0 == SHT_SYMTAB
}

/// Why decoding the symbol tables among the first `n` sections fails, if
/// it does: the failure of the first table that fails.
pub open spec fn symbols_failure(
    class: Class,
    data: Data,
    headers: Seq<SectionHeaderView>,
    payloads: Seq<Seq<u8>>,
    n: int,
) -> Option<Error>
    decreases n,
{
    if n <= 0 {
        None
    } else if symbols_failure(class, data, headers, payloads, n - 1) is Some {
        symbols_failure(class, data, headers, payloads, n - 1)
    } else if is_symbol_table(headers[n - 1]) {
        table_symbols_failure(
            class,
            data,
            headers[n - 1].size as int,
            headers[n - 1].entsize as int,
            payloads[n - 1],
        )
    } else {
        None
    }
}

/// The symbols of the symbol tables among the first `n` sections, in
/// section order and then record order.
pub open spec fn symbols_upto(
    class: Class,
    data: Data,
    headers: Seq<SectionHeaderView>,
    payloads: Seq<Seq<u8>>,
    n: int,
) -> Seq<(Seq<char>, u64)>
    decreases n,
{
    if n <= 0 {
        Seq::empty()
    } else if is_symbol_table(headers[n - 1]) {
        symbols_upto(class, data, headers, payloads, n - 1) + table_symbols(
            class,
            data,
            headers[n - 1].size as int,
            headers[n - 1].entsize as int,
            payloads[n - 1],
            string_table(payloads, headers[n - 1].link as int),
        )
    } else {
        symbols_upto(class, data, headers, payloads, n - 1)
    }
}

/// Decodes the records of every symbol table among the sections, in
/// section order and then record order. Each table's names are resolved in
/// the section that its link field names.
pub fn extract_symbols(
    class: Class,
    data: Data,
    headers: &Vec<SectionHeader>,
    payloads: &Vec<Vec<u8>>,
) -> (res: Result<Vec<(String, u64)>, Error>)
    requires
        headers@.len() == payloads@.len(),
    ensures
        match res {
            Ok(syms) => symbols_failure(
                class,
                data,
                header_views(headers@),
                payload_views(payloads@),
                headers@.len() as int,
            ) is None && named(syms@) == symbols_upto(
                class,
                data,
                header_views(headers@),
                payload_views(payloads@),
                headers@.len() as int,
            ),
            Err(e) => symbols_failure(
                class,
                data,
                header_views(headers@),
                payload_views(payloads@),
                headers@.len() as int,
            ) == Some(e),
        },
{
    let mut all: Vec<(String, u64)> = Vec::new();
    let none: Vec<u8> = Vec::new();
    let ghost hs = header_views(headers@);
    let ghost ps = payload_views(payloads@);
    let mut i: usize = 0;
    assert(named(all@) =~= symbols_upto(class, data, hs, ps, 0));
    while i < headers.len()
        invariant
            i <= headers@.len(),
            headers@.len() == payloads@.len(),
            hs == header_views(headers@),
            ps == payload_views(payloads@),
            none@.len() == 0,
            symbols_failure(class, data, hs, ps, i as int) is None,
            named(all@) == symbols_upto(class, data, hs, ps, i as int),
        ensures
            i == headers@.len(),
            symbols_failure(class, data, hs, ps, i as int) is None,
            named(all@) == symbols_upto(class, data, hs, ps, i as int),
        decreases headers@.len() - i,
    {
        let section = &headers[i];
        if section.shtype.0 == SHT_SYMTAB {
            let link: usize = section.link as usize;
            let strtab: &Vec<u8> = if link < payloads.len() {
                &payloads[link]
            } else {
                &none
            };
            assert(strtab@ =~= string_table(ps, hs[i as int].link as int));
            match read_table_symbols(
                class,
                data,
                section.size,
                section.entsize,
                payloads[i].as_slice(),
                strtab,
            ) {
                Ok(syms) => {
                    let mut syms = syms;
                    let ghost before = all@;
                    let ghost added = syms@;
                    all.append(&mut syms);
                    assert(named(all@) =~= named(before) + named(added));
                },
                Err(e) => {
                    proof {
                        lemma_symbols_failure_stays(class, data, hs, ps, i + 1, headers@.len() as int);
                    }
                    return Err(e);
                },
            }
        }
        i = i + 1;
    }
    Ok(all)
}

/// Once a symbol table among the first `n` sections fails, that failure
/// stands however many sections follow.
pub proof fn lemma_symbols_failure_stays(
    class: Class,
    data: Data,
    headers: Seq<SectionHeaderView>,
    payloads: Seq<Seq<u8>>,
    n: int,
    m: int,
)
    requires
        0 <= n <= m,
        symbols_failure(class, data, headers, payloads, n) is Some,
    ensures
        symbols_failure(class, data, headers, payloads, m) == symbols_failure(
            class,
            data,
            headers,
            payloads,
            n,
        ),
    decreases m - n,
{
    if n < m {
        lemma_symbols_failure_stays(class, data, headers, payloads, n, m - 1);
    }
}

} // verus!
