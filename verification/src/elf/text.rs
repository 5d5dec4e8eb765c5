//! A parsed file as text, for people to read.

use crate::elf::file::{name_views, section_views, File};
use crate::elf::types::FileHeader;
use crate::namemap::NameMap;
use crate::object::{Section, SectionView};
use vstd::prelude::*;
use vstd::string::StringExecFns;

verus! {

/// The character of the hexadecimal digit `d`, in lower case.
pub open spec fn hex_digit(d: int) -> char {
    if d < 10 {
        (48 + d) as u8 as char
    } else {
        (87 + d) as u8 as char
    }
}

/// The hexadecimal digits of `v`, most significant first, without leading
/// zeros.
pub open spec fn hex_digits(v: nat) -> Seq<char>
    decreases v,
{
    if v < 16 {
        seq![hex_digit(v as int)]
    } else {
        hex_digits(v / 16).push(hex_digit((v % 16) as int))
    }
}

/// `v` in hexadecimal after the prefix `0x`.
pub open spec fn hex_text(v: nat) -> Seq<char> {
    seq!['0', 'x'] + hex_digits(v)
}

/// The character of the hexadecimal digit `d`.
fn hex_char(d: u8) -> (c: char)
    requires
        d < 16,
    ensures
        c == hex_digit(d as int),
{
    if d < 10 {
        (48 + d) as char
    } else {
        (87 + d) as char
    }
}

/// Appends the hexadecimal digits of `v` to `text`.
fn push_hex_digits(text: &mut String, v: u64)
    ensures
        final(text)@ == old(text)@ + hex_digits(v as nat),
    decreases v,
{
    if v >= 16 {
        push_hex_digits(text, v / 16);
    }
    text.push(hex_char((v % 16) as u8));
}

/// `v` in hexadecimal after the prefix `0x`.
pub fn hex(v: u64) -> (text: String)
    ensures
        text@ == hex_text(v as nat),
{
    let mut text = String::new();
    text.push('0');
    text.push('x');
    assert(text@ =~= seq!['0', 'x']);
    push_hex_digits(&mut text, v);
    text
}

/// Whether `a` comes before `b` or equals it, in the order of a dictionary
/// over code points.
pub open spec fn name_le(a: Seq<char>, b: Seq<char>) -> bool
    decreases a.len(),
{
    if a.len() == 0 {
        true
    } else if b.len() == 0 {
        false
    } else if a[0] != b[0] {
        (a[0] as u32) < (b[0] as u32)
    } else {
        name_le(a.skip(1), b.skip(1))
    }
}

/// Whether the names stand in ascending order.
pub open spec fn names_sorted(names: Seq<Seq<char>>) -> bool {
    forall|i: int, j: int| 0 <= i < j < names.len() ==> name_le(names[i], names[j])
}

/// Whether `order` holds the names of `names`, each as often, in ascending
/// order.
pub open spec fn sorted_order_of(order: Seq<Seq<char>>, names: Seq<Seq<char>>) -> bool {
    names_sorted(order) && order.to_multiset() == names.to_multiset()
}

/// The names of `names` in ascending order.
pub open spec fn sorted_names(names: Seq<Seq<char>>) -> Seq<Seq<char>> {
    choose|order: Seq<Seq<char>>| sorted_order_of(order, names)
}

/// Every name comes before itself or equals it.
pub proof fn lemma_name_le_reflexive(a: Seq<char>)
    ensures
        name_le(a, a),
    decreases a.len(),
{
    if a.len() > 0 {
        lemma_name_le_reflexive(a.skip(1));
    }
}

/// Two names that each come before the other are one name.
pub proof fn lemma_name_le_antisymmetric(a: Seq<char>, b: Seq<char>)
    requires
        name_le(a, b),
        name_le(b, a),
    ensures
        a == b,
    decreases a.len(),
{
    if a.len() > 0 {
        lemma_name_le_antisymmetric(a.skip(1), b.skip(1));
        assert(a =~= seq![a[0]] + a.skip(1));
        assert(b =~= seq![b[0]] + b.skip(1));
    } else {
        assert(a =~= b);
    }
}

/// A name that comes before a second, which comes before a third, comes
/// before the third.
pub proof fn lemma_name_le_transitive(a: Seq<char>, b: Seq<char>, c: Seq<char>)
    requires
        name_le(a, b),
        name_le(b, c),
    ensures
        name_le(a, c),
    decreases a.len(),
{
    if a.len() > 0 && a[0] == b[0] && b[0] == c[0] {
        lemma_name_le_transitive(a.skip(1), b.skip(1), c.skip(1));
    }
}

/// Of two names one comes before the other.
pub proof fn lemma_name_le_total(a: Seq<char>, b: Seq<char>)
    ensures
        name_le(a, b) || name_le(b, a),
    decreases a.len(),
{
    if a.len() == 0 {
        assert(name_le(a, b));
    } else if b.len() == 0 {
        assert(name_le(b, a));
    } else if a[0] == b[0] {
        lemma_name_le_total(a.skip(1), b.skip(1));
    } else {
        lemma_chars_ordered(a[0], b[0]);
    }
}

/// Of two different characters one has the smaller code point.
proof fn lemma_chars_ordered(c: char, d: char)
    requires
        c != d,
    ensures
        (c as u32) < (d as u32) || (d as u32) < (c as u32),
{
}

/// Names have one ascending order only.
pub proof fn lemma_sorted_order_unique(a: Seq<Seq<char>>, b: Seq<Seq<char>>, names: Seq<Seq<char>>)
    requires
        sorted_order_of(a, names),
        sorted_order_of(b, names),
    ensures
        a == b,
{
    let leq = |x: Seq<char>, y: Seq<char>| name_le(x, y);
    assert forall|x: Seq<char>| #[trigger] leq(x, x) by {
        lemma_name_le_reflexive(x);
    }
    assert forall|x: Seq<char>, y: Seq<char>| #[trigger] leq(x, y) && #[trigger] leq(y, x) implies x
        == y by {
        lemma_name_le_antisymmetric(x, y);
    }
    assert forall|x: Seq<char>, y: Seq<char>, z: Seq<char>| #[trigger]
        leq(x, y) && #[trigger] leq(y, z) implies leq(x, z) by {
        lemma_name_le_transitive(x, y, z);
    }
    assert forall|x: Seq<char>, y: Seq<char>| #[trigger] leq(x, y) || #[trigger] leq(y, x) by {
        lemma_name_le_total(x, y);
    }
    assert(vstd::relations::sorted_by(a, leq));
    assert(vstd::relations::sorted_by(b, leq));
    vstd::seq_lib::lemma_sorted_unique(a, b, leq);
}

/// Calls `sort` of std on the vector's slice. It reorders the strings into
/// ascending order and neither adds nor drops one; std orders strings by
/// their bytes, which is the order of their code points.
#[verifier::external_body]
fn sort_names(names: &mut Vec<String>)
    ensures
        sorted_order_of(name_views(final(names)@), name_views(old(names)@)),
{
    names.sort();
}

/// One field of the header summary: a label, a number in hexadecimal,
/// and the end of the line.
pub open spec fn field_text(label: Seq<char>, v: nat) -> Seq<char> {
    label + hex_text(v) + "\n"@
}

/// The summary of the header, one field to a line.
pub open spec fn header_text(h: FileHeader) -> Seq<char> {
    field_text("class: "@, h.class.0 as nat) + field_text("data: "@, h.data.0 as nat) + field_text(
        "version: "@,
        h.version.0 as nat,
    ) + field_text("os abi: "@, h.os_abi.0 as nat) + field_text(
        "abi version: "@,
        h.abi_version as nat,
    ) + field_text("type: "@, h.elf_type.0 as nat) + field_text("machine: "@, h.machine.0 as nat)
        + field_text("entry: "@, h.entrypoint as nat)
}

/// The line of one section: its name, address, file offset and size.
pub open spec fn section_line(s: SectionView) -> Seq<char> {
    s.name + ": addr "@ + hex_text(s.addr as nat) + " offset "@ + hex_text(s.offset as nat)
        + " size "@ + hex_text(s.size as nat) + "\n"@
}

/// The lines of the sections under the first `n` of `names`.
pub open spec fn section_lines(names: Seq<Seq<char>>, m: Map<Seq<char>, SectionView>, n: int) -> Seq<
    char,
>
    decreases n,
{
    if n <= 0 {
        Seq::empty()
    } else {
        section_lines(names, m, n - 1) + section_line(m[names[n - 1]])
    }
}

/// The line of one symbol: its name and its address.
pub open spec fn symbol_line(name: Seq<char>, addr: u64) -> Seq<char> {
    name + ": "@ + hex_text(addr as nat) + "\n"@
}

/// The lines of the symbols under the first `n` of `names`.
pub open spec fn symbol_lines(names: Seq<Seq<char>>, m: Map<Seq<char>, u64>, n: int) -> Seq<char>
    decreases n,
{
    if n <= 0 {
        Seq::empty()
    } else {
        symbol_lines(names, m, n - 1) + symbol_line(names[n - 1], m[names[n - 1]])
    }
}

/// The whole text: the header, the sections in the order `section_order`,
/// and the symbols in the order `symbol_order`.
pub open spec fn dump_text(
    hdr: FileHeader,
    section_order: Seq<Seq<char>>,
    sections: Map<Seq<char>, SectionView>,
    symbol_order: Seq<Seq<char>>,
    symbols: Map<Seq<char>, u64>,
) -> Seq<char> {
    "ELF file\n"@ + header_text(hdr) + "ELF sections\n"@ + section_lines(
        section_order,
        sections,
        section_order.len() as int,
    ) + "ELF symbols\n"@ + symbol_lines(symbol_order, symbols, symbol_order.len() as int)
}

/// Appends a label, a number in hexadecimal, and the end of the line.
fn push_field(text: &mut String, label: &str, v: u64)
    ensures
        final(text)@ == old(text)@ + field_text(label@, v as nat),
{
    text.append(label);
    text.append(hex(v).as_str());
    text.append("\n");
    assert(text@ =~= old(text)@ + field_text(label@, v as nat));
}

/// Appends the line of `section`.
fn push_section_line(text: &mut String, section: &Section)
    ensures
        final(text)@ == old(text)@ + section_line(section@),
{
    text.append(section.name.as_str());
    text.append(": addr ");
    text.append(hex(section.addr).as_str());
    text.append(" offset ");
    text.append(hex(section.offset).as_str());
    text.append(" size ");
    text.append(hex(section.size).as_str());
    text.append("\n");
    assert(text@ =~= old(text)@ + section_line(section@));
}

/// Appends the line of the symbol `name` at `addr`.
fn push_symbol_line(text: &mut String, name: &str, addr: u64)
    ensures
        final(text)@ == old(text)@ + symbol_line(name@, addr),
{
    text.append(name);
    text.append(": ");
    text.append(hex(addr).as_str());
    text.append("\n");
    assert(text@ =~= old(text)@ + symbol_line(name@, addr));
}

/// Appends the summary of the header.
fn push_header(text: &mut String, hdr: &FileHeader)
    ensures
        final(text)@ == old(text)@ + header_text(*hdr),
{
    let ghost start = text@;
    push_field(text, "class: ", hdr.class.0 as u64);
    let ghost done = field_text("class: "@, hdr.class.0 as nat);
    push_field(text, "data: ", hdr.data.0 as u64);
    let ghost more = done + field_text("data: "@, hdr.data.0 as nat);
    assert(text@ =~= start + more);
    push_field(text, "version: ", hdr.version.0 as u64);
    let ghost done = more + field_text("version: "@, hdr.version.0 as nat);
    assert(text@ =~= start + done);
    push_field(text, "os abi: ", hdr.os_abi.0 as u64);
    let ghost more = done + field_text("os abi: "@, hdr.os_abi.0 as nat);
    assert(text@ =~= start + more);
    push_field(text, "abi version: ", hdr.abi_version as u64);
    let ghost done = more + field_text("abi version: "@, hdr.abi_version as nat);
    assert(text@ =~= start + done);
    push_field(text, "type: ", hdr.elf_type.0 as u64);
    let ghost more = done + field_text("type: "@, hdr.elf_type.0 as nat);
    assert(text@ =~= start + more);
    push_field(text, "machine: ", hdr.machine.0 as u64);
    let ghost done = more + field_text("machine: "@, hdr.machine.0 as nat);
    assert(text@ =~= start + done);
    push_field(text, "entry: ", hdr.entrypoint);
    let ghost more = done + field_text("entry: "@, hdr.entrypoint as nat);
    assert(text@ =~= start + more);
}

/// Appends the line of each section, in the order of the map's names.
fn push_sections(text: &mut String, sections: &NameMap<Section>)
    requires
        sections.wf(),
    ensures
        final(text)@ == old(text)@ + section_lines(
            sections.names(),
            section_views(sections@),
            sections.names().len() as int,
        ),
{
    let ghost order = sections.names();
    let ghost views = section_views(sections@);
    let n: usize = sections.len();
    let mut i: usize = 0;
    assert(text@ =~= old(text)@ + section_lines(order, views, 0));
    while i < n
        invariant
            sections.wf(),
            n == sections.names().len(),
            i <= n,
            order == sections.names(),
            views == section_views(sections@),
            text@ == old(text)@ + section_lines(order, views, i as int),
        decreases n - i,
    {
        let section = sections.value_at(i);
        proof {
            sections.lemma_names();
            assert(section@ == views[order[i as int]]);
        }
        push_section_line(text, section);
        assert(text@ =~= old(text)@ + section_lines(order, views, i + 1));
        i = i + 1;
    }
}

/// Appends the line of each symbol of `names`, in their order.
fn push_symbols(text: &mut String, names: &Vec<String>, symbols: &NameMap<u64>)
    requires
        symbols.wf(),
        name_views(names@).to_multiset() == symbols.names().to_multiset(),
    ensures
        final(text)@ == old(text)@ + symbol_lines(
            name_views(names@),
            symbols@,
            names@.len() as int,
        ),
{
    let ghost order = name_views(names@);
    let mut k: usize = 0;
    assert(text@ =~= old(text)@ + symbol_lines(order, symbols@, 0));
    while k < names.len()
        invariant
            symbols.wf(),
            k <= names@.len(),
            order == name_views(names@),
            order.to_multiset() == symbols.names().to_multiset(),
            text@ == old(text)@ + symbol_lines(order, symbols@, k as int),
        decreases names@.len() - k,
    {
        let name = &names[k];
        proof {
            symbols.lemma_names();
            order.to_multiset_ensures();
            symbols.names().to_multiset_ensures();
            assert(order.contains(order[k as int]));
            assert(order.to_multiset().count(name@) > 0);
            assert(symbols.names().contains(name@));
        }
        match symbols.get(name.as_str()) {
            Some(addr) => {
                push_symbol_line(text, name.as_str(), *addr);
            },
            None => {},
        }
        assert(text@ =~= old(text)@ + symbol_lines(order, symbols@, k + 1));
        k = k + 1;
    }
}

impl File {
    /// The names of the symbols in ascending order.
    pub fn sorted_symbol_names(&self) -> (names: Vec<String>)
        requires
            self.valid(),
        ensures
            sorted_order_of(name_views(names@), self.symbols.names()),
            name_views(names@) == sorted_names(self.symbols.names()),
    {
        let mut names: Vec<String> = Vec::new();
        let n: usize = self.symbols.len();
        let mut i: usize = 0;
        while i < n
            invariant
                self.valid(),
                n == self.symbols.names().len(),
                i <= n,
                names@.len() == i,
                name_views(names@) == self.symbols.names().take(i as int),
            decreases n - i,
        {
            let ghost before = names@;
            names.push(self.symbols.name_at(i).clone());
            assert forall|j: int| 0 <= j < i + 1 implies name_views(names@)[j]
                == self.symbols.names().take(i + 1)[j] by {
                if j < i {
                    assert(name_views(before)[j] == self.symbols.names().take(i as int)[j]);
                }
            }
            assert(name_views(names@) =~= self.symbols.names().take(i + 1));
            i = i + 1;
        }
        assert(self.symbols.names().take(n as int) =~= self.symbols.names());
        sort_names(&mut names);
        proof {
            lemma_sorted_order_unique(
                name_views(names@),
                sorted_names(self.symbols.names()),
                self.symbols.names(),
            );
        }
        names
    }

    /// The file as text: a summary of the header, a line for each section
    /// in the order in which the names first came, and a line for each
    /// symbol in ascending order of the names, with every number in
    /// hexadecimal.
    pub fn dump(&self) -> (text: String)
        requires
            self.valid(),
        ensures
            text@ == dump_text(
                self.hdr,
                self.sections.names(),
                section_views(self.sections@),
                sorted_names(self.symbols.names()),
                self.symbols@,
            ),
    {
        let mut text = String::new();
        text.append("ELF file\n");
        push_header(&mut text, &self.hdr);
        text.append("ELF sections\n");
        push_sections(&mut text, &self.sections);
        text.append("ELF symbols\n");
        let names = self.sorted_symbol_names();
        push_symbols(&mut text, &names, &self.symbols);
        assert(text@ =~= dump_text(
            self.hdr,
            self.sections.names(),
            section_views(self.sections@),
            sorted_names(self.symbols.names()),
            self.symbols@,
        ));
        text
    }
}

} // verus!
