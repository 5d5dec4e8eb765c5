use elfprobe::elf::file::File;
use elfprobe::elf::types::{Class, Data, Machine, OsAbi, Type, Version};
use elfprobe::{Arch, Endianness, Error, Object, Width};

struct Sec {
    name: u32,
    shtype: u32,
    flags: u64,
    addr: u64,
    link: u32,
    info: u32,
    addralign: u64,
    entsize: u64,
    data: Vec<u8>,
}

struct Sym {
    name: u32,
    value: u64,
}

fn put16(out: &mut Vec<u8>, big: bool, v: u16) {
    if big {
        out.extend_from_slice(&v.to_be_bytes());
    } else {
        out.extend_from_slice(&v.to_le_bytes());
    }
}

fn put32(out: &mut Vec<u8>, big: bool, v: u32) {
    if big {
        out.extend_from_slice(&v.to_be_bytes());
    } else {
        out.extend_from_slice(&v.to_le_bytes());
    }
}

fn put64(out: &mut Vec<u8>, big: bool, v: u64) {
    if big {
        out.extend_from_slice(&v.to_be_bytes());
    } else {
        out.extend_from_slice(&v.to_le_bytes());
    }
}

fn put_word(out: &mut Vec<u8>, wide: bool, big: bool, v: u64) {
    if wide {
        put64(out, big, v);
    } else {
        put32(out, big, v as u32);
    }
}

fn symtab(wide: bool, big: bool, syms: &[Sym]) -> Vec<u8> {
    let mut out = Vec::new();
    for s in syms {
        put32(&mut out, big, s.name);
        if wide {
            out.push(0x12);
            out.push(0);
            put16(&mut out, big, 1);
            put64(&mut out, big, s.value);
            put64(&mut out, big, 8);
        } else {
            put32(&mut out, big, s.value as u32);
            put32(&mut out, big, 8);
            out.push(0x12);
            out.push(0);
            put16(&mut out, big, 1);
        }
    }
    out
}

fn image(wide: bool, big: bool, machine: u16, entry: u64, shstrndx: u16, secs: &[Sec]) -> Vec<u8> {
    let ehsize: u64 = if wide { 64 } else { 52 };
    let shentsize: u16 = if wide { 64 } else { 40 };
    let mut offsets = Vec::new();
    let mut at = ehsize;
    for s in secs {
        offsets.push(at);
        at += s.data.len() as u64;
    }
    let shoff = at;
    let mut out = vec![0x7f, b'E', b'L', b'F'];
    out.push(if wide { 2 } else { 1 });
    out.push(if big { 2 } else { 1 });
    out.push(1);
    out.push(3);
    out.push(7);
    out.extend_from_slice(&[0u8; 7]);
    put16(&mut out, big, 2);
    put16(&mut out, big, machine);
    put32(&mut out, big, 1);
    put_word(&mut out, wide, big, entry);
    put_word(&mut out, wide, big, 0);
    put_word(&mut out, wide, big, shoff);
    put32(&mut out, big, 0x0500_0002);
    put16(&mut out, big, ehsize as u16);
    put16(&mut out, big, 0);
    put16(&mut out, big, 0);
    put16(&mut out, big, shentsize);
    put16(&mut out, big, secs.len() as u16);
    put16(&mut out, big, shstrndx);
    assert_eq!(out.len() as u64, ehsize);
    for s in secs {
        out.extend_from_slice(&s.data);
    }
    for (i, s) in secs.iter().enumerate() {
        put32(&mut out, big, s.name);
        put32(&mut out, big, s.shtype);
        put_word(&mut out, wide, big, s.flags);
        put_word(&mut out, wide, big, s.addr);
        put_word(&mut out, wide, big, offsets[i]);
        put_word(&mut out, wide, big, s.data.len() as u64);
        put32(&mut out, big, s.link);
        put32(&mut out, big, s.info);
        put_word(&mut out, wide, big, s.addralign);
        put_word(&mut out, wide, big, s.entsize);
    }
    out
}

const SHSTRTAB: &[u8] = b"\0.text\0.symtab\0.strtab\0.shstrtab\0";
const STRTAB: &[u8] = b"\0main\0helper\0";

fn high(wide: bool) -> u64 {
    if wide {
        0x0000_7f00_0000_0000
    } else {
        0
    }
}

fn sample_sections(wide: bool, big: bool) -> Vec<Sec> {
    let syms = [
        Sym { name: 0, value: 0 },
        Sym { name: 1, value: high(wide) + 0x0804_8000 },
        Sym { name: 6, value: high(wide) + 0x0804_8010 },
    ];
    vec![
        Sec { name: 0, shtype: 0, flags: 0, addr: 0, link: 0, info: 0, addralign: 0, entsize: 0, data: vec![] },
        Sec {
            name: 1,
            shtype: 1,
            flags: 6,
            addr: high(wide) + 0x0804_8000,
            link: 0,
            info: 0,
            addralign: 16,
            entsize: 0,
            data: vec![0x55, 0x89, 0xe5, 0x5d, 0xc3],
        },
        Sec {
            name: 7,
            shtype: 2,
            flags: 0,
            addr: 0,
            link: 3,
            info: 1,
            addralign: 8,
            entsize: if wide { 24 } else { 16 },
            data: symtab(wide, big, &syms),
        },
        Sec { name: 15, shtype: 3, flags: 0, addr: 0, link: 0, info: 0, addralign: 1, entsize: 0, data: STRTAB.to_vec() },
        Sec { name: 23, shtype: 3, flags: 0, addr: 0, link: 0, info: 0, addralign: 1, entsize: 0, data: SHSTRTAB.to_vec() },
    ]
}

fn check_sample(wide: bool, big: bool, machine: u16) {
    let secs = sample_sections(wide, big);
    let entry = high(wide) + 0x0804_8000;
    let bytes = image(wide, big, machine, entry, 4, &secs);
    let f = match File::parse(&bytes) {
        Ok(f) => f,
        Err(e) => panic!("parse failed: {:?}", e),
    };
    assert_eq!(f.hdr.class, Class(if wide { 2 } else { 1 }));
    assert_eq!(f.hdr.data, Data(if big { 2 } else { 1 }));
    assert_eq!(f.hdr.version, Version(1));
    assert_eq!(f.hdr.os_abi, OsAbi(3));
    assert_eq!(f.hdr.abi_version, 7);
    assert_eq!(f.hdr.elf_type, Type(2));
    assert_eq!(f.hdr.machine, Machine(machine));
    assert_eq!(f.hdr.entrypoint, entry);

    let ehsize: u64 = if wide { 64 } else { 52 };
    assert_eq!(f.sections().len(), 5);
    let null = f.sections().get("").unwrap();
    assert_eq!(null.name, "");
    assert_eq!(null.size, 0);
    assert!(null.data.is_empty());
    let text = f.sections().get(".text").unwrap();
    assert_eq!(text.name, ".text");
    assert_eq!(text.addr, entry);
    assert_eq!(text.offset, ehsize);
    assert_eq!(text.size, 5);
    assert_eq!(text.data, vec![0x55, 0x89, 0xe5, 0x5d, 0xc3]);
    let symtab = f.sections().get(".symtab").unwrap();
    assert_eq!(symtab.offset, ehsize + 5);
    assert_eq!(symtab.size, if wide { 72 } else { 48 });
    assert_eq!(symtab.data, secs[2].data);
    let strtab = f.sections().get(".strtab").unwrap();
    assert_eq!(strtab.data, STRTAB.to_vec());
    assert_eq!(strtab.size, 13);
    let shstrtab = f.get_section(".shstrtab").unwrap();
    assert_eq!(shstrtab.data, SHSTRTAB.to_vec());
    assert_eq!(shstrtab.name, ".shstrtab");
    assert!(f.get_section(".data").is_none());

    assert_eq!(f.symbols().len(), 3);
    assert_eq!(f.symbols().get(""), Some(&0));
    assert_eq!(f.symbols().get("main"), Some(&(high(wide) + 0x0804_8000)));
    assert_eq!(f.symbols().get("helper"), Some(&(high(wide) + 0x0804_8010)));
    assert_eq!(f.symbols().get("missing"), None);
}

#[test]
fn parses_32_bit_little_endian() {
    check_sample(false, false, 3);
}

#[test]
fn parses_32_bit_big_endian() {
    check_sample(false, true, 20);
}

#[test]
fn parses_64_bit_little_endian() {
    check_sample(true, false, 62);
}

#[test]
fn parses_64_bit_big_endian() {
    check_sample(true, true, 21);
}

#[test]
fn parses_a_file_without_sections() {
    let bytes = image(true, false, 62, 0x40_1000, 0, &[]);
    let f = File::parse(&bytes).unwrap();
    assert_eq!(f.hdr.entrypoint, 0x40_1000);
    assert_eq!(f.sections().len(), 0);
    assert_eq!(f.symbols().len(), 0);
    assert!(f.get_section("").is_none());
}

#[test]
fn bad_magic_is_rejected() {
    let mut bytes = image(false, false, 3, 0, 4, &sample_sections(false, false));
    bytes[0] = 0x7e;
    assert_eq!(File::parse(&bytes).err(), Some(Error::InvalidMagic));
    let mut bytes = image(true, true, 3, 0, 4, &sample_sections(true, true));
    bytes[3] = b'G';
    assert_eq!(File::parse(&bytes).err(), Some(Error::InvalidMagic));
    assert_eq!(File::parse(b"MZ\x90\0\x03\0\0\0").err(), Some(Error::InvalidMagic));
}

#[test]
fn input_shorter_than_the_magic_is_rejected() {
    assert_eq!(File::parse(&[]).err(), Some(Error::InvalidMagic));
    assert_eq!(File::parse(&[0x7f, b'E', b'L']).err(), Some(Error::InvalidMagic));
}

#[test]
fn unknown_class_is_rejected() {
    let mut bytes = image(false, false, 3, 0, 4, &sample_sections(false, false));
    bytes[4] = 0;
    assert_eq!(File::parse(&bytes).err(), Some(Error::InvalidClass));
    bytes[4] = 3;
    assert_eq!(File::parse(&bytes).err(), Some(Error::InvalidClass));
    bytes[4] = 0xff;
    assert_eq!(File::parse(&bytes).err(), Some(Error::InvalidClass));
}

#[test]
fn unknown_byte_order_is_rejected() {
    let mut bytes = image(true, false, 62, 0, 4, &sample_sections(true, false));
    bytes[5] = 0;
    assert_eq!(File::parse(&bytes).err(), Some(Error::InvalidEndianness));
    bytes[5] = 3;
    assert_eq!(File::parse(&bytes).err(), Some(Error::InvalidEndianness));
}

#[test]
fn byte_order_is_judged_before_class() {
    let mut bytes = image(true, false, 62, 0, 4, &sample_sections(true, false));
    bytes[4] = 9;
    bytes[5] = 9;
    assert_eq!(File::parse(&bytes).err(), Some(Error::InvalidEndianness));
}

#[test]
fn truncated_header_is_an_eof_error() {
    let bytes = image(true, false, 62, 0, 4, &sample_sections(true, false));
    for cut in 4..64 {
        assert_eq!(File::parse(&bytes[..cut]).err(), Some(Error::UnexpectedEof), "cut at {}", cut);
    }
    let bytes = image(false, true, 20, 0, 4, &sample_sections(false, true));
    for cut in 4..52 {
        assert_eq!(File::parse(&bytes[..cut]).err(), Some(Error::UnexpectedEof), "cut at {}", cut);
    }
}

#[test]
fn truncated_identification_with_bad_byte_order_is_an_eof_error() {
    assert_eq!(File::parse(&[0x7f, b'E', b'L', b'F', 1, 0, 1]).err(), Some(Error::UnexpectedEof));
}

#[test]
fn class_is_judged_after_the_fixed_width_fields() {
    let mut bytes = image(false, false, 3, 0, 4, &sample_sections(false, false));
    bytes[4] = 0;
    assert_eq!(File::parse(&bytes[..23]).err(), Some(Error::UnexpectedEof));
    assert_eq!(File::parse(&bytes[..24]).err(), Some(Error::InvalidClass));
}

#[test]
fn truncated_section_table_is_an_eof_error() {
    let bytes = image(false, false, 3, 0, 4, &sample_sections(false, false));
    let n = bytes.len();
    assert!(File::parse(&bytes).is_ok());
    assert_eq!(File::parse(&bytes[..n - 1]).err(), Some(Error::UnexpectedEof));
    assert_eq!(File::parse(&bytes[..n - 40]).err(), Some(Error::UnexpectedEof));
    assert_eq!(File::parse(&bytes[..n - 5 * 40]).err(), Some(Error::UnexpectedEof));
}

#[test]
fn section_table_beyond_the_input_is_an_eof_error() {
    let mut bytes = image(true, false, 62, 0, 0, &[]);
    bytes[0x28..0x30].copy_from_slice(&u64::MAX.to_le_bytes());
    bytes[0x3c] = 1;
    assert_eq!(File::parse(&bytes).err(), Some(Error::UnexpectedEof));
}

#[test]
fn section_that_runs_past_the_input_is_an_eof_error() {
    let secs = vec![Sec {
        name: 0,
        shtype: 1,
        flags: 0,
        addr: 0,
        link: 0,
        info: 0,
        addralign: 0,
        entsize: 0,
        data: vec![1, 2, 3, 4],
    }];
    let mut bytes = image(false, false, 3, 0, 0, &secs);
    assert!(File::parse(&bytes).is_ok());
    let size_at = 52 + 4 + 20;
    bytes[size_at..size_at + 4].copy_from_slice(&1000u32.to_le_bytes());
    assert_eq!(File::parse(&bytes).err(), Some(Error::UnexpectedEof));
}

#[test]
fn empty_section_beyond_the_input_is_no_error() {
    let secs = vec![Sec {
        name: 0,
        shtype: 8,
        flags: 3,
        addr: 0x2000,
        link: 0,
        info: 0,
        addralign: 4,
        entsize: 0,
        data: vec![],
    }];
    let mut bytes = image(false, true, 20, 0, 0, &secs);
    let offset_at = 52 + 16;
    bytes[offset_at..offset_at + 4].copy_from_slice(&0xffff_0000u32.to_be_bytes());
    let f = File::parse(&bytes).unwrap();
    let s = f.get_section("").unwrap();
    assert_eq!(s.offset, 0xffff_0000);
    assert_eq!(s.addr, 0x2000);
    assert_eq!(s.size, 0);
    assert!(s.data.is_empty());
}

#[test]
fn duplicate_section_names_keep_the_later_section() {
    let secs = vec![
        Sec { name: 1, shtype: 1, flags: 0, addr: 0x100, link: 0, info: 0, addralign: 0, entsize: 0, data: vec![1, 1] },
        Sec { name: 1, shtype: 1, flags: 0, addr: 0x200, link: 0, info: 0, addralign: 0, entsize: 0, data: vec![2, 2, 2] },
        Sec { name: 7, shtype: 3, flags: 0, addr: 0, link: 0, info: 0, addralign: 0, entsize: 0, data: b"\0.text\0.names\0".to_vec() },
    ];
    let bytes = image(true, false, 62, 0, 2, &secs);
    let f = File::parse(&bytes).unwrap();
    assert_eq!(f.sections().len(), 2);
    let text = f.get_section(".text").unwrap();
    assert_eq!(text.addr, 0x200);
    assert_eq!(text.offset, 64 + 2);
    assert_eq!(text.size, 3);
    assert_eq!(text.data, vec![2, 2, 2]);
    assert!(f.get_section(".names").is_some());
}

#[test]
fn duplicate_symbol_names_keep_the_later_symbol() {
    let syms = [Sym { name: 1, value: 0x10 }, Sym { name: 6, value: 0x20 }, Sym { name: 1, value: 0x30 }];
    let secs = vec![
        Sec { name: 0, shtype: 2, flags: 0, addr: 0, link: 1, info: 0, addralign: 0, entsize: 16, data: symtab(false, false, &syms) },
        Sec { name: 0, shtype: 3, flags: 0, addr: 0, link: 0, info: 0, addralign: 0, entsize: 0, data: STRTAB.to_vec() },
    ];
    let bytes = image(false, false, 3, 0, 1, &secs);
    let f = File::parse(&bytes).unwrap();
    assert_eq!(f.symbols().len(), 2);
    assert_eq!(f.symbols().get("main"), Some(&0x30));
    assert_eq!(f.symbols().get("helper"), Some(&0x20));
}

#[test]
fn symbols_of_two_tables_are_merged_in_table_order() {
    let first = [Sym { name: 1, value: 0x10 }];
    let second = [Sym { name: 1, value: 0x99 }, Sym { name: 6, value: 0x20 }];
    let secs = vec![
        Sec { name: 0, shtype: 2, flags: 0, addr: 0, link: 2, info: 0, addralign: 0, entsize: 24, data: symtab(true, true, &first) },
        Sec { name: 0, shtype: 2, flags: 0, addr: 0, link: 2, info: 0, addralign: 0, entsize: 24, data: symtab(true, true, &second) },
        Sec { name: 0, shtype: 3, flags: 0, addr: 0, link: 0, info: 0, addralign: 0, entsize: 0, data: STRTAB.to_vec() },
    ];
    let bytes = image(true, true, 21, 0, 2, &secs);
    let f = File::parse(&bytes).unwrap();
    assert_eq!(f.symbols().len(), 2);
    assert_eq!(f.symbols().get("main"), Some(&0x99));
    assert_eq!(f.symbols().get("helper"), Some(&0x20));
}

#[test]
fn symbol_table_with_a_link_out_of_range_gives_empty_names() {
    let syms = [Sym { name: 1, value: 0x10 }, Sym { name: 6, value: 0x20 }];
    let secs = vec![
        Sec { name: 0, shtype: 2, flags: 0, addr: 0, link: 7, info: 0, addralign: 0, entsize: 16, data: symtab(false, false, &syms) },
        Sec { name: 0, shtype: 3, flags: 0, addr: 0, link: 0, info: 0, addralign: 0, entsize: 0, data: STRTAB.to_vec() },
    ];
    let bytes = image(false, false, 3, 0, 1, &secs);
    let f = File::parse(&bytes).unwrap();
    assert_eq!(f.symbols().len(), 1);
    assert_eq!(f.symbols().get(""), Some(&0x20));
}

#[test]
fn symbol_table_with_records_of_no_bytes_holds_no_symbols() {
    let syms = [Sym { name: 1, value: 0x10 }];
    let secs = vec![
        Sec { name: 0, shtype: 2, flags: 0, addr: 0, link: 1, info: 0, addralign: 0, entsize: 0, data: symtab(false, false, &syms) },
        Sec { name: 0, shtype: 3, flags: 0, addr: 0, link: 0, info: 0, addralign: 0, entsize: 0, data: STRTAB.to_vec() },
    ];
    let bytes = image(false, false, 3, 0, 1, &secs);
    let f = File::parse(&bytes).unwrap();
    assert_eq!(f.symbols().len(), 0);
}

#[test]
fn symbol_record_that_runs_past_its_table_is_an_eof_error() {
    let syms = [Sym { name: 1, value: 0x10 }, Sym { name: 6, value: 0x20 }];
    let mut table = symtab(true, false, &syms);
    table.truncate(24 + 12);
    let secs = vec![
        Sec { name: 0, shtype: 2, flags: 0, addr: 0, link: 1, info: 0, addralign: 0, entsize: 12, data: table },
        Sec { name: 0, shtype: 3, flags: 0, addr: 0, link: 0, info: 0, addralign: 0, entsize: 0, data: STRTAB.to_vec() },
    ];
    let bytes = image(true, false, 62, 0, 1, &secs);
    assert_eq!(File::parse(&bytes).err(), Some(Error::UnexpectedEof));
}

#[test]
fn trailing_bytes_of_a_symbol_table_are_not_a_record() {
    let syms = [Sym { name: 1, value: 0x10 }, Sym { name: 6, value: 0x20 }];
    let mut table = symtab(false, true, &syms);
    table.extend_from_slice(&[0xaa; 15]);
    let secs = vec![
        Sec { name: 0, shtype: 2, flags: 0, addr: 0, link: 1, info: 0, addralign: 0, entsize: 16, data: table },
        Sec { name: 0, shtype: 3, flags: 0, addr: 0, link: 0, info: 0, addralign: 0, entsize: 0, data: STRTAB.to_vec() },
    ];
    let bytes = image(false, true, 20, 0, 1, &secs);
    let f = File::parse(&bytes).unwrap();
    assert_eq!(f.symbols().len(), 2);
    assert_eq!(f.symbols().get("main"), Some(&0x10));
    assert_eq!(f.symbols().get("helper"), Some(&0x20));
}

#[test]
fn section_name_table_out_of_range_gives_empty_names() {
    let secs = vec![
        Sec { name: 1, shtype: 1, flags: 0, addr: 0x100, link: 0, info: 0, addralign: 0, entsize: 0, data: vec![1] },
        Sec { name: 7, shtype: 3, flags: 0, addr: 0x200, link: 0, info: 0, addralign: 0, entsize: 0, data: SHSTRTAB.to_vec() },
    ];
    let bytes = image(false, false, 3, 0, 2, &secs);
    let f = File::parse(&bytes).unwrap();
    assert_eq!(f.sections().len(), 1);
    assert_eq!(f.get_section("").unwrap().addr, 0x200);
    assert!(f.get_section(".text").is_none());
}

#[test]
fn section_name_without_terminator_is_empty() {
    let secs = vec![
        Sec { name: 1, shtype: 1, flags: 0, addr: 0x100, link: 0, info: 0, addralign: 0, entsize: 0, data: vec![1] },
        Sec { name: 7, shtype: 3, flags: 0, addr: 0x200, link: 0, info: 0, addralign: 0, entsize: 0, data: b"\0.text\0.names".to_vec() },
    ];
    let bytes = image(false, false, 3, 0, 1, &secs);
    let f = File::parse(&bytes).unwrap();
    assert_eq!(f.get_section(".text").unwrap().addr, 0x100);
    assert_eq!(f.get_section("").unwrap().addr, 0x200);
    assert!(f.get_section(".names").is_none());
}

#[test]
fn architecture_follows_machine_and_byte_order() {
    let cases: Vec<(bool, bool, u16, Arch)> = vec![
        (false, false, 3, Arch::X86(Width::W32)),
        (true, false, 62, Arch::X86(Width::W64)),
        (false, true, 20, Arch::PPC(Width::W32, Endianness::Big)),
        (true, true, 21, Arch::PPC(Width::W64, Endianness::Big)),
        (true, false, 21, Arch::PPC(Width::W64, Endianness::Little)),
        (
            false,
            false,
            40,
            Arch::ARM(Width::W32, Endianness::Little, elfprobe::ARMMode::ARM, elfprobe::ARMType::ARM),
        ),
        (
            true,
            true,
            183,
            Arch::ARM(Width::W64, Endianness::Big, elfprobe::ARMMode::ARM, elfprobe::ARMType::ARM),
        ),
        (true, false, 0, Arch::Unknown),
        (false, false, 243, Arch::Unknown),
        (true, true, 0xffff, Arch::Unknown),
    ];
    for (wide, big, machine, arch) in cases {
        let bytes = image(wide, big, machine, 0, 0, &[]);
        let f = File::parse(&bytes).unwrap();
        assert_eq!(f.arch(), arch, "machine {}", machine);
    }
}

#[test]
fn x86_64_with_64_bit_class_is_x86_w64() {
    let bytes = image(true, false, 62, 0, 0, &[]);
    assert_eq!(File::parse(&bytes).unwrap().arch(), Arch::X86(Width::W64));
}

#[test]
fn architecture_of_a_header_with_unknown_byte_order_is_unknown() {
    let bytes = image(true, false, 62, 0, 0, &[]);
    let mut f = File::parse(&bytes).unwrap();
    f.hdr.data = Data(0);
    assert_eq!(f.arch(), Arch::Unknown);
}
