//! What every object-file format offers: errors, sections, and the target
//! architecture.

use vstd::prelude::*;

verus! {

/// Why a parse failed.
#[derive(Clone, Copy, Debug, PartialEq, Eq, Structural)]
pub enum Error {
    /// The input does not begin with the four magic bytes.
    InvalidMagic,
    /// The class byte names neither the 32-bit nor the 64-bit layout.
    InvalidClass,
    /// The data-encoding value names neither byte order.
    InvalidEndianness,
    /// The input ended before the bytes that a read asked for.
    UnexpectedEof,
}

impl Error {
    /// The one-line cause of the failure.
    pub fn message(&self) -> (m: &'static str)
        ensures
            m@ == (match *self {
                Error::InvalidMagic => "invalid magic number"@,
                Error::InvalidClass => "invalid class"@,
                Error::InvalidEndianness => "invalid endianness"@,
                Error::UnexpectedEof => "unexpected end of file"@,
            }),
    {
        match self {
            Error::InvalidMagic => "invalid magic number",
            Error::InvalidClass => "invalid class",
            Error::InvalidEndianness => "invalid endianness",
            Error::UnexpectedEof => "unexpected end of file",
        }
    }
}

/// Width of a machine word.
#[derive(Clone, Copy, Debug, PartialEq, Eq, Structural)]
pub enum Width {
    W32,
    W64,
}

/// Byte order of multi-byte values.
#[derive(Clone, Copy, Debug, PartialEq, Eq, Structural)]
pub enum Endianness {
    Little,
    Big,
}

/// Execution mode of an ARM target.
#[derive(Clone, Copy, Debug, PartialEq, Eq, Structural)]
pub enum ARMMode {
    ARM,
    Thumb,
}

/// Instruction encoding of an ARM target.
#[derive(Clone, Copy, Debug, PartialEq, Eq, Structural)]
pub enum ARMType {
    ARM,
    Thumb,
}

/// The target architecture of an object file.
#[derive(Clone, Copy, Debug, PartialEq, Eq, Structural)]
pub enum Arch {
    X86(Width),
    PPC(Width, Endianness),
    ARM(Width, Endianness, ARMMode, ARMType),
    Unknown,
}

/// A named region of an object file together with its bytes.
#[derive(Clone, Debug)]
pub struct Section {
    pub name: String,
    pub addr: u64,
    pub offset: u64,
    pub size: u64,
    pub data: Vec<u8>,
}

/// A section as plain values.
pub struct SectionView {
    pub name: Seq<char>,
    pub addr: u64,
    pub offset: u64,
    pub size: u64,
    pub data: Seq<u8>,
}

impl View for Section {
    type V = SectionView;

    open spec fn view(&self) -> SectionView {
        SectionView {
            name: self.name@,
            addr: self.addr,
            offset: self.offset,
            size: self.size,
            data: self.data@,
        }
    }
}

/// What a parsed object file of any format offers.
pub trait Object {
    /// Whether the value is one that a parser built.
    spec fn wf(&self) -> bool;

    /// The sections as plain values, by name.
    spec fn section_map(&self) -> Map<Seq<char>, SectionView>;

    /// The architecture that the file was built for.
    fn arch(&self) -> Arch;

    /// The section called `name`, if the file has one.
    fn get_section(&self, name: &str) -> (res: Option<&Section>)
        requires
            self.wf(),
        ensures
            match res {
                Some(section) => self.section_map().contains_key(name@) && section@
                    == self.section_map()[name@],
                None => !self.section_map().contains_key(name@),
            },
    ;
}

} // verus!
