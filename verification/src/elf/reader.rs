//! A cursor over bytes that reads unsigned integers in a byte order chosen
//! at run time.

use crate::elf::types::{Data, ELFDATA2LSB, ELFDATA2MSB};
use crate::endian::{be_read_u16, be_read_u32, be_read_u64, le_read_u16, le_read_u32, le_read_u64};
use crate::endian::{be_u16, be_u32, be_u64, le_u16, le_u32, le_u64};
use crate::object::Error;
use vstd::prelude::*;
use vstd::slice::{slice_subrange, slice_to_vec};

verus! {

/// Whether `data` names one of the two byte orders.
pub open spec fn data_valid(data: Data) -> bool {
    data.0 == ELFDATA2LSB || data.0 == ELFDATA2MSB
}

/// The 16-bit value that `s` holds at `pos` in the byte order `data`.
pub open spec fn u16_at(data: Data, s: Seq<u8>, pos: int) -> int {
    if data.0 == ELFDATA2LSB {
        le_u16(s.subrange(pos, pos + 2))
    } else {
        be_u16(s.subrange(pos, pos + 2))
    }
}

/// The 32-bit value that `s` holds at `pos` in the byte order `data`.
pub open spec fn u32_at(data: Data, s: Seq<u8>, pos: int) -> int {
    if data.0 == ELFDATA2LSB {
        le_u32(s.subrange(pos, pos + 4))
    } else {
        be_u32(s.subrange(pos, pos + 4))
    }
}

/// The 64-bit value that `s` holds at `pos` in the byte order `data`.
pub open spec fn u64_at(data: Data, s: Seq<u8>, pos: int) -> int {
    if data.0 == ELFDATA2LSB {
        le_u64(s.subrange(pos, pos + 8))
    } else {
        be_u64(s.subrange(pos, pos + 8))
    }
}

/// Why a read of `n` bytes of `s` at `pos` in the byte order `data` fails,
/// if it does: the byte order is judged before the input's length.
pub open spec fn read_failure(data: Data, s: Seq<u8>, pos: int, n: int) -> Option<Error> {
    if !data_valid(data) {
        Some(Error::InvalidEndianness)
    } else if pos + n > s.len() {
        Some(Error::UnexpectedEof)
    } else {
        None
    }
}

/// A position in a run of bytes.
pub struct Reader<'a> {
    pub bytes: &'a [u8],
    pub pos: u64,
}

impl<'a> Reader<'a> {
    /// A reader at the start of `bytes`.
    pub fn new(bytes: &'a [u8]) -> (r: Self)
        ensures
            r.bytes@ == bytes@,
            r.pos == 0,
    {
        Reader { bytes, pos: 0 }
    }

    /// Moves to `pos`, which may lie beyond the last byte.
    pub fn seek(&mut self, pos: u64)
        ensures
            final(self).bytes@ == old(self).bytes@,
            final(self).pos == pos,
    {
        self.pos = pos;
    }

    /// Whether `n` more bytes can be read at the current position.
    pub fn has(&self, n: u64) -> (b: bool)
        ensures
            b == (self.pos + n <= self.bytes@.len()),
            self.bytes@.len() <= usize::MAX,
    {
        let len: usize = self.bytes.len();
        self.pos <= len as u64 && n <= len as u64 - self.pos
    }

    /// Reads one byte.
    pub fn read_u8(&mut self) -> (res: Result<u8, Error>)
        ensures
            final(self).bytes@ == old(self).bytes@,
            match res {
                Ok(v) => old(self).pos < old(self).bytes@.len() && v == old(self).bytes@[
                    old(self).pos as int] && final(self).pos == old(self).pos + 1,
                Err(e) => old(self).pos >= old(self).bytes@.len() && e == Error::UnexpectedEof
                    && final(self).pos == old(self).pos,
            },
    {
        if !self.has(1) {
            return Err(Error::UnexpectedEof);
        }
        let v: u8 = self.bytes[self.pos as usize];
        self.pos = self.pos + 1;
        Ok(v)
    }

    /// Reads a 16-bit value in the byte order `data`.
    pub fn read_u16(&mut self, data: Data) -> (res: Result<u16, Error>)
        ensures
            final(self).bytes@ == old(self).bytes@,
            match res {
                Ok(v) => read_failure(data, old(self).bytes@, old(self).pos as int, 2) is None
                    && v == u16_at(data, old(self).bytes@, old(self).pos as int) && final(self).pos == old(self).pos + 2,
                Err(e) => read_failure(data, old(self).bytes@, old(self).pos as int, 2) == Some(e)
                    && final(self).pos == old(self).pos,
            },
    {
        if data.0 != ELFDATA2LSB && data.0 != ELFDATA2MSB {
            return Err(Error::InvalidEndianness);
        }
        if !self.has(2) {
            return Err(Error::UnexpectedEof);
        }
        let at: usize = self.pos as usize;
        let field = slice_subrange(self.bytes, at, at + 2);
        self.pos = self.pos + 2;
        if data.0 == ELFDATA2LSB {
            Ok(le_read_u16(field))
        } else {
            Ok(be_read_u16(field))
        }
    }

    /// Reads a 32-bit value in the byte order `data`.
    pub fn read_u32(&mut self, data: Data) -> (res: Result<u32, Error>)
        ensures
            final(self).bytes@ == old(self).bytes@,
            match res {
                Ok(v) => read_failure(data, old(self).bytes@, old(self).pos as int, 4) is None
                    && v == u32_at(data, old(self).bytes@, old(self).pos as int) && final(self).pos == old(self).pos + 4,
                Err(e) => read_failure(data, old(self).bytes@, old(self).pos as int, 4) == Some(e)
                    && final(self).pos == old(self).pos,
            },
    {
        if data.0 != ELFDATA2LSB && data.0 != ELFDATA2MSB {
            return Err(Error::InvalidEndianness);
        }
        if !self.has(4) {
            return Err(Error::UnexpectedEof);
        }
        let at: usize = self.pos as usize;
        let field = slice_subrange(self.bytes, at, at + 4);
        self.pos = self.pos + 4;
        if data.0 == ELFDATA2LSB {
            Ok(le_read_u32(field))
        } else {
            Ok(be_read_u32(field))
        }
    }

    /// Reads a 64-bit value in the byte order `data`.
    pub fn read_u64(&mut self, data: Data) -> (res: Result<u64, Error>)
        ensures
            final(self).bytes@ == old(self).bytes@,
            match res {
                Ok(v) => read_failure(data, old(self).bytes@, old(self).pos as int, 8) is None
                    && v == u64_at(data, old(self).bytes@, old(self).pos as int) && final(self).pos == old(self).pos + 8,
                Err(e) => read_failure(data, old(self).bytes@, old(self).pos as int, 8) == Some(e)
                    && final(self).pos == old(self).pos,
            },
    {
        if data.0 != ELFDATA2LSB && data.0 != ELFDATA2MSB {
            return Err(Error::InvalidEndianness);
        }
        if !self.has(8) {
            return Err(Error::UnexpectedEof);
        }
        let at: usize = self.pos as usize;
        let field = slice_subrange(self.bytes, at, at + 8);
        self.pos = self.pos + 8;
        if data.0 == ELFDATA2LSB {
            Ok(le_read_u64(field))
        } else {
            Ok(be_read_u64(field))
        }
    }

    /// Copies out the next `n` bytes. A request for no bytes succeeds at any
    /// position.
    pub fn read_bytes(&mut self, n: u64) -> (res: Result<Vec<u8>, Error>)
        ensures
            final(self).bytes@ == old(self).bytes@,
            match res {
                Ok(v) => (n == 0 || old(self).pos + n <= old(self).bytes@.len()) && v@ == (if n
                    == 0 {
                    Seq::<u8>::empty()
                } else {
                    old(self).bytes@.subrange(old(self).pos as int, old(self).pos + n)
                }) && final(self).pos == (if n == 0 {
                    old(self).pos as int
                } else {
                    old(self).pos + n
                }),
                Err(e) => n != 0 && old(self).pos + n > old(self).bytes@.len() && e
                    == Error::UnexpectedEof && final(self).pos == old(self).pos,
            },
    {
        if n == 0 {
            return Ok(Vec::new());
        }
        if !self.has(n) {
            return Err(Error::UnexpectedEof);
        }
        let at: usize = self.pos as usize;
        let run = slice_subrange(self.bytes, at, at + n as usize);
        self.pos = self.pos + n;
        Ok(slice_to_vec(run))
    }
}

} // verus!
