//! A cursor over an archive's bytes: sequential little-endian reads and
//! absolute seeks.

use byteorder::{ByteOrder, LittleEndian};
use vstd::prelude::*;
use vstd::slice::{slice_subrange, slice_to_vec};

use crate::error::PakError;
use crate::format::{has_bytes, le_u16, le_u32};

verus! {

/// Decodes the first two bytes of `chunk` with byteorder's
/// `LittleEndian::read_u16`, which takes them as the low and the high byte of
/// the result and panics on a shorter slice.
#[verifier::external_body]
fn decode_u16(chunk: &[u8]) -> (value: u16)
    requires
        chunk@.len() >= 2,
    ensures
        value == le_u16(chunk@, 0),
{
    LittleEndian::read_u16(chunk)
}

/// Decodes the first four bytes of `chunk` with byteorder's
/// `LittleEndian::read_u32`, which takes them from the lowest byte to the
/// highest and panics on a shorter slice.
#[verifier::external_body]
fn decode_u32(chunk: &[u8]) -> (value: u32)
    requires
        chunk@.len() >= 4,
    ensures
        value == le_u32(chunk@, 0),
{
    LittleEndian::read_u32(chunk)
}

/// A byte source with a read position.
///
/// The position may lie anywhere, also past the end of the bytes; a read
/// succeeds only where every byte it asks for exists, and then moves the
/// position past them. A read that fails leaves the position where it was.
pub struct Reader {
    data: Vec<u8>,
    pos: u64,
}

impl Reader {
    /// The bytes that this reader reads from.
    pub closed spec fn bytes(&self) -> Seq<u8> {
        self.data@
    }

    /// The position of the next read.
    pub closed spec fn cursor(&self) -> int {
        self.pos as int
    }

    /// A reader over `data`, positioned at its first byte.
    pub fn new(data: Vec<u8>) -> (reader: Reader)
        ensures
            reader.bytes() == data@,
            reader.cursor() == 0,
    {
        Reader { data, pos: 0 }
    }

    /// The number of bytes in the source.
    pub fn len(&self) -> (count: usize)
        ensures
            count == self.bytes().len(),
    {
        self.data.len()
    }

    /// The position of the next read.
    pub fn position(&self) -> (pos: u64)
        ensures
            pos == self.cursor(),
    {
        self.pos
    }

    /// Moves the read position to `offset`, counted from the first byte.
    pub fn seek(&mut self, offset: u64)
        ensures
            final(self).bytes() == old(self).bytes(),
            final(self).cursor() == offset,
    {
        self.pos = offset;
    }

    /// True when `count` more bytes can be read at the current position.
    pub fn remaining_at_least(&self, count: u64) -> (enough: bool)
        ensures
            enough == has_bytes(self.bytes(), self.cursor(), count as int),
    {
        self.has_room(count)
    }

    /// As `remaining_at_least`; also recalls that a vector's length fits in
    /// `usize`, which the reads go by when they index.
    fn has_room(&self, count: u64) -> (enough: bool)
        ensures
            enough == has_bytes(self.bytes(), self.cursor(), count as int),
            self.bytes().len() <= usize::MAX,
    {
        let total: u64 = self.data.len() as u64;
        self.pos <= total && count <= total - self.pos
    }

    /// Reads one byte.
    pub fn read_u8(&mut self) -> (r: Result<u8, PakError>)
        ensures
            final(self).bytes() == old(self).bytes(),
            match r {
                Ok(value) => {
                    &&& has_bytes(old(self).bytes(), old(self).cursor(), 1)
                    &&& value == old(self).bytes()[old(self).cursor()]
                    &&& final(self).cursor() == old(self).cursor() + 1
                },
                Err(e) => {
                    &&& !has_bytes(old(self).bytes(), old(self).cursor(), 1)
                    &&& e == PakError::Io
                    &&& final(self).cursor() == old(self).cursor()
                },
            },
    {
        if !self.has_room(1) {
            return Err(PakError::Io);
        }
        let value: u8 = self.data[self.pos as usize];
        self.pos = self.pos + 1;
        Ok(value)
    }

    /// Reads a little-endian unsigned 16-bit integer.
    pub fn read_u16(&mut self) -> (r: Result<u16, PakError>)
        ensures
            final(self).bytes() == old(self).bytes(),
            match r {
                Ok(value) => {
                    &&& has_bytes(old(self).bytes(), old(self).cursor(), 2)
                    &&& value == le_u16(old(self).bytes(), old(self).cursor())
                    &&& final(self).cursor() == old(self).cursor() + 2
                },
                Err(e) => {
                    &&& !has_bytes(old(self).bytes(), old(self).cursor(), 2)
                    &&& e == PakError::Io
                    &&& final(self).cursor() == old(self).cursor()
                },
            },
    {
        if !self.has_room(2) {
            return Err(PakError::Io);
        }
        let start: usize = self.pos as usize;
        let value: u16 = decode_u16(slice_subrange(self.data.as_slice(), start, start + 2));
        self.pos = self.pos + 2;
        Ok(value)
    }

    /// Reads a little-endian unsigned 32-bit integer.
    pub fn read_u32(&mut self) -> (r: Result<u32, PakError>)
        ensures
            final(self).bytes() == old(self).bytes(),
            match r {
                Ok(value) => {
                    &&& has_bytes(old(self).bytes(), old(self).cursor(), 4)
                    &&& value == le_u32(old(self).bytes(), old(self).cursor())
                    &&& final(self).cursor() == old(self).cursor() + 4
                },
                Err(e) => {
                    &&& !has_bytes(old(self).bytes(), old(self).cursor(), 4)
                    &&& e == PakError::Io
                    &&& final(self).cursor() == old(self).cursor()
                },
            },
    {
        if !self.has_room(4) {
            return Err(PakError::Io);
        }
        let start: usize = self.pos as usize;
        let value: u32 = decode_u32(slice_subrange(self.data.as_slice(), start, start + 4));
        self.pos = self.pos + 4;
        Ok(value)
    }

    /// Reads a run of `count` bytes.
    pub fn read_bytes(&mut self, count: usize) -> (r: Result<Vec<u8>, PakError>)
        ensures
            final(self).bytes() == old(self).bytes(),
            match r {
                Ok(run) => {
                    &&& has_bytes(old(self).bytes(), old(self).cursor(), count as int)
                    &&& run@ == old(self).bytes().subrange(
                        old(self).cursor(),
                        old(self).cursor() + count,
                    )
                    &&& final(self).cursor() == old(self).cursor() + count
                },
                Err(e) => {
                    &&& !has_bytes(old(self).bytes(), old(self).cursor(), count as int)
                    &&& e == PakError::Io
                    &&& final(self).cursor() == old(self).cursor()
                },
            },
    {
        if !self.has_room(count as u64) {
            return Err(PakError::Io);
        }
        let start: usize = self.pos as usize;
        let run: Vec<u8> = slice_to_vec(slice_subrange(self.data.as_slice(), start, start + count));
        self.pos = self.pos + count as u64;
        Ok(run)
    }
}

} // verus!
