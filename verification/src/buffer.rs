use byteorder::BigEndian;
use byteorder::ByteOrder;
use vstd::prelude::*;
use vstd::slice::slice_subrange;

verus! {

/// The 16-bit number that two bytes spell, most significant byte first.
pub open spec fn spec_be_u16(hi: u8, lo: u8) -> u16 {
    (hi as int * 0x100 + lo as int) as u16
}

/// The 32-bit number that four bytes spell, most significant byte first.
pub open spec fn spec_be_u32(b0: u8, b1: u8, b2: u8, b3: u8) -> u32 {
    (b0 as int * 0x100_0000 + b1 as int * 0x1_0000 + b2 as int * 0x100 + b3 as int) as u32
}

/// The big-endian word that starts at `pos` in `data`.
pub open spec fn spec_word_at(data: Seq<u8>, pos: int) -> u16 {
    spec_be_u16(data[pos], data[pos + 1])
}

/// The big-endian 32-bit word that starts at `pos` in `data`.
pub open spec fn spec_long_at(data: Seq<u8>, pos: int) -> u32 {
    spec_be_u32(data[pos], data[pos + 1], data[pos + 2], data[pos + 3])
}

/// `byteorder::BigEndian::read_u16`: trusted to return the number that the
/// first two bytes of `buf` spell in big-endian order. It panics on a
/// shorter slice, which the precondition rules out.
#[verifier::external_body]
pub(crate) fn read_be_u16(buf: &[u8]) -> (r: u16)
    requires
        buf@.len() >= 2,
    ensures
        r == spec_be_u16(buf@[0], buf@[1]),
{
    BigEndian::read_u16(buf)
}

/// `byteorder::BigEndian::read_u32`: trusted to return the number that the
/// first four bytes of `buf` spell in big-endian order. It panics on a
/// shorter slice, which the precondition rules out.
#[verifier::external_body]
pub(crate) fn read_be_u32(buf: &[u8]) -> (r: u32)
    requires
        buf@.len() >= 4,
    ensures
        r == spec_be_u32(buf@[0], buf@[1], buf@[2], buf@[3]),
{
    BigEndian::read_u32(buf)
}

/// The big-endian word at `pos` of `data`.
pub fn word_at(data: &[u8], pos: usize) -> (r: u16)
    requires
        pos + 2 <= data@.len(),
    ensures
        r == spec_word_at(data@, pos as int),
{
    let len = data.len();
    assert(pos + 2 <= len);
    read_be_u16(slice_subrange(data, pos, pos + 2))
}

/// The big-endian 32-bit word at `pos` of `data`.
pub fn long_at(data: &[u8], pos: usize) -> (r: u32)
    requires
        pos + 4 <= data@.len(),
    ensures
        r == spec_long_at(data@, pos as int),
{
    let len = data.len();
    assert(pos + 4 <= len);
    read_be_u32(slice_subrange(data, pos, pos + 4))
}

/// A read cursor over a byte slice. The position is public, so that a
/// caller can save it, seek and come back.
pub struct Buffer<'a> {
    pub data: &'a [u8],
    pub offset: usize,
}

impl<'a> Buffer<'a> {
    /// A cursor at the start of `data`.
    pub fn new(data: &'a [u8]) -> (b: Buffer<'a>)
        ensures
            b.data@ == data@,
            b.offset == 0,
    {
        Buffer { data, offset: 0 }
    }

    /// A cursor at `offset` in `data`.
    pub fn with_offset(data: &'a [u8], offset: usize) -> (b: Buffer<'a>)
        ensures
            b.data@ == data@,
            b.offset == offset,
    {
        Buffer { data, offset }
    }

    /// How many bytes are left to read.
    pub fn remaining(&self) -> (n: usize)
        ensures
            n == if self.offset <= self.data@.len() {
                self.data@.len() - self.offset
            } else {
                0
            },
    {
        if self.offset <= self.data.len() {
            self.data.len() - self.offset
        } else {
            0
        }
    }

    /// Reads one byte and steps over it.
    pub fn fetch_byte(&mut self) -> (r: u8)
        requires
            old(self).offset < old(self).data@.len(),
        ensures
            r == old(self).data@[old(self).offset as int],
            final(self).offset == old(self).offset + 1,
            final(self).data@ == old(self).data@,
    {
        let result = self.data[self.offset];
        self.offset = self.offset + 1;
        result
    }

    /// Reads one big-endian word and steps over it.
    pub fn fetch_word(&mut self) -> (r: u16)
        requires
            old(self).offset + 2 <= old(self).data@.len(),
        ensures
            r == spec_word_at(old(self).data@, old(self).offset as int),
            final(self).offset == old(self).offset + 2,
            final(self).data@ == old(self).data@,
    {
        let len = self.data.len();
        assert(self.offset + 2 <= len);
        let result = word_at(self.data, self.offset);
        self.offset = self.offset + 2;
        result
    }
}

} // verus!
