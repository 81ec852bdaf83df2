use crate::buffer::long_at;
use crate::buffer::spec_long_at;
use crate::error::Error;
use vstd::prelude::*;

verus! {

/// A resource as a bank holds it.
pub enum Bank {
    /// The bytes of the resource.
    Uncompressed(Vec<u8>),
    /// The packed bytes of the resource.
    Compressed(Vec<u8>),
}

/// The reader of the packed stream: where the next word is read, the
/// word that the bits come from, and the checksum so far.
pub struct BitReader {
    pub i: usize,
    pub chk: u32,
    pub crc: u32,
}

/// The state of the unpacker: the reader, the length of the current
/// back-reference less one, the number of bytes still to write, and the
/// bytes written, the last byte of the resource first.
#[verifier::ext_equal]
pub struct UnpackView {
    pub reader: BitReader,
    pub size: u32,
    pub datasize: u32,
    pub output: Seq<u8>,
}

/// The next word of the packed stream, and the reader moved to the word
/// before it. At the start of the stream the reader stays.
pub open spec fn spec_read_word(data: Seq<u8>, r: BitReader) -> (u32, BitReader) {
    (
        spec_long_at(data, r.i as int),
        BitReader {
            i: if r.i >= 4 {
                (r.i - 4) as usize
            } else {
                r.i
            },
            ..r
        },
    )
}

/// The lowest bit of the current word, and the word shifted right with
/// `cf` coming in at the top.
pub open spec fn spec_rcr(r: BitReader, cf: bool) -> (bool, BitReader) {
    (
        r.chk & 1 != 0,
        BitReader {
            chk: if cf {
                (r.chk >> 1) | 0x8000_0000
            } else {
                r.chk >> 1
            },
            ..r
        },
    )
}

/// The next bit of the packed stream. When the current word runs out,
/// the next word is read and goes into the checksum; a marker bit at its
/// top tells when that word runs out.
pub open spec fn spec_next_chunk(data: Seq<u8>, r: BitReader) -> (bool, BitReader) {
    let (cf, r1) = spec_rcr(r, false);
    if r1.chk == 0 {
        let (w, r2) = spec_read_word(data, r1);
        spec_rcr(BitReader { chk: w, crc: r2.crc ^ w, ..r2 }, true)
    } else {
        (cf, r1)
    }
}

/// The number that the next `n` bits spell, the first bit the highest.
pub open spec fn spec_get_code(data: Seq<u8>, r: BitReader, n: nat) -> (u32, BitReader)
    decreases n,
{
    if n == 0 {
        (0u32, r)
    } else {
        let (c, r1) = spec_get_code(data, r, (n - 1) as nat);
        let (b, r2) = spec_next_chunk(data, r1);
        (
            if b {
                (c << 1) | 1
            } else {
                c << 1
            },
            r2,
        )
    }
}

/// `count` bytes written that the stream spells, eight bits each.
pub open spec fn spec_literals(data: Seq<u8>, v: UnpackView, count: nat) -> UnpackView
    decreases count,
{
    if count == 0 {
        v
    } else {
        let (code, r) = spec_get_code(data, v.reader, 8);
        spec_literals(data, UnpackView { reader: r, output: v.output.push(code as u8), ..v }, (count - 1) as nat)
    }
}

/// `count` bytes written, each a copy of the byte written `off` bytes
/// before it.
pub open spec fn spec_copies(v: UnpackView, off: int, count: nat) -> UnpackView
    decreases count,
{
    if count == 0 {
        v
    } else {
        spec_copies(UnpackView { output: v.output.push(v.output[v.output.len() - off]), ..v }, off, (count - 1) as nat)
    }
}

/// A run of literal bytes: its length is the next `num_chunks` bits plus
/// `add_count` plus one. A run longer than what is left to write is an
/// error.
pub open spec fn spec_dec_unk1(data: Seq<u8>, v: UnpackView, num_chunks: u32, add_count: u32) -> Result<UnpackView, Error> {
    let (code, r) = spec_get_code(data, v.reader, num_chunks as nat);
    let count = code + add_count + 1;
    if count > v.datasize {
        Err(Error::BankCorrupt)
    } else {
        Ok(spec_literals(data, UnpackView { reader: r, datasize: (v.datasize - count) as u32, ..v }, count as nat))
    }
}

/// A back-reference: the next `num_chunks` bits tell how far back, and
/// `size + 1` bytes are copied. A copy longer than what is left to write,
/// or from before the first byte written, is an error.
pub open spec fn spec_dec_unk2(data: Seq<u8>, v: UnpackView, num_chunks: u32) -> Result<UnpackView, Error> {
    let (off, r) = spec_get_code(data, v.reader, num_chunks as nat);
    let count = v.size + 1;
    if count > v.datasize || off == 0 || off > v.output.len() {
        Err(Error::BankCorrupt)
    } else {
        Ok(spec_copies(UnpackView { reader: r, datasize: (v.datasize - count) as u32, ..v }, off as int, count as nat))
    }
}

/// The unpacker state with another reader.
pub open spec fn spec_with_reader(v: UnpackView, r: BitReader) -> UnpackView {
    UnpackView { reader: r, ..v }
}

/// The unpacker state with another reader and copy length.
pub open spec fn spec_with_size(v: UnpackView, r: BitReader, size: u32) -> UnpackView {
    UnpackView { reader: r, size, ..v }
}

/// One command of the packed stream. The bits `0 0` start a run of 1 to 8
/// literal bytes, `0 1` a copy of 2 bytes with an 8-bit distance, `1 0 0`
/// and `1 0 1` a copy of 3 or 4 bytes with a 9- or 10-bit distance,
/// `1 1 0` a copy of up to 256 bytes with a 12-bit distance, and `1 1 1`
/// a run of 9 to 264 literal bytes.
pub open spec fn spec_step(data: Seq<u8>, v: UnpackView) -> Result<UnpackView, Error> {
    let (b1, r1) = spec_next_chunk(data, v.reader);
    if !b1 {
        let (b2, r2) = spec_next_chunk(data, r1);
        if !b2 {
            spec_dec_unk1(data, spec_with_size(v, r2, 1), 3, 0)
        } else {
            spec_dec_unk2(data, spec_with_size(v, r2, 1), 8)
        }
    } else {
        let (c, r2) = spec_get_code(data, r1, 2);
        if c == 3 {
            spec_dec_unk1(data, spec_with_reader(v, r2), 8, 8)
        } else if c < 2 {
            spec_dec_unk2(data, spec_with_size(v, r2, (c + 2) as u32), (c + 9) as u32)
        } else {
            let (s, r3) = spec_get_code(data, r2, 8);
            spec_dec_unk2(data, spec_with_size(v, r3, s), 12)
        }
    }
}

/// The commands of the packed stream until nothing is left to write.
pub open spec fn spec_run(data: Seq<u8>, v: UnpackView) -> Result<UnpackView, Error>
    decreases v.datasize,
{
    if v.datasize == 0 {
        Ok(v)
    } else {
        match spec_step(data, v) {
            Err(e) => Err(e),
            Ok(next) => if next.datasize < v.datasize {
                spec_run(data, next)
            } else {
                Err(Error::BankCorrupt)
            },
        }
    }
}

/// The state in which unpacking starts: the last three words of the data
/// are the size of the resource, the checksum and the first word of bits,
/// which goes into the checksum.
pub open spec fn spec_start(data: Seq<u8>) -> UnpackView {
    let (datasize, r1) = spec_read_word(data, BitReader { i: (data.len() - 4) as usize, chk: 0, crc: 0 });
    let (crc, r2) = spec_read_word(data, r1);
    let (chk, r3) = spec_read_word(data, r2);
    UnpackView { reader: BitReader { i: r3.i, chk, crc: crc ^ chk }, size: 0, datasize, output: Seq::empty() }
}

/// The resource that packed data holds. Data of less than one word or
/// with a malformed command is corrupt; a checksum that is not zero when
/// all is written is a checksum mismatch.
pub open spec fn spec_unpack(data: Seq<u8>) -> Result<Seq<u8>, Error> {
    if data.len() < 4 {
        Err(Error::BankCorrupt)
    } else {
        match spec_run(data, spec_start(data)) {
            Err(e) => Err(e),
            Ok(v) => if v.reader.crc != 0 {
                Err(Error::ChecksumMismatch)
            } else {
                Ok(v.output.reverse())
            },
        }
    }
}

/// Data that unpacks has a checksum of zero when all of it is written,
/// and nothing is left to write then.
pub proof fn lemma_unpacked_checksum_is_zero(data: Seq<u8>)
    requires
        spec_unpack(data) is Ok,
    ensures
        data.len() >= 4,
        spec_run(data, spec_start(data)) is Ok,
        spec_run(data, spec_start(data))->Ok_0.reader.crc == 0,
        spec_unpack(data)->Ok_0 == spec_run(data, spec_start(data))->Ok_0.output.reverse(),
{
}

/// A run of literal bytes adds as many bytes as it is long and leaves
/// the rest of the state but the reader alone.
pub proof fn lemma_literals_length(data: Seq<u8>, v: UnpackView, count: nat)
    ensures
        spec_literals(data, v, count).output.len() == v.output.len() + count,
        spec_literals(data, v, count).datasize == v.datasize,
        spec_literals(data, v, count).size == v.size,
    decreases count,
{
    if count > 0 {
        let (code, r) = spec_get_code(data, v.reader, 8);
        lemma_literals_length(
            data,
            UnpackView { reader: r, output: v.output.push(code as u8), ..v },
            (count - 1) as nat,
        );
    }
}

/// A copy adds as many bytes as it is long and leaves the rest of the
/// state alone.
pub proof fn lemma_copies_length(v: UnpackView, off: int, count: nat)
    ensures
        spec_copies(v, off, count).output.len() == v.output.len() + count,
        spec_copies(v, off, count).datasize == v.datasize,
        spec_copies(v, off, count).size == v.size,
        spec_copies(v, off, count).reader == v.reader,
    decreases count,
{
    if count > 0 {
        lemma_copies_length(
            UnpackView { output: v.output.push(v.output[v.output.len() - off]), ..v },
            off,
            (count - 1) as nat,
        );
    }
}

/// A command writes as many bytes as it takes off what is left to write.
pub proof fn lemma_step_length(data: Seq<u8>, v: UnpackView)
    requires
        spec_step(data, v) is Ok,
    ensures
        spec_step(data, v)->Ok_0.output.len() + spec_step(data, v)->Ok_0.datasize == v.output.len() + v.datasize,
        spec_step(data, v)->Ok_0.datasize < v.datasize,
{
    let (b1, r1) = spec_next_chunk(data, v.reader);
    if !b1 {
        let (b2, r2) = spec_next_chunk(data, r1);
        let w = spec_with_size(v, r2, 1);
        if !b2 {
            lemma_dec_unk1_length(data, w, 3, 0);
        } else {
            lemma_dec_unk2_length(data, w, 8);
        }
    } else {
        let (c, r2) = spec_get_code(data, r1, 2);
        if c == 3 {
            lemma_dec_unk1_length(data, spec_with_reader(v, r2), 8, 8);
        } else if c < 2 {
            lemma_dec_unk2_length(data, spec_with_size(v, r2, (c + 2) as u32), (c + 9) as u32);
        } else {
            let (s, r3) = spec_get_code(data, r2, 8);
            lemma_dec_unk2_length(data, spec_with_size(v, r3, s), 12);
        }
    }
}

/// A run of literal bytes writes as many bytes as it takes off what is
/// left to write, and at least one.
pub proof fn lemma_dec_unk1_length(data: Seq<u8>, v: UnpackView, num_chunks: u32, add_count: u32)
    requires
        spec_dec_unk1(data, v, num_chunks, add_count) is Ok,
    ensures
        spec_dec_unk1(data, v, num_chunks, add_count)->Ok_0.output.len() + spec_dec_unk1(
            data,
            v,
            num_chunks,
            add_count,
        )->Ok_0.datasize == v.output.len() + v.datasize,
        spec_dec_unk1(data, v, num_chunks, add_count)->Ok_0.datasize < v.datasize,
{
    let (code, r) = spec_get_code(data, v.reader, num_chunks as nat);
    let count = code + add_count + 1;
    lemma_literals_length(data, UnpackView { reader: r, datasize: (v.datasize - count) as u32, ..v }, count as nat);
}

/// A copy writes as many bytes as it takes off what is left to write,
/// and at least one.
pub proof fn lemma_dec_unk2_length(data: Seq<u8>, v: UnpackView, num_chunks: u32)
    requires
        spec_dec_unk2(data, v, num_chunks) is Ok,
    ensures
        spec_dec_unk2(data, v, num_chunks)->Ok_0.output.len() + spec_dec_unk2(data, v, num_chunks)->Ok_0.datasize
            == v.output.len() + v.datasize,
        spec_dec_unk2(data, v, num_chunks)->Ok_0.datasize < v.datasize,
{
    let (off, r) = spec_get_code(data, v.reader, num_chunks as nat);
    let count = v.size + 1;
    lemma_copies_length(UnpackView { reader: r, datasize: (v.datasize - count) as u32, ..v }, off as int, count as nat);
}

/// Unpacking writes all that was left to write.
pub proof fn lemma_run_length(data: Seq<u8>, v: UnpackView)
    requires
        spec_run(data, v) is Ok,
    ensures
        spec_run(data, v)->Ok_0.datasize == 0,
        spec_run(data, v)->Ok_0.output.len() == v.output.len() + v.datasize,
    decreases v.datasize,
{
    if v.datasize != 0 {
        lemma_step_length(data, v);
        lemma_run_length(data, spec_step(data, v)->Ok_0);
    }
}

/// A resource that unpacks has the size that the last word of the packed
/// data gives.
pub proof fn lemma_unpacked_length(data: Seq<u8>)
    requires
        data.len() <= usize::MAX,
        spec_unpack(data) is Ok,
    ensures
        data.len() >= 4,
        spec_unpack(data)->Ok_0.len() == spec_long_at(data, data.len() - 4),
{
    let start = spec_start(data);
    assert(start.datasize == spec_long_at(data, data.len() - 4));
    assert(start.output.len() == 0);
    lemma_run_length(data, start);
    let end = spec_run(data, start)->Ok_0;
    assert(end.output.reverse().len() == end.output.len());
}

/// What a bank entry holds once it is unpacked.
pub open spec fn spec_bank_data(bank: Bank) -> Result<Seq<u8>, Error> {
    match bank {
        Bank::Uncompressed(data) => Ok(data@),
        Bank::Compressed(data) => spec_unpack(data@),
    }
}

/// Bytes that a function returned, as mathematical values.
pub open spec fn bytes_result(r: Result<Vec<u8>, Error>) -> Result<Seq<u8>, Error> {
    match r {
        Ok(v) => Ok(v@),
        Err(e) => Err(e),
    }
}

/// The unpacker of one packed resource.
pub struct Unpacker<'a> {
    pub data: &'a [u8],
    pub i: usize,
    pub size: u32,
    pub datasize: u32,
    pub crc: u32,
    pub chk: u32,
    pub output: Vec<u8>,
}

impl<'a> Unpacker<'a> {
    /// The reader of the stream.
    pub open spec fn reader(&self) -> BitReader {
        BitReader { i: self.i, chk: self.chk, crc: self.crc }
    }

    pub open spec fn view(&self) -> UnpackView {
        UnpackView { reader: self.reader(), size: self.size, datasize: self.datasize, output: self.output@ }
    }

    /// The reader stands on a whole word of the data.
    pub open spec fn wf(&self) -> bool {
        self.i + 4 <= self.data@.len()
    }

    /// An unpacker of `data` that has read nothing yet.
    pub fn new(data: &'a [u8]) -> (u: Unpacker<'a>)
        ensures
            u.data@ == data@,
            u.i == 0,
            u.size == 0,
            u.datasize == 0,
            u.crc == 0,
            u.chk == 0,
            u.output@ == Seq::<u8>::empty(),
    {
        Unpacker { data, i: 0, size: 0, datasize: 0, crc: 0, chk: 0, output: Vec::new() }
    }

    /// Reads the word under the reader and steps one word back.
    pub fn read_reverse_be_u32(&mut self) -> (w: u32)
        requires
            old(self).wf(),
        ensures
            final(self).wf(),
            final(self).data@ == old(self).data@,
            (w, final(self).reader()) == spec_read_word(old(self).data@, old(self).reader()),
            final(self)@ == spec_with_reader(old(self)@, final(self).reader()),
    {
        let result = long_at(self.data, self.i);
        if self.i >= 4 {
            self.i = self.i - 4;
        }
        result
    }

    /// Shifts the current word right, `cf` coming in at the top, and
    /// returns the bit that falls out.
    pub fn rcr(&mut self, cf: bool) -> (rcf: bool)
        ensures
            final(self).data@ == old(self).data@,
            (rcf, final(self).reader()) == spec_rcr(old(self).reader(), cf),
            final(self)@ == spec_with_reader(old(self)@, final(self).reader()),
    {
        let rcf: bool = (self.chk & 1) != 0;
        self.chk = self.chk >> 1;
        if cf {
            self.chk = self.chk | 0x8000_0000;
        }
        rcf
    }

    /// Reads the next bit of the stream.
    pub fn next_chunk(&mut self) -> (cf: bool)
        requires
            old(self).wf(),
        ensures
            final(self).wf(),
            final(self).data@ == old(self).data@,
            (cf, final(self).reader()) == spec_next_chunk(old(self).data@, old(self).reader()),
            final(self)@ == spec_with_reader(old(self)@, final(self).reader()),
    {
        let mut cf = self.rcr(false);
        if self.chk == 0 {
            self.chk = self.read_reverse_be_u32();
            self.crc = self.crc ^ self.chk;
            cf = self.rcr(true);
        }
        cf
    }

    /// Reads the number that the next `num_chunks` bits spell.
    pub fn get_code(&mut self, num_chunks: u32) -> (c: u32)
        requires
            old(self).wf(),
        ensures
            final(self).wf(),
            final(self).data@ == old(self).data@,
            (c, final(self).reader()) == spec_get_code(old(self).data@, old(self).reader(), num_chunks as nat),
            final(self)@ == spec_with_reader(old(self)@, final(self).reader()),
    {
        let mut done: u32 = 0;
        let mut c: u32 = 0;
        while done < num_chunks
            invariant
                done <= num_chunks,
                self.wf(),
                self.data@ == old(self).data@,
                (c, self.reader()) == spec_get_code(old(self).data@, old(self).reader(), done as nat),
                self@ == spec_with_reader(old(self)@, self.reader()),
            decreases num_chunks - done,
        {
            done = done + 1;
            c = c << 1;
            if self.next_chunk() {
                c = c | 1;
            }
        }
        c
    }

    /// Writes a run of literal bytes whose length is the next
    /// `num_chunks` bits plus `add_count` plus one.
    pub fn dec_unk1(&mut self, num_chunks: u32, add_count: u32) -> (r: Result<(), Error>)
        requires
            old(self).wf(),
            add_count <= 8,
        ensures
            final(self).data@ == old(self).data@,
            match spec_dec_unk1(old(self).data@, old(self)@, num_chunks, add_count) {
                Ok(v) => r is Ok && final(self)@ == v && final(self).wf() && v.datasize < old(self).datasize,
                Err(e) => r == Err::<(), Error>(e),
            },
    {
        let code = self.get_code(num_chunks);
        let count: u64 = code as u64 + add_count as u64 + 1;
        if count > self.datasize as u64 {
            return Err(Error::BankCorrupt);
        }
        self.datasize = (self.datasize as u64 - count) as u32;
        let ghost start = self@;
        let ghost goal = spec_literals(self.data@, start, count as nat);
        let mut left: u64 = count;
        while left > 0
            invariant
                self.wf(),
                self.data@ == old(self).data@,
                self.datasize == start.datasize,
                spec_literals(self.data@, self@, left as nat) == goal,
            decreases left,
        {
            left = left - 1;
            let val = self.get_code(8);
            self.output.push(#[verifier::truncate] (val as u8));
        }
        Ok(())
    }

    /// Writes a copy of `size + 1` bytes from as far back as the next
    /// `num_chunks` bits tell.
    pub fn dec_unk2(&mut self, num_chunks: u32) -> (r: Result<(), Error>)
        requires
            old(self).wf(),
        ensures
            final(self).data@ == old(self).data@,
            match spec_dec_unk2(old(self).data@, old(self)@, num_chunks) {
                Ok(v) => r is Ok && final(self)@ == v && final(self).wf() && v.datasize < old(self).datasize,
                Err(e) => r == Err::<(), Error>(e),
            },
    {
        let off = self.get_code(num_chunks) as usize;
        let count: u64 = self.size as u64 + 1;
        if count > self.datasize as u64 || off == 0 || off > self.output.len() {
            return Err(Error::BankCorrupt);
        }
        self.datasize = (self.datasize as u64 - count) as u32;
        let ghost start = self@;
        let ghost goal = spec_copies(start, off as int, count as nat);
        let mut left: u64 = count;
        while left > 0
            invariant
                self.wf(),
                self.data@ == old(self).data@,
                self.datasize == start.datasize,
                1 <= off <= self.output@.len(),
                spec_copies(self@, off as int, left as nat) == goal,
            decreases left,
        {
            left = left - 1;
            let val = self.output[self.output.len() - off];
            self.output.push(val);
        }
        Ok(())
    }

    /// Reads one command of the stream and writes what it stands for.
    pub fn step(&mut self) -> (r: Result<(), Error>)
        requires
            old(self).wf(),
        ensures
            final(self).data@ == old(self).data@,
            match spec_step(old(self).data@, old(self)@) {
                Ok(v) => r is Ok && final(self)@ == v && final(self).wf() && v.datasize < old(self).datasize,
                Err(e) => r == Err::<(), Error>(e),
            },
    {
        if !self.next_chunk() {
            self.size = 1;
            if !self.next_chunk() {
                self.dec_unk1(3, 0)
            } else {
                self.dec_unk2(8)
            }
        } else {
            let c = self.get_code(2);
            if c == 3 {
                self.dec_unk1(8, 8)
            } else if c < 2 {
                self.size = c + 2;
                self.dec_unk2(c + 9)
            } else {
                self.size = self.get_code(8);
                self.dec_unk2(12)
            }
        }
    }

    /// Unpacks the data. What comes out is the resource or the reason why
    /// the data does not hold one.
    pub fn unpack(&mut self) -> (r: Result<Vec<u8>, Error>)
        ensures
            bytes_result(r) == spec_unpack(old(self).data@),
            final(self).data@ == old(self).data@,
            r is Ok ==> final(self).crc == 0 && final(self).datasize == 0 && final(self).output@.reverse() == r->Ok_0@,
    {
        let len = self.data.len();
        if len < 4 {
            return Err(Error::BankCorrupt);
        }
        self.i = len - 4;
        self.size = 0;
        self.chk = 0;
        self.crc = 0;
        self.output = Vec::new();
        self.datasize = self.read_reverse_be_u32();
        self.crc = self.read_reverse_be_u32();
        self.chk = self.read_reverse_be_u32();
        self.crc = self.crc ^ self.chk;
        assert(self@ =~= spec_start(self.data@));
        let ghost goal = spec_run(self.data@, self@);
        while self.datasize > 0
            invariant
                self.wf(),
                self.data@ == old(self).data@,
                old(self).data@.len() >= 4,
                goal == spec_run(old(self).data@, spec_start(old(self).data@)),
                spec_run(self.data@, self@) == goal,
            ensures
                self.data@ == old(self).data@,
                self.datasize == 0,
                spec_run(self.data@, self@) == goal,
            decreases self.datasize,
        {
            match self.step() {
                Ok(()) => {},
                Err(e) => {
                    return Err(e);
                },
            }
        }
        if self.crc != 0 {
            return Err(Error::ChecksumMismatch);
        }
        let n = self.output.len();
        let mut result: Vec<u8> = Vec::new();
        let mut k: usize = 0;
        while k < n
            invariant
                k <= n,
                n == self.output@.len(),
                result@.len() == k,
                forall|m: int| 0 <= m < k ==> #[trigger] result@[m] == self.output@[n - 1 - m],
            decreases n - k,
        {
            result.push(self.output[n - 1 - k]);
            k = k + 1;
        }
        assert(result@ =~= self.output@.reverse());
        Ok(result)
    }
}

impl Bank {
    /// The bytes of the resource, unpacked where the bank holds them
    /// packed.
    pub fn data(self) -> (r: Result<Vec<u8>, Error>)
        ensures
            bytes_result(r) == spec_bank_data(self),
    {
        match self {
            Bank::Uncompressed(data) => Ok(data),
            Bank::Compressed(data) => {
                let mut unpacker = Unpacker::new(data.as_slice());
                unpacker.unpack()
            },
        }
    }
}

} // verus!
