use crate::bank::spec_get_code;
use crate::bank::spec_literals;
use crate::bank::spec_run;
use crate::bank::spec_start;
use crate::bank::spec_step;
use crate::bank::spec_unpack;
use crate::bank::UnpackView;
use crate::error::Error;
use crate::bank::spec_next_chunk;
use crate::bank::spec_rcr;
use crate::bank::spec_read_word;
use crate::bank::BitReader;
use crate::buffer::spec_long_at;
use vstd::arithmetic::power2::lemma2_to64;
use vstd::arithmetic::power2::lemma_pow2_unfold;
use vstd::arithmetic::power2::pow2;
use vstd::prelude::*;

verus! {

/// A bit as a number.
pub open spec fn spec_bit(b: bool) -> int {
    if b {
        1
    } else {
        0
    }
}

/// The number whose bits are `bits`, the lowest first.
pub open spec fn spec_value(bits: Seq<bool>) -> int
    decreases bits.len(),
{
    if bits.len() == 0 {
        0
    } else {
        spec_bit(bits[0]) + 2 * spec_value(bits.skip(1))
    }
}

/// The word of bits that the reader takes bits from while `bits` are
/// left in it: the bits, the lowest first, and a marker bit above them.
pub open spec fn spec_marked(bits: Seq<bool>) -> int
    decreases bits.len(),
{
    if bits.len() == 0 {
        1
    } else {
        spec_bit(bits[0]) + 2 * spec_marked(bits.skip(1))
    }
}

/// The lowest `n` bits of a number, the lowest first.
pub open spec fn spec_bits_of(v: int, n: nat) -> Seq<bool>
    decreases n,
{
    if n == 0 {
        Seq::empty()
    } else {
        seq![v % 2 == 1] + spec_bits_of(v / 2, (n - 1) as nat)
    }
}

/// The bits of words, word after word, each the lowest bit first.
pub open spec fn spec_words_bits(words: Seq<u32>) -> Seq<bool>
    decreases words.len(),
{
    if words.len() == 0 {
        Seq::empty()
    } else {
        spec_bits_of(words[0] as int, 32) + spec_words_bits(words.skip(1))
    }
}

/// The bits that the reader gives out from now on: those left in the
/// current word, and then those of the words not read yet.
pub open spec fn spec_stream(cur: Seq<bool>, rest: Seq<u32>) -> Seq<bool> {
    cur + spec_words_bits(rest)
}

/// All words combined by exclusive or.
pub open spec fn spec_xor_all(words: Seq<u32>) -> u32
    decreases words.len(),
{
    if words.len() == 0 {
        0u32
    } else {
        words[0] ^ spec_xor_all(words.skip(1))
    }
}

/// Whether the reader stands in packed data with the bits `cur` left in
/// its current word and the words `rest` not read yet: the words lie in
/// the data from the reader's place down to the start, the first to
/// read last, and the checksum is what the words not read yet come to.
pub open spec fn spec_reads(data: Seq<u8>, r: BitReader, cur: Seq<bool>, rest: Seq<u32>) -> bool {
    &&& cur.len() <= 31
    &&& r.chk == spec_marked(cur)
    &&& r.i == if rest.len() > 0 {
        4 * (rest.len() - 1)
    } else {
        0
    }
    &&& r.i + 4 <= data.len()
    &&& forall|j: int| 0 <= j < rest.len() ==> spec_long_at(data, 4 * (rest.len() - 1 - j)) == #[trigger] rest[j]
    &&& r.crc == spec_xor_all(rest)
}

/// The word of `n` bits with its marker lies between two powers of two.
pub proof fn lemma_marked_bounds(bits: Seq<bool>)
    ensures
        pow2(bits.len()) <= spec_marked(bits) < 2 * pow2(bits.len()),
    decreases bits.len(),
{
    lemma2_to64();
    if bits.len() > 0 {
        lemma_marked_bounds(bits.skip(1));
        lemma_pow2_unfold(bits.len());
    }
}

/// The lowest `n` bits of a number below `2^n`, with the marker, are the
/// number plus `2^n`.
pub proof fn lemma_marked_bits_of(v: int, n: nat)
    requires
        0 <= v < pow2(n),
    ensures
        spec_bits_of(v, n).len() == n,
        spec_marked(spec_bits_of(v, n)) == v + pow2(n),
    decreases n,
{
    lemma2_to64();
    if n > 0 {
        lemma_pow2_unfold(n);
        lemma_marked_bits_of(v / 2, (n - 1) as nat);
        let bits = spec_bits_of(v, n);
        assert(bits.skip(1) =~= spec_bits_of(v / 2, (n - 1) as nat));
        assert(bits[0] == (v % 2 == 1));
    }
}

/// The bits of a number are as many as were asked for.
pub proof fn lemma_bits_of_len(v: int, n: nat)
    ensures
        spec_bits_of(v, n).len() == n,
    decreases n,
{
    if n > 0 {
        lemma_bits_of_len(v / 2, (n - 1) as nat);
    }
}

/// The next bit of the packed stream is the first of the bits that the
/// reader has before it. Returns the bits left in the current word and
/// the words not read after that bit.
pub proof fn lemma_next_chunk(data: Seq<u8>, r: BitReader, cur: Seq<bool>, rest: Seq<u32>) -> (next: (
    Seq<bool>,
    Seq<u32>,
))
    requires
        spec_reads(data, r, cur, rest),
        spec_stream(cur, rest).len() > 0,
    ensures
        spec_next_chunk(data, r).0 == spec_stream(cur, rest)[0],
        spec_reads(data, spec_next_chunk(data, r).1, next.0, next.1),
        spec_stream(next.0, next.1) == spec_stream(cur, rest).skip(1),
{
    lemma2_to64();
    let c: u32 = r.chk;
    if cur.len() > 0 {
        lemma_marked_bounds(cur);
        lemma_marked_bounds(cur.skip(1));
        if cur.len() < 31 {
            lemma_pow2_unfold(31);
        }
        assert(pow2(cur.len()) <= pow2(31)) by {
            lemma_pow2_increases(cur.len(), 31);
        }
        assert(c & 1 == c % 2) by (bit_vector);
        assert(c >> 1 == c / 2) by (bit_vector);
        let (cf, r1) = spec_rcr(r, false);
        assert(r1.chk == spec_marked(cur.skip(1)));
        assert(r1.chk != 0);
        assert(spec_stream(cur.skip(1), rest) =~= spec_stream(cur, rest).skip(1));
        (cur.skip(1), rest)
    } else {
        assert(rest.len() > 0);
        assert(c == 1);
        assert(1u32 >> 1 == 0u32) by (bit_vector);
        let (cf, r1) = spec_rcr(r, false);
        assert(r1.chk == 0);
        let (w, r2) = spec_read_word(data, r1);
        assert(w == rest[0]);
        let x: u32 = spec_xor_all(rest.skip(1));
        assert((w ^ x) ^ w == x) by (bit_vector);
        assert(w & 1 == w % 2) by (bit_vector);
        assert((w >> 1) | 0x8000_0000 == (w / 2) + 0x8000_0000) by (bit_vector);
        lemma_marked_bits_of(w as int / 2, 31);
        lemma_bits_of_len(w as int, 32);
        let next_cur = spec_bits_of(w as int / 2, 31);
        let next_rest = rest.skip(1);
        assert(spec_bits_of(w as int, 32).skip(1) =~= next_cur);
        assert(spec_stream(next_cur, next_rest) =~= spec_stream(cur, rest).skip(1));
        assert forall|j: int| 0 <= j < next_rest.len() implies spec_long_at(data, 4 * (next_rest.len() - 1 - j))
            == #[trigger] next_rest[j] by {
            assert(rest[j + 1] == next_rest[j]);
        }
        (next_cur, next_rest)
    }
}

/// Powers of two grow with the exponent.
pub proof fn lemma_pow2_increases(a: nat, b: nat)
    requires
        a <= b,
    ensures
        pow2(a) <= pow2(b),
    decreases b - a,
{
    if a < b {
        lemma_pow2_unfold(b);
        lemma_pow2_increases(a, (b - 1) as nat);
    }
}

/// The number that bits spell, the highest first.
pub open spec fn spec_code_value(bits: Seq<bool>) -> int
    decreases bits.len(),
{
    if bits.len() == 0 {
        0
    } else {
        2 * spec_code_value(bits.drop_last()) + spec_bit(bits.last())
    }
}

/// The number that `n` bits spell is below `2^n`.
pub proof fn lemma_code_value_bounds(bits: Seq<bool>)
    ensures
        0 <= spec_code_value(bits) < pow2(bits.len()),
    decreases bits.len(),
{
    lemma2_to64();
    if bits.len() > 0 {
        lemma_code_value_bounds(bits.drop_last());
        lemma_pow2_unfold(bits.len());
    }
}

/// The number that the reader makes of the next `n` bits is the number
/// that the first `n` bits before it spell, the highest first. Returns
/// the bits left in the current word and the words not read after them.
pub proof fn lemma_get_code(data: Seq<u8>, r: BitReader, cur: Seq<bool>, rest: Seq<u32>, n: nat) -> (next: (
    Seq<bool>,
    Seq<u32>,
))
    requires
        spec_reads(data, r, cur, rest),
        n <= spec_stream(cur, rest).len(),
        n <= 12,
    ensures
        spec_get_code(data, r, n).0 == spec_code_value(spec_stream(cur, rest).take(n as int)),
        spec_reads(data, spec_get_code(data, r, n).1, next.0, next.1),
        spec_stream(next.0, next.1) == spec_stream(cur, rest).skip(n as int),
    decreases n,
{
    let stream = spec_stream(cur, rest);
    if n == 0 {
        assert(stream.skip(0) =~= stream);
        (cur, rest)
    } else {
        let before = lemma_get_code(data, r, cur, rest, (n - 1) as nat);
        let (c, r1) = spec_get_code(data, r, (n - 1) as nat);
        let next = lemma_next_chunk(data, r1, before.0, before.1);
        let b = spec_next_chunk(data, r1).0;
        assert(stream.take(n as int).drop_last() =~= stream.take(n - 1));
        assert(stream.take(n as int).last() == stream[n - 1]);
        assert(stream.skip(n - 1)[0] == stream[n - 1]);
        assert(stream.skip(n - 1).skip(1) =~= stream.skip(n as int));
        lemma_code_value_bounds(stream.take(n - 1));
        lemma2_to64();
        lemma_pow2_increases((n - 1) as nat, 11);
        assert(c < 0x1000);
        assert(c < 0x1000 ==> (c << 1) | 1 == 2 * c + 1 && c << 1 == 2 * c) by (bit_vector);
        next
    }
}

/// The lowest `n` bits of a number, the highest first.
pub open spec fn spec_msb_bits(v: int, n: nat) -> Seq<bool>
    decreases n,
{
    if n == 0 {
        Seq::empty()
    } else {
        spec_msb_bits(v / 2, (n - 1) as nat).push(v % 2 == 1)
    }
}

/// The `n` bits of a number below `2^n`, the highest first, spell the
/// number.
pub proof fn lemma_msb_bits(v: int, n: nat)
    requires
        0 <= v < pow2(n),
    ensures
        spec_msb_bits(v, n).len() == n,
        spec_code_value(spec_msb_bits(v, n)) == v,
    decreases n,
{
    lemma2_to64();
    if n > 0 {
        lemma_pow2_unfold(n);
        lemma_msb_bits(v / 2, (n - 1) as nat);
        let bits = spec_msb_bits(v, n);
        assert(bits.drop_last() =~= spec_msb_bits(v / 2, (n - 1) as nat));
    }
}

/// Bits that are all 0 spell 0.
pub proof fn lemma_code_value_zero(bits: Seq<bool>)
    requires
        forall|i: int| 0 <= i < bits.len() ==> !bits[i],
    ensures
        spec_code_value(bits) == 0,
    decreases bits.len(),
{
    if bits.len() > 0 {
        lemma_code_value_zero(bits.drop_last());
    }
}

/// The bits of a run of one literal byte: the command `0 0`, the length
/// less one in three bits, and the byte, the highest bit first.
pub open spec fn spec_literal_bits(byte: u8) -> Seq<bool> {
    seq![false, false, false, false, false] + spec_msb_bits(byte as int, 8)
}

/// The bits that pack the first `k` bytes of `x`, a run of one literal
/// byte for each, the last byte first.
pub open spec fn spec_encode(x: Seq<u8>, k: nat) -> Seq<bool>
    decreases k,
{
    if k == 0 {
        Seq::empty()
    } else {
        spec_literal_bits(x[k - 1]) + spec_encode(x, (k - 1) as nat)
    }
}

/// The first `k` bytes of `x`, the last first.
pub open spec fn spec_reversed_prefix(x: Seq<u8>, k: nat) -> Seq<u8> {
    Seq::new(k, |i: int| x[k - 1 - i])
}

/// A run of one literal byte takes thirteen bits.
pub proof fn lemma_literal_bits_len(byte: u8)
    ensures
        spec_literal_bits(byte).len() == 13,
{
    lemma2_to64();
    lemma_msb_bits(byte as int, 8);
}

/// Packing `k` bytes takes thirteen bits for each.
pub proof fn lemma_encode_len(x: Seq<u8>, k: nat)
    ensures
        spec_encode(x, k).len() == 13 * k,
    decreases k,
{
    if k > 0 {
        lemma_literal_bits_len(x[k - 1]);
        lemma_encode_len(x, (k - 1) as nat);
    }
}

/// The words not read yet hold 32 bits each.
pub proof fn lemma_words_bits_len(words: Seq<u32>)
    ensures
        spec_words_bits(words).len() == 32 * words.len(),
    decreases words.len(),
{
    if words.len() > 0 {
        lemma_bits_of_len(words[0] as int, 32);
        lemma_words_bits_len(words.skip(1));
    }
}

/// Before the bits of a run of one literal byte, the unpacker writes
/// that byte and takes one off what is left to write. Returns the bits
/// left in the current word and the words not read after the run.
pub proof fn lemma_literal_step(data: Seq<u8>, v: UnpackView, cur: Seq<bool>, rest: Seq<u32>, byte: u8) -> (next: (
    Seq<bool>,
    Seq<u32>,
))
    requires
        spec_reads(data, v.reader, cur, rest),
        13 <= spec_stream(cur, rest).len(),
        spec_stream(cur, rest).take(13) == spec_literal_bits(byte),
        v.datasize >= 1,
    ensures
        spec_step(data, v) is Ok,
        spec_step(data, v)->Ok_0.output == v.output.push(byte),
        spec_step(data, v)->Ok_0.datasize == v.datasize - 1,
        spec_reads(data, spec_step(data, v)->Ok_0.reader, next.0, next.1),
        spec_stream(next.0, next.1) == spec_stream(cur, rest).skip(13),
{
    lemma2_to64();
    let stream = spec_stream(cur, rest);
    let lit = spec_literal_bits(byte);
    lemma_msb_bits(byte as int, 8);
    assert forall|i: int| 0 <= i < 13 implies stream[i] == lit[i] by {
        assert(stream.take(13)[i] == stream[i]);
    }
    let n1 = lemma_next_chunk(data, v.reader, cur, rest);
    let (b1, r1) = spec_next_chunk(data, v.reader);
    assert(!b1);
    assert(stream.skip(1)[0] == stream[1]);
    let n2 = lemma_next_chunk(data, r1, n1.0, n1.1);
    let (b2, r2) = spec_next_chunk(data, r1);
    assert(!b2);
    assert(stream.skip(1).skip(1) =~= stream.skip(2));
    let n3 = lemma_get_code(data, r2, n2.0, n2.1, 3);
    let (code, r3) = spec_get_code(data, r2, 3);
    assert forall|i: int| 0 <= i < 3 implies !(#[trigger] stream.skip(2).take(3)[i]) by {
        assert(stream.skip(2).take(3)[i] == stream[i + 2]);
    }
    lemma_code_value_zero(stream.skip(2).take(3));
    assert(code == 0);
    assert(stream.skip(2).skip(3) =~= stream.skip(5));
    let n4 = lemma_get_code(data, r3, n3.0, n3.1, 8);
    let (value, r4) = spec_get_code(data, r3, 8);
    assert(stream.skip(5).take(8) =~= spec_msb_bits(byte as int, 8)) by {
        assert forall|i: int| 0 <= i < 8 implies stream.skip(5).take(8)[i] == spec_msb_bits(byte as int, 8)[i] by {
            assert(stream.skip(5).take(8)[i] == stream[i + 5]);
            assert(lit[i + 5] == spec_msb_bits(byte as int, 8)[i]);
        }
    }
    assert(value == byte);
    assert(stream.skip(5).skip(8) =~= stream.skip(13));
    let started = UnpackView { reader: r3, datasize: (v.datasize - 1) as u32, size: 1, ..v };
    let written = UnpackView { reader: r4, output: started.output.push(value as u8), ..started };
    assert(spec_literals(data, written, 0) == written);
    assert(spec_literals(data, started, 1) == spec_literals(data, written, 0));
    n4
}

/// Before the bits that pack `k` bytes, with `k` bytes left to write,
/// the unpacker writes those bytes, the last first, and ends with a
/// checksum of zero.
pub proof fn lemma_run_of_literals(data: Seq<u8>, v: UnpackView, cur: Seq<bool>, rest: Seq<u32>, x: Seq<u8>, k: nat)
    requires
        spec_reads(data, v.reader, cur, rest),
        spec_stream(cur, rest) == spec_encode(x, k),
        v.datasize == k,
        k <= x.len(),
    ensures
        spec_run(data, v) is Ok,
        spec_run(data, v)->Ok_0.output == v.output + spec_reversed_prefix(x, k),
        spec_run(data, v)->Ok_0.reader.crc == 0,
    decreases k,
{
    if k == 0 {
        lemma_words_bits_len(rest);
        assert(rest.len() == 0);
        assert(v.output + spec_reversed_prefix(x, 0) =~= v.output);
    } else {
        let stream = spec_stream(cur, rest);
        lemma_literal_bits_len(x[k - 1]);
        lemma_encode_len(x, k);
        assert(stream.take(13) =~= spec_literal_bits(x[k - 1]));
        assert(stream.skip(13) =~= spec_encode(x, (k - 1) as nat));
        let next = lemma_literal_step(data, v, cur, rest, x[k - 1]);
        let w = spec_step(data, v)->Ok_0;
        lemma_run_of_literals(data, w, next.0, next.1, x, (k - 1) as nat);
        assert(spec_run(data, v) == spec_run(data, w));
        assert(v.output.push(x[k - 1]) + spec_reversed_prefix(x, (k - 1) as nat) =~= v.output + spec_reversed_prefix(
            x,
            k,
        ));
    }
}

/// The four bytes of a word, the highest first.
pub open spec fn spec_be4(w: u32) -> Seq<u8> {
    seq![
        (w as int / 0x100_0000) as u8,
        (w as int / 0x1_0000 % 0x100) as u8,
        (w as int / 0x100 % 0x100) as u8,
        (w as int % 0x100) as u8,
    ]
}

/// The four bytes of a word spell the word, wherever they stand.
pub proof fn lemma_be4(a: Seq<u8>, w: u32, b: Seq<u8>)
    ensures
        spec_long_at(a + spec_be4(w) + b, a.len() as int) == w,
{
    let data = a + spec_be4(w) + b;
    let n = a.len() as int;
    assert(data[n] == spec_be4(w)[0]);
    assert(data[n + 1] == spec_be4(w)[1]);
    assert(data[n + 2] == spec_be4(w)[2]);
    assert(data[n + 3] == spec_be4(w)[3]);
}

/// The bytes of words that are read from the end: the word to read
/// first stands last.
pub open spec fn spec_layout(rest: Seq<u32>) -> Seq<u8>
    decreases rest.len(),
{
    if rest.len() == 0 {
        Seq::empty()
    } else {
        spec_layout(rest.skip(1)) + spec_be4(rest[0])
    }
}

/// The bytes of words are four for each.
pub proof fn lemma_layout_len(rest: Seq<u32>)
    ensures
        spec_layout(rest).len() == 4 * rest.len(),
    decreases rest.len(),
{
    if rest.len() > 0 {
        lemma_layout_len(rest.skip(1));
    }
}

/// Word `j` of the words stands where the reader looks for it.
pub proof fn lemma_layout_word(rest: Seq<u32>, tail: Seq<u8>, j: int)
    requires
        0 <= j < rest.len(),
    ensures
        spec_long_at(spec_layout(rest) + tail, 4 * (rest.len() - 1 - j)) == rest[j],
    decreases rest.len(),
{
    lemma_layout_len(rest.skip(1));
    if j == 0 {
        lemma_be4(spec_layout(rest.skip(1)), rest[0], tail);
    } else {
        lemma_layout_word(rest.skip(1), spec_be4(rest[0]) + tail, j - 1);
        assert(spec_layout(rest.skip(1)) + (spec_be4(rest[0]) + tail) =~= spec_layout(rest) + tail);
    }
}

/// The bits of the number that `n` bits spell are those bits.
pub proof fn lemma_value_bits(bits: Seq<bool>)
    ensures
        0 <= spec_value(bits) < pow2(bits.len()),
        spec_bits_of(spec_value(bits), bits.len()) == bits,
    decreases bits.len(),
{
    lemma2_to64();
    if bits.len() > 0 {
        lemma_pow2_unfold(bits.len());
        lemma_value_bits(bits.skip(1));
        assert(spec_bits_of(spec_value(bits), bits.len()) =~= bits);
    } else {
        assert(spec_bits_of(spec_value(bits), 0) =~= bits);
    }
}

/// Bits cut into words of 32, each the lowest bit first.
pub open spec fn spec_chunk(bits: Seq<bool>) -> Seq<u32>
    decreases bits.len(),
{
    if bits.len() < 32 {
        Seq::empty()
    } else {
        seq![spec_value(bits.take(32)) as u32] + spec_chunk(bits.skip(32))
    }
}

/// Bits cut into words are the bits of those words.
pub proof fn lemma_chunk(bits: Seq<bool>)
    requires
        bits.len() % 32 == 0,
    ensures
        spec_words_bits(spec_chunk(bits)) == bits,
        spec_chunk(bits).len() * 32 == bits.len(),
    decreases bits.len(),
{
    lemma2_to64();
    if bits.len() >= 32 {
        lemma_value_bits(bits.take(32));
        lemma_chunk(bits.skip(32));
        let words = spec_chunk(bits);
        assert(words.skip(1) =~= spec_chunk(bits.skip(32)));
        assert(words[0] as int == spec_value(bits.take(32)));
        assert(bits.take(32) + bits.skip(32) =~= bits);
    } else {
        assert(spec_words_bits(spec_chunk(bits)) =~= bits);
    }
}

/// A resource packed in the plainest way: a run of one literal byte for
/// each byte, the bits that do not fill a word in the word that is read
/// first, and the words that end packed data after them: the checksum,
/// which all words of bits come to, and the size of the resource.
pub open spec fn spec_pack(x: Seq<u8>) -> Seq<u8> {
    let bits = spec_encode(x, x.len());
    let first = bits.take((bits.len() % 32) as int);
    let rest = spec_chunk(bits.skip((bits.len() % 32) as int));
    let chk = spec_marked(first) as u32;
    spec_layout(rest) + spec_be4(chk) + spec_be4(chk ^ spec_xor_all(rest)) + spec_be4(x.len() as u32)
}

/// Unpacking what was packed gives the resource back byte for byte, and
/// the checksum is zero at the end.
pub proof fn lemma_unpack_pack(x: Seq<u8>)
    requires
        x.len() <= u32::MAX,
        spec_pack(x).len() <= usize::MAX,
    ensures
        spec_unpack(spec_pack(x)) == Ok::<Seq<u8>, Error>(x),
        spec_run(spec_pack(x), spec_start(spec_pack(x))) is Ok,
        spec_run(spec_pack(x), spec_start(spec_pack(x)))->Ok_0.reader.crc == 0,
{
    lemma2_to64();
    let bits = spec_encode(x, x.len());
    let k0 = (bits.len() % 32) as int;
    let first = bits.take(k0);
    let rest = spec_chunk(bits.skip(k0));
    let chk = spec_marked(first) as u32;
    let all = spec_xor_all(rest);
    let crc = chk ^ all;
    let size = x.len() as u32;
    let data = spec_pack(x);
    let words = spec_layout(rest);
    lemma_layout_len(rest);
    lemma_chunk(bits.skip(k0));
    lemma_marked_bounds(first);
    lemma_pow2_increases(first.len(), 31);
    assert(chk == spec_marked(first));
    let n = words.len() as int;
    assert(data.len() == n + 12);
    lemma_be4(words + spec_be4(chk) + spec_be4(crc), size, Seq::empty());
    assert(words + spec_be4(chk) + spec_be4(crc) + spec_be4(size) + Seq::<u8>::empty() =~= data);
    lemma_be4(words + spec_be4(chk), crc, spec_be4(size));
    lemma_be4(words, chk, spec_be4(crc) + spec_be4(size));
    assert(words + spec_be4(chk) + (spec_be4(crc) + spec_be4(size)) =~= data);
    assert(spec_long_at(data, n + 8) == size);
    assert(spec_long_at(data, n + 4) == crc);
    assert(spec_long_at(data, n) == chk);
    assert((chk ^ all) ^ chk == all) by (bit_vector);
    let start = spec_start(data);
    assert(start.datasize == size);
    assert(start.reader.chk == chk);
    assert(start.reader.crc == all);
    assert forall|j: int| 0 <= j < rest.len() implies spec_long_at(data, 4 * (rest.len() - 1 - j)) == #[trigger] rest[j] by {
        lemma_layout_word(rest, spec_be4(chk) + spec_be4(crc) + spec_be4(size), j);
        assert(words + (spec_be4(chk) + spec_be4(crc) + spec_be4(size)) =~= data);
    }
    assert(spec_reads(data, start.reader, first, rest));
    assert(spec_stream(first, rest) =~= bits) by {
        assert(bits.take(k0) + bits.skip(k0) =~= bits);
    }
    lemma_run_of_literals(data, start, first, rest, x, x.len());
    let end = spec_run(data, start)->Ok_0;
    assert(end.output =~= spec_reversed_prefix(x, x.len()));
    assert(end.output.reverse() =~= x);
}

} // verus!
