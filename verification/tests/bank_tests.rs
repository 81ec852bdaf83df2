use anotherworld::bank::Bank;
use anotherworld::bank::Unpacker;
use anotherworld::buffer::long_at;
use anotherworld::buffer::word_at;
use anotherworld::buffer::Buffer;
use anotherworld::error::Error;

fn packed(words: &[u32]) -> Vec<u8> {
    let mut data = Vec::new();
    for w in words {
        data.extend_from_slice(&w.to_be_bytes());
    }
    data
}

#[test]
fn buffer_fetches_bytes_and_words() {
    let data = [0x12u8, 0x34, 0x56, 0x78];
    let mut buffer = Buffer::with_offset(&data, 0);
    assert_eq!(buffer.fetch_byte(), 0x12);
    assert_eq!(buffer.fetch_word(), 0x3456);
    assert_eq!(buffer.offset, 3);
    assert_eq!(buffer.remaining(), 1);
    let mut from_two = Buffer::with_offset(&data, 2);
    assert_eq!(from_two.fetch_word(), 0x5678);
    assert_eq!(from_two.remaining(), 0);
    let fresh = Buffer::new(&data);
    assert_eq!(fresh.offset, 0);
}

#[test]
fn words_are_big_endian() {
    let data = [0x01u8, 0x02, 0x03, 0x04, 0xff];
    assert_eq!(word_at(&data, 0), 0x0102);
    assert_eq!(word_at(&data, 3), 0x04ff);
    assert_eq!(long_at(&data, 0), 0x0102_0304);
    assert_eq!(long_at(&data, 1), 0x0203_04ff);
}

#[test]
fn unpack_one_literal_byte() {
    let data = packed(&[0x3040, 0x3040, 1]);
    let mut unpacker = Unpacker::new(&data);
    assert_eq!(unpacker.unpack(), Ok(vec![0x41]));
    assert_eq!(unpacker.crc, 0);
    assert_eq!(unpacker.datasize, 0);
}

#[test]
fn unpack_literal_run_in_order() {
    let data = packed(&[0x0030_4850, 0x0030_4850, 2]);
    assert_eq!(Bank::Compressed(data).data(), Ok(vec![0x41, 0x42]));
}

#[test]
fn unpack_short_back_reference() {
    let data = packed(&[0x00c0_5040, 0x00c0_5040, 3]);
    assert_eq!(Bank::Compressed(data).data(), Ok(vec![0x41, 0x41, 0x41]));
}

#[test]
fn unpack_refills_from_the_word_before() {
    let data = packed(&[0xea1a_9a5a, 0x38, 0xea1a_9a62, 4]);
    assert_eq!(Bank::Compressed(data).data(), Ok(vec![0x57, 0x58, 0x59, 0x5a]));
}

#[test]
fn unpack_round_trip_of_hand_packed_data() {
    let plain = vec![0x57u8, 0x58, 0x59, 0x5a];
    let data = packed(&[0xea1a_9a5a, 0x38, 0xea1a_9a62, 4]);
    let mut unpacker = Unpacker::new(&data);
    let unpacked = unpacker.unpack().unwrap();
    assert_eq!(unpacked, plain);
    assert_eq!(unpacker.crc, 0);
}

#[test]
fn unpack_checksum_mismatch() {
    let data = packed(&[0x3040, 0x3041, 1]);
    assert_eq!(Bank::Compressed(data).data(), Err(Error::ChecksumMismatch));
}

#[test]
fn unpack_rejects_short_data() {
    assert_eq!(Bank::Compressed(vec![1, 2, 3]).data(), Err(Error::BankCorrupt));
    assert_eq!(Bank::Compressed(Vec::new()).data(), Err(Error::BankCorrupt));
}

#[test]
fn unpack_rejects_copy_from_before_the_start() {
    let data = packed(&[0x602, 0x602, 2]);
    assert_eq!(Bank::Compressed(data).data(), Err(Error::BankCorrupt));
}

#[test]
fn unpack_rejects_run_longer_than_the_size() {
    let data = packed(&[0x0030_4850, 0x0030_4850, 1]);
    assert_eq!(Bank::Compressed(data).data(), Err(Error::BankCorrupt));
}

#[test]
fn unpack_of_size_zero_is_empty() {
    let data = packed(&[0x1, 0x1, 0]);
    assert_eq!(Bank::Compressed(data).data(), Ok(Vec::new()));
}

#[test]
fn uncompressed_bank_is_handed_out_as_it_is() {
    assert_eq!(Bank::Uncompressed(vec![9, 8, 7]).data(), Ok(vec![9, 8, 7]));
}

/// Packs bytes as runs of one literal byte each.
fn pack_literals(x: &[u8]) -> Vec<u8> {
    let mut bits = Vec::new();
    for byte in x.iter().rev() {
        bits.extend_from_slice(&[false; 5]);
        for i in (0..8).rev() {
            bits.push((byte >> i) & 1 == 1);
        }
    }
    let first = bits.len() % 32;
    let word = |chunk: &[bool]| chunk.iter().enumerate().fold(0u32, |w, (i, b)| w | ((*b as u32) << i));
    let chk = word(&bits[..first]) | (1u32 << first);
    let rest: Vec<u32> = bits[first..].chunks(32).map(|c| word(c)).collect();
    let crc = rest.iter().fold(chk, |a, w| a ^ w);
    let mut data = Vec::new();
    for w in rest.iter().rev() {
        data.extend_from_slice(&w.to_be_bytes());
    }
    data.extend_from_slice(&chk.to_be_bytes());
    data.extend_from_slice(&crc.to_be_bytes());
    data.extend_from_slice(&(x.len() as u32).to_be_bytes());
    data
}

#[test]
fn unpack_round_trip_of_packed_literals() {
    assert_eq!(pack_literals(&[0x41]), packed(&[0x3040, 0x3040, 1]));
    for len in 0..80usize {
        let x: Vec<u8> = (0..len).map(|i| (i * 37 + len * 11 + 5) as u8).collect();
        let data = pack_literals(&x);
        let mut unpacker = Unpacker::new(&data);
        assert_eq!(unpacker.unpack(), Ok(x), "length {}", len);
        assert_eq!(unpacker.crc, 0);
    }
    let mut broken = pack_literals(&[1, 2, 3, 4, 5, 6, 7]);
    let n = broken.len();
    broken[n - 5] ^= 0x10;
    assert_eq!(Bank::Compressed(broken).data(), Err(Error::ChecksumMismatch));
}
