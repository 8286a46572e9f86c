use sevenz::parser::bits::Bits;
use sevenz::parser::crc::{sevenz_crc, verify};
use sevenz::parser::err::{SevenZParserError, SevenZParserErrorKind};
use sevenz::parser::parsers::bit::take_bitvec;
use sevenz::parser::parsers::coders_info::folder;
use sevenz::parser::parsers::files_info::files_info;
use sevenz::parser::parsers::sevenz_uint64::{encode_sevenz_uint64, sevenz_uint64};
use sevenz::parser::parsers::streams_info::pack_info;
use sevenz::parser::types::coders_info::{Coder, Folder};
use sevenz::parser::types::property_id::PropertyID;
use sevenz::parser::types::PackInfo;

fn repack(bits: &Bits) -> Vec<u8> {
    let mut bytes = vec![0u8; (bits.len() + 7) / 8];
    for i in 0..bits.len() {
        if bits.get(i) {
            bytes[i / 8] |= 0x80 >> (i % 8);
        }
    }
    bytes
}

#[test]
fn taken_bits_repack_to_the_bytes_they_came_from() {
    let source = [0xa5u8, 0x3c, 0xff, 0x00, 0x81, 0x7e];
    for n in 0..=8 * source.len() {
        let (rest, bits) = take_bitvec(&source, n).unwrap();
        let used = (n + 7) / 8;
        assert_eq!(bits.len(), n);
        assert_eq!(rest, &source[used..]);
        let packed = repack(&bits);
        assert_eq!(packed.len(), used);
        for j in 0..used {
            let kept = n - 8 * j;
            let mask: u8 = if kept >= 8 { 0xff } else { 0xffu8 << (8 - kept) };
            assert_eq!(packed[j], source[j] & mask);
        }
    }
}

#[test]
fn taken_bits_are_most_significant_first() {
    let (rest, bits) = take_bitvec(&[0b1100_1010, 0b0111_0000], 11).unwrap();
    assert_eq!(rest.len(), 0);
    let expected = [true, true, false, false, true, false, true, false, false, true, true];
    assert_eq!(bits, Bits::from_bools(&expected).unwrap());
    assert_eq!(bits.count_ones(), 6);
}

#[test]
fn packed_integers_round_trip() {
    let mut values: Vec<u64> = vec![0, 1, 42, 127, 128, 3882, u64::MAX, u64::MAX - 1];
    for k in 1..=8u32 {
        let edge: u64 = if k < 8 { 1u64 << (7 * k + 7) } else { 1u64 << 63 };
        values.push(edge - 1);
        values.push(edge);
        values.push(edge + 1);
        values.push(1u64 << (8 * k - 1));
    }
    for v in values {
        let mut bytes = encode_sevenz_uint64(v);
        let len = bytes.len();
        assert!(1 <= len && len <= 9);
        bytes.extend_from_slice(&[0xaa, 0xbb]);
        let (rest, decoded) = sevenz_uint64(&bytes).unwrap();
        assert_eq!(decoded, v);
        assert_eq!(rest, &[0xaa, 0xbb]);
        assert_eq!(bytes.len() - rest.len(), len);
    }
}

#[test]
fn packed_integers_have_these_encodings() {
    assert_eq!(encode_sevenz_uint64(0), vec![0x00]);
    assert_eq!(encode_sevenz_uint64(127), vec![0x7f]);
    assert_eq!(encode_sevenz_uint64(128), vec![0x80, 0x80]);
    assert_eq!(encode_sevenz_uint64(3882), vec![0x8f, 0x2a]);
    assert_eq!(encode_sevenz_uint64(0x3fff), vec![0xbf, 0xff]);
    assert_eq!(encode_sevenz_uint64(0x4000), vec![0xc0, 0x00, 0x40]);
    assert_eq!(
        encode_sevenz_uint64((1 << 56) - 1),
        vec![0xfe, 0xff, 0xff, 0xff, 0xff, 0xff, 0xff, 0xff]
    );
    assert_eq!(
        encode_sevenz_uint64(1 << 56),
        vec![0xff, 0x00, 0x00, 0x00, 0x00, 0x00, 0x00, 0x00, 0x01]
    );
    assert_eq!(
        encode_sevenz_uint64(u64::MAX),
        vec![0xff, 0xff, 0xff, 0xff, 0xff, 0xff, 0xff, 0xff, 0xff]
    );
}

#[test]
fn packed_integers_decode_to_these_values() {
    let cases: Vec<(Vec<u8>, u64)> = vec![
        (vec![0x7f], 127),
        (vec![0x80, 0x2a], 42),
        (vec![0x8f, 0x2a], 3882),
        (vec![0xc1, 0x34, 0x12], 0x011234),
        (vec![0xe0, 0x01, 0x02, 0x03], 0x030201),
        (vec![0xfe, 1, 2, 3, 4, 5, 6, 7], 0x07060504030201),
        // With eight leading ones the first byte holds nothing of the value.
        (vec![0xff, 1, 2, 3, 4, 5, 6, 7, 8], 0x0807060504030201),
    ];
    for (bytes, value) in cases {
        let (rest, decoded) = sevenz_uint64(&bytes).unwrap();
        assert_eq!(decoded, value);
        assert_eq!(rest.len(), 0);
    }
}

#[test]
fn checksum_of_the_check_string() {
    assert_eq!(sevenz_crc(b"123456789"), 0xCBF43926);
    assert_eq!(sevenz_crc(b"123456789"), sevenz_crc(b"123456789"));
    assert_eq!(sevenz_crc(b""), 0);
    assert_eq!(sevenz_crc(b"This is a test\n"), 0xfac02d8c);
}

#[test]
fn checksums_are_compared() {
    assert_eq!(verify(7, 7), Ok(()));
    assert_eq!(verify(7, 8), Err(SevenZParserErrorKind::Crc { expected: 7, actual: 8 }));
}

#[test]
fn pack_info_without_streams() {
    let input = [0x06, 0x00, 0x00, 0x00, 0x07];
    let (rest, info) = pack_info(&input).unwrap();
    assert_eq!(
        info,
        PackInfo { pack_pos: 0, num_pack_streams: 0, sizes: None, crcs: None }
    );
    // Nothing was read for the sizes and the checksums: four bytes are gone.
    assert_eq!(rest, &[0x07]);
}

#[test]
fn pack_info_with_sizes_and_checksums() {
    let input = [
        0x06, 0x20, 0x02, 0x09, 0x05, 0x80, 0x80, 0x0a, 0x01, 0x00, 0x00, 0x00, 0xef, 0xbe, 0xad,
        0xde, 0x00,
    ];
    let (rest, info) = pack_info(&input).unwrap();
    assert_eq!(
        info,
        PackInfo {
            pack_pos: 32,
            num_pack_streams: 2,
            sizes: Some(vec![5, 128]),
            crcs: Some(vec![1, 0xdeadbeef]),
        }
    );
    assert_eq!(rest.len(), 0);
}

#[test]
fn folder_of_one_simple_coder() {
    let input = [0x01, 0x10, 0x00, 0x00, 0xee];
    let (rest, res) = folder(&input).unwrap();
    assert_eq!(
        res,
        Folder {
            coders: vec![Coder { complex: None, attrs: None, id: vec![0] }],
            bind_pairs: vec![],
            packed_streams_indices: Some(vec![0]),
        }
    );
    assert_eq!(rest, &[0xee]);
}

#[test]
fn folder_of_two_bound_coders() {
    // Two coders; the second takes two inputs. One bind pair, two packed
    // streams.
    let input = [
        0x02, 0x14, 0x21, 0x01, 0x5d, 0x18, 0x03, 0x02, 0x01, 0x01, 0x00, 0x00, 0x02,
    ];
    let (rest, res) = folder(&input).unwrap();
    assert_eq!(res.coders.len(), 2);
    assert_eq!(res.coders[0].id, vec![0x21]);
    assert_eq!(res.coders[0].attrs, Some(vec![0x5d]));
    assert_eq!(res.coders[1].id, vec![0x03]);
    assert_eq!(res.coders[1].complex.unwrap().num_in_streams, 2);
    assert_eq!(res.coders[1].complex.unwrap().num_out_streams, 1);
    assert_eq!(res.bind_pairs, vec![(1, 0)]);
    assert_eq!(res.packed_streams_indices, Some(vec![0, 2]));
    assert_eq!(rest.len(), 0);
}

#[test]
fn dummy_with_a_byte_that_is_not_zero() {
    let input = [0x05, 0x01, 0x19, 0x02, 0x00, 0x01, 0x00];
    assert_eq!(
        files_info(&input).unwrap_err(),
        SevenZParserError {
            kind: SevenZParserErrorKind::DummyNotAllZeroes,
            section: Some(PropertyID::FilesInfo),
            remaining: 3,
        }
    );
    let input = [0x05, 0x01, 0x19, 0x02, 0x00, 0x00, 0x00];
    let (rest, info) = files_info(&input).unwrap();
    assert_eq!(info.num_files, 1);
    assert_eq!(info.properties.len(), 0);
    assert_eq!(rest.len(), 0);
}
