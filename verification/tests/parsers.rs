use sevenz::parser::bits::Bits;
use sevenz::parser::err::{SevenZParserError, SevenZParserErrorKind};
use sevenz::parser::parsers;
use sevenz::parser::types::coders_info::{Coder, CodersInfo, Folder};
use sevenz::parser::types::files_info::{FilesInfo, FilesProperty};
use sevenz::parser::types::header::{ArchiveVersion, Header, SignatureHeader, StartHeader};
use sevenz::parser::types::property_id::PropertyID;
use sevenz::parser::types::streams_info::{StreamsInfo, SubStreamsInfo};
use sevenz::parser::types::Either::{Left, Right};
use sevenz::parser::types::{Archive, PackInfo};

/// A single-file archive as a 7z tool writes it: `test.txt`, fifteen bytes.
fn uncompressed_archive() -> Vec<u8> {
    vec![
        0x37, 0x7a, 0xbc, 0xaf, 0x27, 0x1c, 0x00, 0x04, 0xb1, 0xfd, 0x8b, 0x00,
        0x13, 0x00, 0x00, 0x00, 0x00, 0x00, 0x00, 0x00, 0x5a, 0x00, 0x00, 0x00,
        0x00, 0x00, 0x00, 0x00, 0x35, 0x99, 0xd5, 0x39, 0x01, 0x00, 0x0e, 0x54,
        0x68, 0x69, 0x73, 0x20, 0x69, 0x73, 0x20, 0x61, 0x20, 0x74, 0x65, 0x73,
        0x74, 0x0a, 0x00, 0x01, 0x04, 0x06, 0x00, 0x01, 0x09, 0x13, 0x00, 0x07,
        0x0b, 0x01, 0x00, 0x01, 0x21, 0x21, 0x01, 0x00, 0x0c, 0x0f, 0x00, 0x08,
        0x0a, 0x01, 0x8c, 0x2d, 0xc0, 0xfa, 0x00, 0x00, 0x05, 0x01, 0x19, 0x0c,
        0x00, 0x00, 0x00, 0x00, 0x00, 0x00, 0x00, 0x00, 0x00, 0x00, 0x00, 0x00,
        0x11, 0x13, 0x00, 0x74, 0x00, 0x65, 0x00, 0x73, 0x00, 0x74, 0x00, 0x2e,
        0x00, 0x74, 0x00, 0x78, 0x00, 0x74, 0x00, 0x00, 0x00, 0x19, 0x00, 0x14,
        0x0a, 0x01, 0x00, 0x80, 0xa5, 0xbe, 0x39, 0xc6, 0x79, 0xd7, 0x01, 0x15,
        0x06, 0x01, 0x00, 0x20, 0x80, 0xa4, 0x81, 0x00, 0x00,
    ]
}
/// The same file in an archive laid out as this library reads it: the coder
/// is the copy codec, and the substreams carry one digest.
fn stored_archive() -> Vec<u8> {
    vec![
        0x37, 0x7a, 0xbc, 0xaf, 0x27, 0x1c, 0x00, 0x04, 0x68, 0x04, 0x32, 0x9c,
        0x0f, 0x00, 0x00, 0x00, 0x00, 0x00, 0x00, 0x00, 0x4f, 0x00, 0x00, 0x00,
        0x00, 0x00, 0x00, 0x00, 0xbd, 0xa5, 0xd5, 0xde, 0x54, 0x68, 0x69, 0x73,
        0x20, 0x69, 0x73, 0x20, 0x61, 0x20, 0x74, 0x65, 0x73, 0x74, 0x0a, 0x01,
        0x04, 0x06, 0x00, 0x01, 0x09, 0x0f, 0x00, 0x07, 0x0b, 0x01, 0x00, 0x01,
        0x10, 0x00, 0x00, 0x0c, 0x0f, 0x00, 0x08, 0x0a, 0x8c, 0x2d, 0xc0, 0xfa,
        0x00, 0x00, 0x05, 0x01, 0x19, 0x03, 0x00, 0x00, 0x00, 0x11, 0x13, 0x00,
        0x74, 0x00, 0x65, 0x00, 0x73, 0x00, 0x74, 0x00, 0x2e, 0x00, 0x74, 0x00,
        0x78, 0x00, 0x74, 0x00, 0x00, 0x00, 0x19, 0x00, 0x14, 0x0a, 0x01, 0x00,
        0x80, 0xa5, 0xbe, 0x39, 0xc6, 0x79, 0xd7, 0x01, 0x15, 0x06, 0x01, 0x00,
        0x20, 0x80, 0xa4, 0x81, 0x00, 0x00,
    ]
}
fn bits(values: &[u8]) -> Bits {
    let bools: Vec<bool> = values.iter().map(|v| *v != 0).collect();
    Bits::from_bools(&bools).unwrap()
}

#[test]
fn archive_version() {
    let input = uncompressed_archive();
    let (_, res) = parsers::archive_version(&input[6..]).unwrap();

    let expected = ArchiveVersion { major: 0, minor: 4 };

    assert_eq!(res, expected);
}

#[test]
fn signature_header() {
    let input = uncompressed_archive();
    let (_, res) = parsers::signature_header(&input).unwrap();

    let expected_version = ArchiveVersion { major: 0, minor: 4 };
    let expected_start_header = StartHeader {
        next_header_offset: 19,
        next_header_size: 90,
        next_header_crc: 970299701,
    };
    let expected_res = SignatureHeader {
        archive_version: expected_version,
        start_header_crc: 9174449,
        start_header: expected_start_header,
    };

    assert_eq!(res, expected_res);
}

#[test]
fn sevenz_uint64() {
    let test_cases: &[([u8; 8], u64, usize)] = &[
        ([0; 8], 0, 7),
        ([0b0111_1111; 8], 127, 7),
        ([0b1000_0000, 42, 0, 0, 0, 0, 0, 0], 42, 6),
        ([0b1000_1111, 42, 0, 0, 0, 0, 0, 0], 3882, 6),
    ];

    for (input, expected, expected_len_remaining) in test_cases {
        let (remainder, res) = parsers::sevenz_uint64::sevenz_uint64(input).unwrap();

        assert_eq!(res, *expected);
        assert_eq!(remainder.len(), *expected_len_remaining);
    }
}

#[test]
fn take_bitvec() {
    let test_cases: Vec<([u8; 10], usize, usize, Bits)> = vec![
        ([0; 10], 0, 10, bits(&[])),
        (
            [0b0001_0000, 0, 0, 0, 0, 0, 0, 0, 0, 0],
            4,
            9,
            bits(&[0, 0, 0, 1]),
        ),
        (
            [0b0000_0001, 0, 0, 0, 0, 0, 0, 0, 0, 0],
            8,
            9,
            bits(&[0, 0, 0, 0, 0, 0, 0, 1]),
        ),
        (
            [0b1011_0000, 0, 0, 0, 0, 0, 0, 0, 0, 0],
            4,
            9,
            bits(&[1, 0, 1, 1]),
        ),
        (
            [0b1000_0010, 0, 0, 0, 0, 0, 0, 0, 0, 0],
            8,
            9,
            bits(&[1, 0, 0, 0, 0, 0, 1, 0]),
        ),
        (
            [0b0101_1111, 0, 0, 0, 0, 0, 0, 0, 0, 0],
            5,
            9,
            bits(&[0, 1, 0, 1, 1]),
        ),
        (
            [0b1000_0010, 0b0010_0010, 0, 0, 0, 0, 0, 0, 0, 0],
            16,
            8,
            bits(&[1, 0, 0, 0, 0, 0, 1, 0, 0, 0, 1, 0, 0, 0, 1, 0]),
        ),
        (
            [0b1000_0010, 0b0010_0010, 0b1001_1111, 0, 0, 0, 0, 0, 0, 0],
            20,
            7,
            bits(&[1, 0, 0, 0, 0, 0, 1, 0, 0, 0, 1, 0, 0, 0, 1, 0, 1, 0, 0, 1]),
        ),
        (
            [
                0b1000_0010,
                0b0010_0010,
                0b1001_1111,
                0,
                0,
                0,
                0,
                0b0101_1011,
                0b1011_0100,
                0,
            ],
            72,
            1,
            bits(&[
                1, 0, 0, 0, 0, 0, 1, 0, 0, 0, 1, 0, 0, 0, 1, 0, 1, 0, 0, 1, 1, 1, 1, 1, 0, 0, 0, 0,
                0, 0, 0, 0, 0, 0, 0, 0, 0, 0, 0, 0, 0, 0, 0, 0, 0, 0, 0, 0, 0, 0, 0, 0, 0, 0, 0, 0,
                0, 1, 0, 1, 1, 0, 1, 1, 1, 0, 1, 1, 0, 1, 0, 0,
            ]),
        ),
    ];

    for (input, num_bits, bytes_remaining, expected) in &test_cases {
        let (remainder, res) = parsers::bit::take_bitvec(input, *num_bits).unwrap();
        assert_eq!(remainder.len(), *bytes_remaining);
        assert_eq!(res, *expected);
    }
}

#[test]
fn pack_info() {
    let input = uncompressed_archive();
    let expected = PackInfo {
        pack_pos: 0,
        num_pack_streams: 1,
        sizes: Some(vec![19]),
        crcs: None,
    };

    // Cut parts not relevant here
    let input = &input[53..];
    let (_, res) = parsers::streams_info::pack_info(input).unwrap();
    assert_eq!(res, expected);
}

#[test]
fn coders_info() {
    let input = uncompressed_archive();
    let expected = CodersInfo {
        num_folders: 1,
        folders_or_data_stream_index: Right(vec![Folder {
            coders: vec![Coder {
                complex: None,
                attrs: None,
                id: vec![33, 1],
            }],
            bind_pairs: vec![],
            packed_streams_indices: Some(vec![0]),
        }]),
        streams_unpack_sizes: vec![15],
        folders_unpack_digests: None,
    };

    // Cut parts not relevant here
    let input = &input[59..];
    let (_, res) = parsers::coders_info::coders_info(input).unwrap();

    assert_eq!(res, expected);
}

#[test]
fn substreams_info() {
    let input = uncompressed_archive();
    let expected = SubStreamsInfo {
        num_unpack_streams_in_folders: None,
        unpack_sizes: None,
        unknown_digests: Some(vec![3224210433, 83886330, 792833]),
    };

    // Cut parts not relevant here
    let input = &input[71..];
    let (_, res) = parsers::streams_info::substreams_info(input, 1, 3).unwrap();

    assert_eq!(res, expected);
}

#[test]
fn streams_info() {
    // The one folder carries no digest, so one digest is read for it. In the
    // archive as the tool wrote it a flag byte stands before the digest, and
    // the marker that must end the section is not found.
    let input = uncompressed_archive();
    let res = parsers::streams_info::streams_info(&input[53..], None);
    assert_eq!(
        res.unwrap_err(),
        SevenZParserError {
            kind: SevenZParserErrorKind::InvalidPropertyID(0xfa),
            section: Some(PropertyID::SubStreamsInfo),
            remaining: 64,
        }
    );

    let input = stored_archive();
    let (rest, res) = parsers::streams_info::streams_info(&input[49..], None).unwrap();
    assert_eq!(rest.len(), input.len() - 74);
    assert_eq!(
        res.substreams_info,
        Some(SubStreamsInfo {
            num_unpack_streams_in_folders: None,
            unpack_sizes: None,
            unknown_digests: Some(vec![0xfac02d8c]),
        })
    );
    assert_eq!(res.coders_info.unwrap().num_folders, 1);
}

#[test]
fn files_info() {
    let input = uncompressed_archive();
    let expected = FilesInfo {
        num_files: 1,
        properties: vec![
            FilesProperty::Names(vec![Right(String::from("test.txt"))]),
            FilesProperty::MTime(vec![Some(Right(132708606310000000))]),
            FilesProperty::Attributes(vec![Some(Right(2175041568))]),
        ],
    };
    // Cut parts not relevant here
    let input = &input[80..];

    let (_, res) = parsers::files_info::files_info(input).unwrap();
    assert_eq!(res, expected);
}

#[test]
fn header() {
    let input = uncompressed_archive();
    // Already tested elsewhere, just here to skip ahead enough bytes
    let (input, _) = parsers::signature_header(&input).unwrap();
    // From here, header should be in 19 bytes
    let input = &input[19..];
    assert_eq!(
        parsers::header::header(input).unwrap_err(),
        SevenZParserError {
            kind: SevenZParserErrorKind::InvalidPropertyID(0xfa),
            section: Some(PropertyID::SubStreamsInfo),
            remaining: 64,
        }
    );

    let input = stored_archive();
    let (input, _) = parsers::signature_header(&input).unwrap();
    let input = &input[15..];
    let (input, hdr) = parsers::header::header(input).unwrap();
    assert_eq!(input.len(), 0);
    assert!(hdr.main_streams.is_some());
    assert_eq!(hdr.files.unwrap().num_files, 1);
}

fn expected_header(pack_size: u64, id: Vec<u8>, digests: Vec<u32>) -> Header {
    Header {
        archive_properties: None,
        additional_streams: None,
        main_streams: Some(StreamsInfo {
            pack_info: Some(PackInfo {
                pack_pos: 0,
                num_pack_streams: 1,
                sizes: Some(vec![pack_size]),
                crcs: None,
            }),
            coders_info: Some(CodersInfo {
                num_folders: 1,
                folders_or_data_stream_index: Right(vec![Folder {
                    coders: vec![Coder {
                        complex: None,
                        attrs: None,
                        id,
                    }],
                    bind_pairs: vec![],
                    packed_streams_indices: Some(vec![0]),
                }]),
                streams_unpack_sizes: vec![15],
                folders_unpack_digests: None,
            }),
            substreams_info: Some(SubStreamsInfo {
                num_unpack_streams_in_folders: None,
                unpack_sizes: None,
                unknown_digests: Some(digests),
            }),
        }),
        files: Some(FilesInfo {
            num_files: 1,
            properties: vec![
                FilesProperty::Names(vec![Right(String::from("test.txt"))]),
                FilesProperty::MTime(vec![Some(Right(132708606310000000))]),
                FilesProperty::Attributes(vec![Some(Right(2175041568))]),
            ],
        }),
    }
}

#[test]
fn archive() {
    // The archive as the tool wrote it passes both checksums and is then
    // refused in its section on substreams, 64 bytes before its end.
    let input = uncompressed_archive();
    assert_eq!(
        parsers::header::archive(&input).unwrap_err(),
        SevenZParserError {
            kind: SevenZParserErrorKind::InvalidPropertyID(0xfa),
            section: Some(PropertyID::SubStreamsInfo),
            remaining: 64,
        }
    );
    let (_, signature_header) = parsers::signature_header(&input).unwrap();
    assert_eq!(
        signature_header,
        SignatureHeader {
            archive_version: ArchiveVersion { major: 0, minor: 4 },
            start_header_crc: 9174449,
            start_header: StartHeader {
                next_header_offset: 19,
                next_header_size: 90,
                next_header_crc: 970299701,
            },
        }
    );

    let input = stored_archive();
    let expected = Archive {
        signature_header: SignatureHeader {
            archive_version: ArchiveVersion { major: 0, minor: 4 },
            start_header_crc: 2620523624,
            start_header: StartHeader {
                next_header_offset: 15,
                next_header_size: 79,
                next_header_crc: 3738543549,
            },
        },
        header_or_packed_header: Left(expected_header(15, vec![0], vec![0xfac02d8c])),
    };

    let (rest, res) = parsers::header::archive(&input).unwrap();

    assert_eq!(rest.len(), 0);
    assert_eq!(res, expected);
}

#[test]
fn test_archive_version() {
    let data = uncompressed_archive();
    let (rest, res) = parsers::archive_version(&data[6..]).unwrap();

    let expected = ArchiveVersion { major: 0, minor: 4 };

    assert_eq!(res, expected);
    assert_eq!(rest.len(), data.len() - 8);
}

#[test]
fn test_signature_header() {
    let data = uncompressed_archive();
    let (rest, res) = parsers::signature_header(&data).unwrap();

    let expected_version = ArchiveVersion { major: 0, minor: 4 };
    let expected_start_header = StartHeader {
        next_header_offset: 19,
        next_header_size: 90,
        next_header_crc: 970299701,
    };
    let expected_res = SignatureHeader {
        archive_version: expected_version,
        start_header_crc: 9174449,
        start_header: expected_start_header,
    };

    assert_eq!(res, expected_res);
    assert_eq!(rest.len(), data.len() - 32);
}

#[test]
fn test_sevenz_uint64() {
    let test_cases: &[([u8; 8], u64, usize)] = &[
        ([0; 8], 0, 7),
        ([0b0111_1111; 8], 127, 7),
        ([0b1000_0000, 42, 0, 0, 0, 0, 0, 0], 42, 6),
        ([0b1000_1111, 42, 0, 0, 0, 0, 0, 0], 3882, 6),
    ];

    for (input, expected, expected_len_remaining) in test_cases {
        let (remainder, res) = parsers::sevenz_uint64::sevenz_uint64(input).unwrap();

        assert_eq!(res, *expected);
        assert_eq!(remainder.len(), *expected_len_remaining);
        let (remainder, res) = parsers::sevenz_uint64::sevenz_uint64_as_usize(input).unwrap();
        assert_eq!(res as u64, *expected);
        assert_eq!(remainder.len(), *expected_len_remaining);
    }
}

#[test]
fn test_pack_info() {
    let input = uncompressed_archive();
    let expected = PackInfo {
        pack_pos: 0,
        num_pack_streams: 1,
        sizes: Some(vec![19]),
        crcs: None,
    };

    // Cut parts not relevant here
    let input = &input[53..];
    let (rest, res) = parsers::streams_info::pack_info(input).unwrap();
    assert_eq!(res, expected);
    assert_eq!(rest, &uncompressed_archive()[59..]);
}

#[test]
fn test_coders_info() {
    let input = uncompressed_archive();
    let expected = CodersInfo {
        num_folders: 1,
        folders_or_data_stream_index: Right(vec![Folder {
            coders: vec![Coder {
                complex: None,
                attrs: None,
                id: vec![33, 1],
            }],
            bind_pairs: vec![],
            packed_streams_indices: Some(vec![0]),
        }]),
        streams_unpack_sizes: vec![15],
        folders_unpack_digests: None,
    };

    // Cut parts not relevant here
    let input = &input[59..];
    let (rest, res) = parsers::coders_info::coders_info(input).unwrap();

    assert_eq!(res, expected);
    assert_eq!(rest, &uncompressed_archive()[71..]);
}

#[test]
fn test_substreams_info() {
    let input = uncompressed_archive();
    // Cut parts not relevant here
    let input = &input[71..];

    let (rest, _res) = parsers::streams_info::substreams_info(input, 1, 3).unwrap();
    assert_eq!(rest.len(), 141 - 86);
}

#[test]
fn test_streams_info() {
    let input = stored_archive();
    // Cut parts not relevant here
    let input = &input[49..];

    let (rest, res) = parsers::streams_info::streams_info(input, None).unwrap();
    assert_eq!(rest, &stored_archive()[74..]);
    assert_eq!(res, expected_header(15, vec![0], vec![0xfac02d8c]).main_streams.unwrap());
}

#[test]
fn test_files_info() {
    let input = uncompressed_archive();
    // Cut parts not relevant here
    let input = &input[80..];

    let (rest, res) = parsers::files_info::files_info(input).unwrap();
    assert_eq!(rest, &[0u8]);
    assert_eq!(res.num_files, 1);
    assert_eq!(res.properties.len(), 3);
}

#[test]
fn test_header() {
    let input = stored_archive();
    // Already tested elsewhere, just here to skip ahead enough bytes
    let (input, _) = parsers::signature_header(&input).unwrap();
    // From here, header should be in 15 bytes
    let input = &input[15..];
    let (input, hdr) = parsers::header::header(input).unwrap();
    assert_eq!(input.len(), 0);
    assert_eq!(hdr, expected_header(15, vec![0], vec![0xfac02d8c]));
}
