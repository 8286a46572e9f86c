use sevenz::parser::err::{
    SevenZConversionError, SevenZParserError, SevenZParserErrorKind, UnsupportedFeature,
};
use sevenz::parser::interface::archive::HighLevelArchive;
use sevenz::parser::interface::file::File;
use sevenz::parser::interface::parse;
use sevenz::parser::interface::streams::FileStreamInfo;
use sevenz::parser::types::coders_info::{Coder, CoderComplex, CodersInfo, Folder};
use sevenz::parser::types::files_info::{FilesInfo, FilesProperty};
use sevenz::parser::types::header::{
    ArchiveVersion, Header, HeaderInfo, PackedHeader, SignatureHeader, StartHeader,
};
use sevenz::parser::types::property_id::PropertyID;
use sevenz::parser::types::streams_info::StreamsInfo;
use sevenz::parser::types::Archive;
use sevenz::parser::types::Either::{Left, Right};

fn uncompressed_archive() -> Vec<u8> {
    vec![
        0x37, 0x7a, 0xbc, 0xaf, 0x27, 0x1c, 0x00, 0x04, 0xb1, 0xfd, 0x8b, 0x00,
        0x13, 0x00, 0x00, 0x00, 0x00, 0x00, 0x00, 0x00, 0x5a, 0x00, 0x00, 0x00,
        0x00, 0x00, 0x00, 0x00, 0x35, 0x99, 0xd5, 0x39, 0x01, 0x00, 0x0e, 0x54,
        0x68, 0x69, 0x73, 0x20, 0x69, 0x73, 0x20, 0x61, 0x20, 0x74, 0x65, 0x73,
        0x74, 0x0a, 0x00, 0x01, 0x04, 0x06, 0x00, 0x01, 0x09, 0x13, 0x00, 0x07,
        0x0b, 0x01, 0x00, 0x01, 0x21, 0x21, 0x01, 0x00, 0x0c, 0x0f, 0x00, 0x08,
        0x0a, 0x01, 0x8c, 0x2d, 0xc0, 0xfa, 0x00, 0x00, 0x05, 0x01, 0x19, 0x0c,
        0x00, 0x00, 0x00, 0x00, 0x00, 0x00, 0x00, 0x00, 0x00, 0x00, 0x00, 0x00,
        0x11, 0x13, 0x00, 0x74, 0x00, 0x65, 0x00, 0x73, 0x00, 0x74, 0x00, 0x2e,
        0x00, 0x74, 0x00, 0x78, 0x00, 0x74, 0x00, 0x00, 0x00, 0x19, 0x00, 0x14,
        0x0a, 0x01, 0x00, 0x80, 0xa5, 0xbe, 0x39, 0xc6, 0x79, 0xd7, 0x01, 0x15,
        0x06, 0x01, 0x00, 0x20, 0x80, 0xa4, 0x81, 0x00, 0x00,
    ]
}
fn stored_archive() -> Vec<u8> {
    vec![
        0x37, 0x7a, 0xbc, 0xaf, 0x27, 0x1c, 0x00, 0x04, 0x68, 0x04, 0x32, 0x9c,
        0x0f, 0x00, 0x00, 0x00, 0x00, 0x00, 0x00, 0x00, 0x4f, 0x00, 0x00, 0x00,
        0x00, 0x00, 0x00, 0x00, 0xbd, 0xa5, 0xd5, 0xde, 0x54, 0x68, 0x69, 0x73,
        0x20, 0x69, 0x73, 0x20, 0x61, 0x20, 0x74, 0x65, 0x73, 0x74, 0x0a, 0x01,
        0x04, 0x06, 0x00, 0x01, 0x09, 0x0f, 0x00, 0x07, 0x0b, 0x01, 0x00, 0x01,
        0x10, 0x00, 0x00, 0x0c, 0x0f, 0x00, 0x08, 0x0a, 0x8c, 0x2d, 0xc0, 0xfa,
        0x00, 0x00, 0x05, 0x01, 0x19, 0x03, 0x00, 0x00, 0x00, 0x11, 0x13, 0x00,
        0x74, 0x00, 0x65, 0x00, 0x73, 0x00, 0x74, 0x00, 0x2e, 0x00, 0x74, 0x00,
        0x78, 0x00, 0x74, 0x00, 0x00, 0x00, 0x19, 0x00, 0x14, 0x0a, 0x01, 0x00,
        0x80, 0xa5, 0xbe, 0x39, 0xc6, 0x79, 0xd7, 0x01, 0x15, 0x06, 0x01, 0x00,
        0x20, 0x80, 0xa4, 0x81, 0x00, 0x00,
    ]
}
fn simple_folder(id: Vec<u8>) -> Folder {
    Folder {
        coders: vec![Coder { complex: None, attrs: None, id }],
        bind_pairs: vec![],
        packed_streams_indices: Some(vec![0]),
    }
}

#[test]
fn get_file_streams_info() {
    let ci = CodersInfo {
        num_folders: 1,
        folders_or_data_stream_index: Right(vec![Folder {
            coders: vec![Coder {
                complex: None,
                attrs: None,
                id: vec![33, 1],
            }],
            bind_pairs: vec![],
            packed_streams_indices: Some(vec![0]),
        }]),
        streams_unpack_sizes: vec![15],
        folders_unpack_digests: None,
    };
    let expected = vec![FileStreamInfo {
        coder: Coder {
            complex: None,
            attrs: None,
            id: vec![33, 1],
        },
        offset: 0,
        size: 15,
        crc: 0,
    }];

    let res = sevenz::parser::get_file_streams_info(&ci).unwrap();

    assert_eq!(res, expected);
}

#[test]
fn streams_follow_one_another() {
    let ci = CodersInfo {
        num_folders: 3,
        folders_or_data_stream_index: Right(vec![
            simple_folder(vec![0]),
            simple_folder(vec![33, 1]),
            simple_folder(vec![0]),
        ]),
        streams_unpack_sizes: vec![15, 7, 100],
        folders_unpack_digests: Some(vec![11, 22, 33]),
    };
    let res = sevenz::parser::interface::streams::get_file_streams_info(&ci).unwrap();
    assert_eq!(res.len(), 3);
    assert_eq!((res[0].offset, res[0].size, res[0].crc), (0, 15, 11));
    assert_eq!((res[1].offset, res[1].size, res[1].crc), (15, 7, 22));
    assert_eq!((res[2].offset, res[2].size, res[2].crc), (22, 100, 33));
    assert_eq!(res[1].coder.id, vec![33, 1]);
}

#[test]
fn streams_that_are_not_supported() {
    let get = sevenz::parser::interface::streams::get_file_streams_info;
    let external = CodersInfo {
        num_folders: 1,
        folders_or_data_stream_index: Left(4),
        streams_unpack_sizes: vec![],
        folders_unpack_digests: None,
    };
    assert_eq!(
        get(&external),
        Err(SevenZParserErrorKind::Unsupported(UnsupportedFeature::ExternalData))
    );
    let two_coders = CodersInfo {
        num_folders: 1,
        folders_or_data_stream_index: Right(vec![Folder {
            coders: vec![
                Coder { complex: None, attrs: None, id: vec![0] },
                Coder { complex: None, attrs: None, id: vec![3] },
            ],
            bind_pairs: vec![(1, 0)],
            packed_streams_indices: Some(vec![0]),
        }]),
        streams_unpack_sizes: vec![5, 6],
        folders_unpack_digests: None,
    };
    assert_eq!(
        get(&two_coders),
        Err(SevenZParserErrorKind::Unsupported(UnsupportedFeature::MultiCoderFolder))
    );
    let complex = CodersInfo {
        num_folders: 1,
        folders_or_data_stream_index: Right(vec![Folder {
            coders: vec![Coder {
                complex: Some(CoderComplex { num_in_streams: 1, num_out_streams: 1 }),
                attrs: None,
                id: vec![0],
            }],
            bind_pairs: vec![],
            packed_streams_indices: Some(vec![0]),
        }]),
        streams_unpack_sizes: vec![5],
        folders_unpack_digests: None,
    };
    assert_eq!(
        get(&complex),
        Err(SevenZParserErrorKind::Unsupported(UnsupportedFeature::ComplexCoder))
    );
    let too_far = CodersInfo {
        num_folders: 3,
        folders_or_data_stream_index: Right(vec![
            simple_folder(vec![0]),
            simple_folder(vec![0]),
            simple_folder(vec![0]),
        ]),
        streams_unpack_sizes: vec![u64::MAX, 1, 1],
        folders_unpack_digests: None,
    };
    assert_eq!(
        get(&too_far),
        Err(SevenZParserErrorKind::ConversionFailure(SevenZConversionError::ToUsize))
    );
}

fn two_files() -> (FilesInfo, CodersInfo) {
    let fi = FilesInfo {
        num_files: 2,
        properties: vec![
            FilesProperty::MTime(vec![Some(Right(5)), None]),
            FilesProperty::Names(vec![Right(String::from("a")), Right(String::from("b"))]),
            FilesProperty::CTime(vec![None, Some(Right(6))]),
            FilesProperty::MTime(vec![Some(Right(99)), Some(Right(99))]),
        ],
    };
    let ci = CodersInfo {
        num_folders: 2,
        folders_or_data_stream_index: Right(vec![simple_folder(vec![0]), simple_folder(vec![0])]),
        streams_unpack_sizes: vec![3, 4],
        folders_unpack_digests: None,
    };
    (fi, ci)
}

fn archive_of(fi: Option<FilesInfo>, ci: Option<CodersInfo>) -> Archive {
    Archive {
        signature_header: SignatureHeader {
            archive_version: ArchiveVersion { major: 0, minor: 4 },
            start_header_crc: 0,
            start_header: StartHeader {
                next_header_offset: 0,
                next_header_size: 0,
                next_header_crc: 0,
            },
        },
        header_or_packed_header: Left(Header {
            archive_properties: None,
            additional_streams: None,
            main_streams: Some(StreamsInfo {
                pack_info: None,
                coders_info: ci,
                substreams_info: None,
            }),
            files: fi,
        }),
    }
}

#[test]
fn files_from_their_properties() {
    let (fi, ci) = two_files();
    let first = File::from_files_and_coders_info(&fi, &ci, 0).unwrap();
    assert_eq!(first.name, "a");
    assert_eq!((first.ctime, first.atime, first.mtime), (None, None, Some(5)));
    assert_eq!((first.stream.offset, first.stream.size), (0, 3));
    let second = File::from_files_and_coders_info(&fi, &ci, 1).unwrap();
    assert_eq!(second.name, "b");
    assert_eq!((second.ctime, second.atime, second.mtime), (Some(6), None, None));
    assert_eq!((second.stream.offset, second.stream.size), (3, 4));

    let archive = HighLevelArchive::from_low_level_archive(&archive_of(Some(fi), Some(ci)));
    assert_eq!(archive.unwrap().files, vec![first, second]);
}

#[test]
fn files_that_are_not_supported() {
    let (mut fi, ci) = two_files();
    fi.properties[2] = FilesProperty::CTime(vec![None, Some(Left(1))]);
    assert!(File::from_files_and_coders_info(&fi, &ci, 0).is_ok());
    assert_eq!(
        File::from_files_and_coders_info(&fi, &ci, 1),
        Err(SevenZParserErrorKind::Unsupported(UnsupportedFeature::ExternalData))
    );
    assert_eq!(
        HighLevelArchive::from_low_level_archive(&archive_of(Some(fi), Some(ci))),
        Err(SevenZParserErrorKind::Unsupported(UnsupportedFeature::ExternalData))
    );

    let (mut fi, ci) = two_files();
    fi.properties[1] = FilesProperty::Names(vec![Left(3), Left(3)]);
    assert_eq!(
        File::from_files_and_coders_info(&fi, &ci, 0),
        Err(SevenZParserErrorKind::Unsupported(UnsupportedFeature::ExternalData))
    );

    // More files than folders.
    let (fi, mut ci) = two_files();
    ci.num_folders = 1;
    ci.folders_or_data_stream_index = Right(vec![simple_folder(vec![0])]);
    ci.streams_unpack_sizes = vec![3];
    assert!(File::from_files_and_coders_info(&fi, &ci, 0).is_ok());
    assert_eq!(
        File::from_files_and_coders_info(&fi, &ci, 1),
        Err(SevenZParserErrorKind::Unsupported(UnsupportedFeature::SubStreams))
    );
    let (fi, _) = two_files();
    assert_eq!(
        HighLevelArchive::from_low_level_archive(&archive_of(Some(fi), None)),
        Err(SevenZParserErrorKind::Unsupported(UnsupportedFeature::SubStreams))
    );

    let mut packed = archive_of(None, None);
    packed.header_or_packed_header = Right((PackedHeader {}, HeaderInfo {}));
    assert_eq!(
        HighLevelArchive::from_low_level_archive(&packed),
        Err(SevenZParserErrorKind::Unsupported(UnsupportedFeature::EncodedHeader))
    );
}

#[test]
fn archives_without_files() {
    let empty = HighLevelArchive { files: vec![] };
    assert_eq!(HighLevelArchive::from_low_level_archive(&archive_of(None, None)), Ok(empty.clone()));
    let nameless = FilesInfo { num_files: 2, properties: vec![] };
    let (_, ci) = two_files();
    assert_eq!(
        HighLevelArchive::from_low_level_archive(&archive_of(Some(nameless), Some(ci))),
        Ok(empty)
    );
}

#[test]
fn raw_bytes_of_a_file() {
    let (fi, ci) = two_files();
    let second = File::from_files_and_coders_info(&fi, &ci, 1).unwrap();
    let data: Vec<u8> = (0u8..40).collect();
    assert!(second.stream_within(&data));
    assert_eq!(second.subslice_raw(&data), &[35, 36, 37, 38]);
    assert!(second.stream_within(&data[..39]));
    assert!(!second.stream_within(&data[..38]));
    assert!(!second.stream_within(&data[..10]));
}

#[test]
fn parse_of_a_stored_file() {
    let archive = parse(&stored_archive()).unwrap();
    assert_eq!(
        archive.files,
        vec![File {
            ctime: None,
            atime: None,
            mtime: Some(132708606310000000),
            name: String::from("test.txt"),
            stream: FileStreamInfo {
                coder: Coder { complex: None, attrs: None, id: vec![0] },
                offset: 0,
                size: 15,
                crc: 0,
            },
        }]
    );
}

#[test]
fn parse_of_the_archive_as_the_tool_wrote_it() {
    assert_eq!(
        parse(&uncompressed_archive()),
        Err(SevenZParserError {
            kind: SevenZParserErrorKind::InvalidPropertyID(0xfa),
            section: Some(PropertyID::SubStreamsInfo),
            remaining: 64,
        })
    );
}

#[test]
fn errors_count_the_bytes_behind_the_header() {
    let mut longer = uncompressed_archive();
    longer.extend_from_slice(&[1, 2, 3]);
    assert_eq!(
        parse(&longer),
        Err(SevenZParserError {
            kind: SevenZParserErrorKind::InvalidPropertyID(0xfa),
            section: Some(PropertyID::SubStreamsInfo),
            remaining: 67,
        })
    );
    assert_eq!(longer[longer.len() - 67], 0xfa);
}

#[test]
fn a_corrupt_start_header_is_a_checksum_mismatch() {
    for archive in [uncompressed_archive(), stored_archive()] {
        let stored = u32::from_le_bytes([archive[8], archive[9], archive[10], archive[11]]);
        for i in 12..32 {
            for flip in [0x01u8, 0x80, 0xff] {
                let mut corrupt = archive.clone();
                corrupt[i] ^= flip;
                let actual = sevenz::parser::crc::sevenz_crc(&corrupt[12..32]);
                assert_ne!(actual, stored);
                assert_eq!(
                    parse(&corrupt),
                    Err(SevenZParserError {
                        kind: SevenZParserErrorKind::Crc { expected: stored, actual },
                        section: None,
                        remaining: archive.len() - 12,
                    })
                );
                // Nothing behind the start header is looked at.
                assert_eq!(
                    parse(&corrupt[..32]),
                    Err(SevenZParserError {
                        kind: SevenZParserErrorKind::Crc { expected: stored, actual },
                        section: None,
                        remaining: 20,
                    })
                );
            }
        }
        let mut corrupt = archive.clone();
        corrupt[9] ^= 0x10;
        assert!(matches!(
            parse(&corrupt),
            Err(SevenZParserError { kind: SevenZParserErrorKind::Crc { .. }, .. })
        ));
    }
}

#[test]
fn a_corrupt_header_is_a_checksum_mismatch() {
    let archive = stored_archive();
    let header_at = 32 + 15;
    for i in header_at..archive.len() {
        let mut corrupt = archive.clone();
        corrupt[i] ^= 0x04;
        let actual = sevenz::parser::crc::sevenz_crc(&corrupt[header_at..]);
        assert_eq!(
            parse(&corrupt),
            Err(SevenZParserError {
                kind: SevenZParserErrorKind::Crc { expected: 3738543549, actual },
                section: None,
                remaining: archive.len() - header_at,
            })
        );
    }
}

#[test]
fn a_header_that_lies_outside_the_archive() {
    let archive = stored_archive();
    assert_eq!(
        parse(&archive[..archive.len() - 1]),
        Err(SevenZParserError {
            kind: SevenZParserErrorKind::Truncated,
            section: None,
            remaining: archive.len() - 33,
        })
    );
    // Bytes behind the header are left alone, and counted with an error.
    let mut longer = archive.clone();
    longer.extend_from_slice(&[1, 2, 3]);
    assert_eq!(parse(&longer), parse(&archive));
    let (rest, _) = sevenz::parser::parsers::header::archive(&longer).unwrap();
    assert_eq!(rest, &[1, 2, 3]);
}
