use sevenz::parser::combinators::{either, has_tag, preceded_opt};
use sevenz::parser::err::{
    SevenZConversionError, SevenZParserError, SevenZParserErrorKind, UnsupportedFeature,
};
use sevenz::parser::parsers::bit::take_bitvec;
use sevenz::parser::parsers::bytes::{byte, le_u16, le_u32, le_u64, take};
use sevenz::parser::parsers::coders_info::{coder, coders_info, folder, folder_coders, take_folders};
use sevenz::parser::parsers::files_info::files_info;
use sevenz::parser::parsers::header::{archive_properties, archive_property, header};
use sevenz::parser::parsers::sevenz_uint64::{sevenz_uint64, sevenz_uint64_as_usize};
use sevenz::parser::parsers::streams_info::{streams_info, substreams_info};
use sevenz::parser::parsers::{
    bool_byte, count_le_u32, count_sevenz_uint64, property_id, signature_header,
    tag_property_id,
};
use sevenz::parser::types::property_id::PropertyID;
use sevenz::parser::types::Either;

fn err(kind: SevenZParserErrorKind, remaining: usize) -> SevenZParserError {
    SevenZParserError { kind, section: None, remaining }
}

fn err_in(section: PropertyID, kind: SevenZParserErrorKind, remaining: usize) -> SevenZParserError {
    SevenZParserError { kind, section: Some(section), remaining }
}

#[test]
fn fixed_width_fields() {
    assert_eq!(byte(&[7, 8]).unwrap(), (&[8u8][..], 7));
    assert_eq!(le_u16(&[0x34, 0x12, 9]).unwrap(), (&[9u8][..], 0x1234));
    assert_eq!(le_u32(&[0x78, 0x56, 0x34, 0x12]).unwrap(), (&[][..], 0x12345678));
    assert_eq!(
        le_u64(&[8, 7, 6, 5, 4, 3, 2, 1, 0]).unwrap(),
        (&[0u8][..], 0x0102030405060708)
    );
    assert_eq!(take(&[1, 2, 3], 2).unwrap(), (&[3u8][..], &[1u8, 2][..]));
    assert_eq!(take(&[1, 2, 3], 0).unwrap(), (&[1u8, 2, 3][..], &[][..]));
}

#[test]
fn decoders_behind_a_marker() {
    let input = [0x09, 0x34, 0x12, 0x77];
    assert!(has_tag(&input, PropertyID::Size));
    assert!(!has_tag(&input, PropertyID::CRC));
    assert!(!has_tag(&[], PropertyID::End));
    assert_eq!(
        preceded_opt(PropertyID::Size, le_u16, &input).unwrap(),
        (&[0x77u8][..], Some(0x1234))
    );
    assert_eq!(preceded_opt(PropertyID::CRC, le_u16, &input).unwrap(), (&input[..], None));
    assert_eq!(
        preceded_opt(PropertyID::Size, le_u64, &input).unwrap_err(),
        err(SevenZParserErrorKind::Truncated, 3)
    );
    assert_eq!(preceded_opt(PropertyID::Size, le_u64, &[]).unwrap(), (&[][..], None));
}

#[test]
fn one_of_two_decoders() {
    let input = [0x09, 0x34, 0x12, 0x77];
    let first: Either<u8, u16> = Either::Left(0x09);
    let second: Either<u8, u16> = Either::Right(0x3409);
    assert_eq!(either(true, byte, le_u16, &input).unwrap(), (&input[1..], first));
    assert_eq!(either(false, byte, le_u16, &input).unwrap(), (&input[2..], second));
    assert_eq!(
        either(false, byte, le_u64, &input).unwrap_err(),
        err(SevenZParserErrorKind::Truncated, 4)
    );
    assert_eq!(either(true, byte, le_u64, &input).unwrap().1, Either::Left(0x09));
}

#[test]
fn truncated_fields() {
    assert_eq!(byte(&[]).unwrap_err(), err(SevenZParserErrorKind::Truncated, 0));
    assert_eq!(le_u16(&[1]).unwrap_err(), err(SevenZParserErrorKind::Truncated, 1));
    assert_eq!(le_u32(&[1, 2]).unwrap_err(), err(SevenZParserErrorKind::Truncated, 2));
    assert_eq!(le_u64(&[1, 2, 3, 4, 5, 6, 7]).unwrap_err(), err(SevenZParserErrorKind::Truncated, 7));
    assert_eq!(take(&[1, 2, 3], 4).unwrap_err(), err(SevenZParserErrorKind::Truncated, 3));
    assert_eq!(sevenz_uint64(&[]).unwrap_err(), err(SevenZParserErrorKind::Truncated, 0));
    // Two bytes are to follow the first; the error is where they should begin.
    assert_eq!(
        sevenz_uint64(&[0xc0, 0x01]).unwrap_err(),
        err(SevenZParserErrorKind::Truncated, 1)
    );
    assert_eq!(
        take_bitvec(&[0xff], 9).unwrap_err(),
        err(SevenZParserErrorKind::Truncated, 1)
    );
    assert_eq!(
        count_sevenz_uint64(&[1, 2], 3).unwrap_err(),
        err(SevenZParserErrorKind::Truncated, 0)
    );
    assert_eq!(
        count_le_u32(&[1, 0, 0, 0, 2, 0], 2).unwrap_err(),
        err(SevenZParserErrorKind::Truncated, 2)
    );
    assert_eq!(count_le_u32(&[1, 0, 0, 0, 2, 0], 1).unwrap(), (&[2u8, 0][..], vec![1]));
    assert_eq!(
        signature_header(&[0x37, 0x7a, 0xbc, 0xaf, 0x27]).unwrap_err(),
        err(SevenZParserErrorKind::Truncated, 5)
    );
    assert_eq!(
        coder(&[0x30, 1, 2]).unwrap_err(),
        err(SevenZParserErrorKind::Truncated, 2)
    );
    assert_eq!(
        archive_property(&[0x16, 0x03, 1, 2]).unwrap_err(),
        err(SevenZParserErrorKind::Truncated, 2)
    );
}

#[test]
fn markers() {
    for b in 0u8..=0x19 {
        let input = [b, 0xff];
        let (rest, id) = property_id(&input).unwrap();
        assert_eq!(id.byte(), b);
        assert_eq!(PropertyID::try_from(b), Ok(id));
        assert_eq!(rest, &[0xff]);
    }
    for b in 0x1au8..=0xff {
        let input = [b, 0];
        assert_eq!(
            property_id(&input).unwrap_err(),
            err(SevenZParserErrorKind::InvalidPropertyID(b), 2)
        );
        assert_eq!(PropertyID::try_from(b), Err(()));
    }
    assert_eq!(PropertyID::try_from(0x14u8), Ok(PropertyID::MTime));
    assert_eq!(PropertyID::try_from(0x17u8), Ok(PropertyID::EncodedHeader));
    assert_eq!(
        tag_property_id(&[0x06], PropertyID::PackInfo).unwrap(),
        (&[][..], PropertyID::PackInfo)
    );
    assert_eq!(
        tag_property_id(&[0x06], PropertyID::End).unwrap_err(),
        err(SevenZParserErrorKind::InvalidTag, 1)
    );
    assert_eq!(
        tag_property_id(&[0x77, 1], PropertyID::End).unwrap_err(),
        err(SevenZParserErrorKind::InvalidPropertyID(0x77), 2)
    );
    assert_eq!(
        tag_property_id(&[], PropertyID::End).unwrap_err(),
        err(SevenZParserErrorKind::Truncated, 0)
    );
}

#[test]
fn wrong_magic_bytes() {
    let mut input = vec![0x37, 0x7a, 0xbc, 0xaf, 0x27, 0x1d];
    input.extend_from_slice(&[0; 26]);
    assert_eq!(
        signature_header(&input).unwrap_err(),
        err(SevenZParserErrorKind::InvalidTag, 32)
    );
}

#[test]
fn boolean_bytes() {
    assert_eq!(bool_byte(&[0, 9]).unwrap(), (&[9u8][..], false));
    assert_eq!(bool_byte(&[1, 9]).unwrap(), (&[9u8][..], true));
    assert_eq!(
        bool_byte(&[2, 9]).unwrap_err(),
        err(SevenZParserErrorKind::InvalidBooleanByte(2), 2)
    );
    assert_eq!(
        coders_info(&[0x07, 0x0b, 0x01, 0x03]).unwrap_err(),
        err_in(PropertyID::UnPackInfo, SevenZParserErrorKind::InvalidBooleanByte(3), 1)
    );
}

#[test]
fn sizes_that_do_not_fit() {
    let overflow = SevenZParserErrorKind::ConversionFailure(SevenZConversionError::ToUsize);
    assert_eq!(take_bitvec(&[1, 2, 3], usize::MAX).unwrap_err(), err(overflow, 3));
    assert_eq!(take_bitvec(&[1, 2, 3], usize::MAX / 8 + 1).unwrap_err(), err(overflow, 3));
    // Two coders that each put out 2^64 - 1 streams.
    let mut input = vec![0x02];
    for _ in 0..2 {
        input.extend_from_slice(&[0x08, 0x01]);
        input.extend_from_slice(&[0xff; 9]);
    }
    input.push(0x55);
    assert_eq!(folder(&input).unwrap_err(), err(overflow, 1));
    assert_eq!(sevenz_uint64_as_usize(&[0x85, 0x01]).unwrap(), (&[][..], 0x501));
}

#[test]
fn counts_whose_sum_does_not_fit() {
    let overflow = SevenZParserErrorKind::ConversionFailure(SevenZConversionError::ToUsize);
    // Two folders with 2^64 - 1 substreams each, and then their sizes.
    let mut input = vec![0x08, 0x0d];
    input.extend_from_slice(&[0xff; 18]);
    input.extend_from_slice(&[0x09, 0x00]);
    assert_eq!(
        substreams_info(&input, 2, 0).unwrap_err(),
        err_in(PropertyID::SubStreamsInfo, overflow, 2)
    );
    // More files than a bit vector can hold.
    let input = [0x05, 0xff, 0, 0, 0, 0, 0, 0, 0, 0x20, 0x0e, 0x01, 0xaa];
    assert_eq!(files_info(&input).unwrap_err(), err_in(PropertyID::FilesInfo, overflow, 1));
    // Two folders whose coders put out 2^63 streams each.
    let mut input = vec![0x07, 0x0b, 0x02, 0x00];
    for _ in 0..2 {
        input.extend_from_slice(&[0x01, 0x08]);
        input.extend_from_slice(&[0xff, 0, 0, 0, 0, 0, 0, 0, 0x80]);
        input.extend_from_slice(&[0xff, 0, 0, 0, 0, 0, 0, 0, 0x80]);
    }
    let truncated = coders_info(&input).unwrap_err();
    assert_eq!(truncated, err_in(PropertyID::UnPackInfo, SevenZParserErrorKind::Truncated, 0));
}

#[test]
fn stream_counts_that_underflow() {
    // One coder without an output stream.
    assert_eq!(
        folder(&[0x01, 0x08, 0x01, 0x00, 0x55]).unwrap_err(),
        err(SevenZParserErrorKind::StreamCountUnderflow, 1)
    );
    // No coder at all.
    assert_eq!(
        folder(&[0x00, 0x55]).unwrap_err(),
        err(SevenZParserErrorKind::StreamCountUnderflow, 1)
    );
    // Two outputs, so one bind pair, and no input to bind.
    assert_eq!(
        folder(&[0x01, 0x08, 0x00, 0x02, 0x00, 0x00, 0x55]).unwrap_err(),
        err(SevenZParserErrorKind::StreamCountUnderflow, 1)
    );
    // As many inputs as bind pairs: no packed streams.
    let (rest, res) = folder(&[0x01, 0x08, 0x01, 0x02, 0x00, 0x01, 0x55]).unwrap();
    assert_eq!(res.bind_pairs, vec![(0, 1)]);
    assert_eq!(res.packed_streams_indices, None);
    assert_eq!(rest, &[0x55]);
}

#[test]
fn coders_and_folders() {
    let (rest, res) = coder(&[0x2c, 0xaa, 0xbb, 0x03, 0x80, 0x90, 0x02, 0x07, 0x08, 0x09]).unwrap();
    assert_eq!(res.id, vec![0xaa, 0xbb]);
    assert_eq!(res.complex.unwrap().num_in_streams, 3);
    assert_eq!(res.complex.unwrap().num_out_streams, 0x90);
    assert_eq!(res.attrs, Some(vec![0x07, 0x08]));
    assert_eq!(res.get_num_out_streams(), 0x90);
    assert_eq!(rest, &[0x09]);

    let (rest, res) = folder_coders(&[0x02, 0x10, 0x00, 0x00, 0x77]).unwrap();
    assert_eq!(res.len(), 2);
    assert_eq!(res[0].id, vec![0x00]);
    assert_eq!(res[1].id, Vec::<u8>::new());
    assert_eq!(res[1].get_num_out_streams(), 1);
    assert_eq!(rest, &[0x77]);

    let (rest, res) = take_folders(&[0x01, 0x10, 0x00, 0x01, 0x01, 0x10, 0x00, 0x02, 0x03], 2).unwrap();
    assert_eq!(res.len(), 2);
    assert_eq!(res[0].packed_streams_indices, Some(vec![1]));
    assert_eq!(res[1].packed_streams_indices, Some(vec![2]));
    assert_eq!(rest, &[0x03]);
    assert_eq!(
        take_folders(&[0x01, 0x10, 0x00, 0x01, 0x01], 2).unwrap_err(),
        err(SevenZParserErrorKind::Truncated, 0)
    );
}

#[test]
fn coders_info_with_digests() {
    let input = [
        0x07, 0x0b, 0x02, 0x00, 0x01, 0x10, 0x00, 0x00, 0x01, 0x10, 0x00, 0x01, 0x0c, 0x05, 0x80,
        0xff, 0x0a, 0x01, 0x00, 0x00, 0x00, 0x02, 0x00, 0x00, 0x00, 0x00, 0x99,
    ];
    let (rest, info) = coders_info(&input).unwrap();
    assert_eq!(info.num_folders, 2);
    assert_eq!(info.streams_unpack_sizes, vec![5, 255]);
    assert_eq!(info.folders_unpack_digests, Some(vec![1, 2]));
    assert_eq!(rest, &[0x99]);
}

#[test]
fn folders_in_an_auxiliary_stream() {
    assert_eq!(
        coders_info(&[0x07, 0x0b, 0x01, 0x01, 0x05, 0x0c, 0x01]).unwrap_err(),
        err_in(
            PropertyID::UnPackInfo,
            SevenZParserErrorKind::Unsupported(UnsupportedFeature::ExternalData),
            1
        )
    );
    assert_eq!(
        coders_info(&[0x07, 0x0b, 0x01, 0x01, 0x05, 0x00]).unwrap_err(),
        err_in(PropertyID::UnPackInfo, SevenZParserErrorKind::InvalidTag, 1)
    );
}

#[test]
fn counts_that_cannot_be_determined() {
    assert_eq!(
        streams_info(&[0x00], None).unwrap_err(),
        err(SevenZParserErrorKind::CouldNotDetermineNumFolders, 1)
    );
    assert_eq!(
        streams_info(&[0x06, 0x00, 0x00, 0x00, 0x00], None).unwrap_err(),
        err(SevenZParserErrorKind::CouldNotDetermineNumFolders, 1)
    );
    let (rest, info) = streams_info(&[0x00, 0x42], Some(3)).unwrap();
    assert!(info.pack_info.is_none() && info.coders_info.is_none());
    assert!(info.substreams_info.is_none());
    assert_eq!(rest, &[0x42]);
    assert_eq!(
        substreams_info(&[0x08, 0x09, 0x01, 0x00], 1, 0).unwrap_err(),
        err_in(
            PropertyID::SubStreamsInfo,
            SevenZParserErrorKind::CouldNotDetermineNumUnpackStreams,
            3
        )
    );
}

#[test]
fn substreams_with_counts_and_sizes() {
    let input = [0x08, 0x0d, 0x02, 0x01, 0x09, 0x0a, 0x0b, 0x0c, 0x0a, 0x07, 0, 0, 0, 0x00];
    let (rest, info) = substreams_info(&input, 2, 1).unwrap();
    assert_eq!(info.num_unpack_streams_in_folders, Some(vec![2, 1]));
    assert_eq!(info.unpack_sizes, Some(vec![10, 11, 12]));
    assert_eq!(info.unknown_digests, Some(vec![7]));
    assert_eq!(rest.len(), 0);
}

#[test]
fn unknown_digests_are_counted_from_the_folders() {
    // Folders with digests of their own: none are read with the substreams.
    let input = [
        0x07, 0x0b, 0x01, 0x00, 0x01, 0x10, 0x00, 0x00, 0x0c, 0x05, 0x0a, 0x09, 0, 0, 0, 0x00,
        0x08, 0x0a, 0x00, 0x00,
    ];
    let (rest, info) = streams_info(&input, None).unwrap();
    assert_eq!(info.coders_info.unwrap().folders_unpack_digests, Some(vec![9]));
    assert_eq!(info.substreams_info.unwrap().unknown_digests, Some(vec![]));
    assert_eq!(rest.len(), 0);
    // A section on folders of its own counts before the number handed in.
    let input = [
        0x07, 0x0b, 0x01, 0x00, 0x01, 0x10, 0x00, 0x00, 0x0c, 0x05, 0x00, 0x08, 0x0a, 0x04, 0, 0,
        0, 0x00, 0x00,
    ];
    let (rest, info) = streams_info(&input, Some(2)).unwrap();
    assert_eq!(info.substreams_info.unwrap().unknown_digests, Some(vec![4]));
    assert_eq!(rest.len(), 0);
}

#[test]
fn properties_out_of_order() {
    assert_eq!(
        files_info(&[0x05, 0x02, 0x0f, 0x01, 0x00, 0x00]).unwrap_err(),
        err_in(
            PropertyID::FilesInfo,
            SevenZParserErrorKind::FilesEmptyFileBeforeFilesEmptyStream,
            4
        )
    );
    assert_eq!(
        files_info(&[0x05, 0x02, 0x10, 0x01, 0x00, 0x00]).unwrap_err(),
        err_in(PropertyID::FilesInfo, SevenZParserErrorKind::FilesAntiBeforeFilesEmptyStream, 4)
    );
    assert_eq!(
        files_info(&[0x05, 0x02, 0x06, 0x00]).unwrap_err(),
        err_in(PropertyID::FilesInfo, SevenZParserErrorKind::InvalidTag, 2)
    );
    assert_eq!(
        files_info(&[0x05, 0x02]).unwrap_err(),
        err_in(PropertyID::FilesInfo, SevenZParserErrorKind::Truncated, 0)
    );
}

#[test]
fn names_that_are_not_utf16() {
    let input = [0x05, 0x01, 0x11, 0x05, 0x00, 0x00, 0xd8, 0x00, 0x00, 0x00];
    assert_eq!(
        files_info(&input).unwrap_err(),
        err_in(
            PropertyID::FilesInfo,
            SevenZParserErrorKind::ConversionFailure(SevenZConversionError::ToString),
            5
        )
    );
    // A name that its zero unit does not end.
    let input = [0x05, 0x01, 0x11, 0x05, 0x00, 0x41, 0x00, 0x42];
    assert_eq!(
        files_info(&input).unwrap_err(),
        err_in(PropertyID::FilesInfo, SevenZParserErrorKind::Truncated, 1)
    );
}

#[test]
fn encoded_headers() {
    assert_eq!(
        header(&[0x17, 0x06]).unwrap_err(),
        err_in(
            PropertyID::Header,
            SevenZParserErrorKind::Unsupported(UnsupportedFeature::EncodedHeader),
            2
        )
    );
    assert_eq!(
        header(&[0x05, 0x00]).unwrap_err(),
        err_in(PropertyID::Header, SevenZParserErrorKind::InvalidTag, 2)
    );
    // The marker that ends the header is missing.
    assert_eq!(
        header(&[0x01, 0x06, 0x00, 0x00, 0x00]).unwrap_err(),
        err_in(PropertyID::Header, SevenZParserErrorKind::InvalidTag, 4)
    );
    assert_eq!(
        header(&[0x01, 0x02, 0x16, 0x05]).unwrap_err(),
        err_in(PropertyID::ArchiveProperties, SevenZParserErrorKind::Truncated, 0)
    );
    assert_eq!(
        header(&[0x01, 0x03, 0x06, 0x00, 0x01, 0x09]).unwrap_err(),
        err_in(PropertyID::PackInfo, SevenZParserErrorKind::Truncated, 0)
    );
    assert_eq!(
        header(&[0x01, 0x03, 0x06, 0x00, 0x00, 0x00, 0x04]).unwrap_err(),
        err_in(
            PropertyID::AdditionalStreamsInfo,
            SevenZParserErrorKind::CouldNotDetermineNumFolders,
            1
        )
    );
    let (rest, hdr) = header(&[0x01, 0x00, 0x33]).unwrap();
    assert!(hdr.archive_properties.is_none() && hdr.additional_streams.is_none());
    assert!(hdr.main_streams.is_none() && hdr.files.is_none());
    assert_eq!(rest, &[0x33]);
}

#[test]
fn properties_of_the_archive() {
    let input = [0x02, 0x16, 0x02, 0xaa, 0xbb, 0x18, 0x00, 0x00, 0x44];
    let (rest, properties) = archive_properties(&input).unwrap();
    assert_eq!(
        properties.property_data,
        vec![(PropertyID::Comment, vec![0xaa, 0xbb]), (PropertyID::StartPos, vec![])]
    );
    assert_eq!(rest, &[0x44]);
    let (rest, property) = archive_property(&[0x16, 0x01, 0x07, 0x08]).unwrap();
    assert_eq!(property, (PropertyID::Comment, &[0x07u8][..]));
    assert_eq!(rest, &[0x08]);
    let (rest, hdr) = header(&[0x01, 0x02, 0x16, 0x01, 0x09, 0x00, 0x00]).unwrap();
    assert_eq!(
        hdr.archive_properties.unwrap().property_data,
        vec![(PropertyID::Comment, vec![0x09])]
    );
    assert_eq!(rest.len(), 0);
}

#[test]
fn number_of_folders_from_the_additional_streams() {
    let input = [
        0x01, // header
        0x03, 0x07, 0x0b, 0x02, 0x00, 0x01, 0x10, 0x00, 0x00, 0x01, 0x10, 0x00, 0x01, 0x0c, 0x05,
        0x06, 0x00, 0x00, // additional streams: two folders
        0x04, 0x08, 0x0d, 0x03, 0x04, 0x0a, 0x01, 0, 0, 0, 0x02, 0, 0, 0, 0x00,
        0x00, // main streams: substreams only
        0x00,
    ];
    let (rest, hdr) = header(&input).unwrap();
    assert_eq!(hdr.additional_streams.unwrap().coders_info.unwrap().num_folders, 2);
    let main = hdr.main_streams.unwrap();
    assert!(main.coders_info.is_none());
    let substreams = main.substreams_info.unwrap();
    assert_eq!(substreams.num_unpack_streams_in_folders, Some(vec![3, 4]));
    assert_eq!(substreams.unknown_digests, Some(vec![1, 2]));
    assert_eq!(rest.len(), 0);
    // Without additional streams the main streams cannot tell.
    let input = [0x01, 0x04, 0x08, 0x00, 0x00, 0x00];
    assert_eq!(
        header(&input).unwrap_err(),
        err_in(
            PropertyID::MainStreamsInfo,
            SevenZParserErrorKind::CouldNotDetermineNumFolders,
            4
        )
    );
}
