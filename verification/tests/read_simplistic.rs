use sevenz::codec::{Codec, CodecError, Codecs};
use sevenz::parser::err::{SevenZParserError, SevenZParserErrorKind};
use sevenz::parser::interface::parse;
use sevenz::parser::interface::streams::FileStreamInfo;
use sevenz::parser::types::coders_info::{Coder, CoderComplex};
use sevenz::parser::types::property_id::PropertyID;
use sevenz::read::decode::decode_file;
use sevenz::read::err::Error;
use sevenz::read::iter::ArchiveIterator;
use sevenz::read::extract_file;
use sevenz::read::FileHandle;

fn uncompressed_archive() -> Vec<u8> {
    vec![
        0x37, 0x7a, 0xbc, 0xaf, 0x27, 0x1c, 0x00, 0x04, 0xb1, 0xfd, 0x8b, 0x00,
        0x13, 0x00, 0x00, 0x00, 0x00, 0x00, 0x00, 0x00, 0x5a, 0x00, 0x00, 0x00,
        0x00, 0x00, 0x00, 0x00, 0x35, 0x99, 0xd5, 0x39, 0x01, 0x00, 0x0e, 0x54,
        0x68, 0x69, 0x73, 0x20, 0x69, 0x73, 0x20, 0x61, 0x20, 0x74, 0x65, 0x73,
        0x74, 0x0a, 0x00, 0x01, 0x04, 0x06, 0x00, 0x01, 0x09, 0x13, 0x00, 0x07,
        0x0b, 0x01, 0x00, 0x01, 0x21, 0x21, 0x01, 0x00, 0x0c, 0x0f, 0x00, 0x08,
        0x0a, 0x01, 0x8c, 0x2d, 0xc0, 0xfa, 0x00, 0x00, 0x05, 0x01, 0x19, 0x0c,
        0x00, 0x00, 0x00, 0x00, 0x00, 0x00, 0x00, 0x00, 0x00, 0x00, 0x00, 0x00,
        0x11, 0x13, 0x00, 0x74, 0x00, 0x65, 0x00, 0x73, 0x00, 0x74, 0x00, 0x2e,
        0x00, 0x74, 0x00, 0x78, 0x00, 0x74, 0x00, 0x00, 0x00, 0x19, 0x00, 0x14,
        0x0a, 0x01, 0x00, 0x80, 0xa5, 0xbe, 0x39, 0xc6, 0x79, 0xd7, 0x01, 0x15,
        0x06, 0x01, 0x00, 0x20, 0x80, 0xa4, 0x81, 0x00, 0x00,
    ]
}
fn stored_archive() -> Vec<u8> {
    vec![
        0x37, 0x7a, 0xbc, 0xaf, 0x27, 0x1c, 0x00, 0x04, 0x68, 0x04, 0x32, 0x9c,
        0x0f, 0x00, 0x00, 0x00, 0x00, 0x00, 0x00, 0x00, 0x4f, 0x00, 0x00, 0x00,
        0x00, 0x00, 0x00, 0x00, 0xbd, 0xa5, 0xd5, 0xde, 0x54, 0x68, 0x69, 0x73,
        0x20, 0x69, 0x73, 0x20, 0x61, 0x20, 0x74, 0x65, 0x73, 0x74, 0x0a, 0x01,
        0x04, 0x06, 0x00, 0x01, 0x09, 0x0f, 0x00, 0x07, 0x0b, 0x01, 0x00, 0x01,
        0x10, 0x00, 0x00, 0x0c, 0x0f, 0x00, 0x08, 0x0a, 0x8c, 0x2d, 0xc0, 0xfa,
        0x00, 0x00, 0x05, 0x01, 0x19, 0x03, 0x00, 0x00, 0x00, 0x11, 0x13, 0x00,
        0x74, 0x00, 0x65, 0x00, 0x73, 0x00, 0x74, 0x00, 0x2e, 0x00, 0x74, 0x00,
        0x78, 0x00, 0x74, 0x00, 0x00, 0x00, 0x19, 0x00, 0x14, 0x0a, 0x01, 0x00,
        0x80, 0xa5, 0xbe, 0x39, 0xc6, 0x79, 0xd7, 0x01, 0x15, 0x06, 0x01, 0x00,
        0x20, 0x80, 0xa4, 0x81, 0x00, 0x00,
    ]
}
#[test]
fn unpack_single_uncompressed_file() {
    let res = sevenz::read::extract_file("test.txt", &stored_archive()).unwrap();
    assert_eq!(res, b"This is a test\n");
}

#[test]
fn unpack_from_the_archive_as_the_tool_wrote_it() {
    assert_eq!(
        extract_file("test.txt", &uncompressed_archive()),
        Err(Error::Parser(SevenZParserError {
            kind: SevenZParserErrorKind::InvalidPropertyID(0xfa),
            section: Some(PropertyID::SubStreamsInfo),
            remaining: 64
        }))
    );
}

#[test]
fn unpack_a_file_that_is_not_there() {
    assert_eq!(
        extract_file("test.tx", &stored_archive()),
        Err(Error::NoSuchFileName(String::from("test.tx")))
    );
    assert_eq!(
        extract_file("", &stored_archive()),
        Err(Error::NoSuchFileName(String::new()))
    );
}

#[test]
fn codecs_by_identifier() {
    assert_eq!(Codecs::try_from(vec![0]), Ok(Codecs::Copy));
    assert_eq!(Codecs::try_from(vec![]), Err(CodecError::UnsupportedCodec(vec![])));
    assert_eq!(Codecs::try_from(vec![1]), Err(CodecError::UnsupportedCodec(vec![1])));
    assert_eq!(Codecs::try_from(vec![0, 0]), Err(CodecError::UnsupportedCodec(vec![0, 0])));
    assert_eq!(sevenz::codec::Copy::new().decode(&[1, 2, 3]), vec![1, 2, 3]);
}

fn stream(id: Vec<u8>, complex: Option<CoderComplex>, offset: u64, size: u64) -> FileStreamInfo {
    FileStreamInfo { coder: Coder { complex, attrs: None, id }, offset, size, crc: 0 }
}

#[test]
fn decoding_by_the_coder() {
    assert_eq!(decode_file(&[9, 8, 7], &stream(vec![0], None, 0, 3)), Ok(vec![9, 8, 7]));
    assert_eq!(
        decode_file(&[9, 8, 7], &stream(vec![33, 1], None, 0, 3)),
        Err(CodecError::UnsupportedCodec(vec![33, 1]))
    );
    let complex = Some(CoderComplex { num_in_streams: 1, num_out_streams: 1 });
    assert_eq!(
        decode_file(&[9, 8, 7], &stream(vec![0], complex, 0, 3)),
        Err(CodecError::UnsupportedCodec(vec![0]))
    );
}

#[test]
fn handles_of_the_files() {
    let bytes = stored_archive();
    let archive = parse(&bytes).unwrap();
    let mut files = ArchiveIterator::new(&archive);
    assert_eq!(files.position, 0);
    let handle = files.next_handle(&bytes).unwrap();
    assert_eq!(files.position, 1);
    assert_eq!(handle.name(), "test.txt");
    assert_eq!(handle.extract_contents_vec(), Ok(b"This is a test\n".to_vec()));
    assert!(files.next_handle(&bytes).is_none());
    assert_eq!(files.position, 1);

    let again = FileHandle::new(&archive, &bytes, 0);
    assert_eq!(again.underlying, archive.files[0]);
}

#[test]
fn streams_that_cannot_be_extracted() {
    let bytes = stored_archive();
    let archive = parse(&bytes).unwrap();
    let mut handle = FileHandle::new(&archive, &bytes, 0);
    handle.underlying.stream.size = 95;
    assert_eq!(
        handle.extract_contents_vec(),
        Err(Error::Parser(SevenZParserError {
            kind: SevenZParserErrorKind::Truncated,
            section: None,
            remaining: bytes.len() - 32
        }))
    );
    handle.underlying.stream.size = 94;
    assert_eq!(handle.extract_contents_vec().unwrap().len(), 94);
    handle.underlying.stream.offset = 3;
    handle.underlying.stream.size = 4;
    assert_eq!(handle.extract_contents_vec(), Ok(b"s is".to_vec()));
    handle.underlying.stream.coder.id = vec![33, 1];
    assert_eq!(
        handle.extract_contents_vec(),
        Err(Error::CodecFailed(CodecError::UnsupportedCodec(vec![33, 1])))
    );
    assert_eq!(Error::from(CodecError::UnsupportedCodec(vec![2])), Error::CodecFailed(CodecError::UnsupportedCodec(vec![2])));
    let e = SevenZParserError::new(SevenZParserErrorKind::Truncated, 4);
    assert_eq!(Error::from(e), Error::Parser(e));
}
