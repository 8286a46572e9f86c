use sevenz::parser::bits::Bits;
use sevenz::parser::parsers::files_info::files_info;
use sevenz::parser::types::files_info::{FilesInfo, FilesProperty};
use sevenz::parser::types::Either::{Left, Right};

fn bits(values: &[bool]) -> Bits {
    Bits::from_bools(values).unwrap()
}

#[test]
fn bit_vectors() {
    let mut v = Bits::new();
    assert_eq!(v.len(), 0);
    assert_eq!(v.count_ones(), 0);
    v.push(true);
    v.push(false);
    v.push(true);
    assert_eq!(v.len(), 3);
    assert!(v.get(0) && !v.get(1) && v.get(2));
    assert_eq!(v.count_ones(), 2);
    let w = v.clone();
    assert_eq!(w, v);
    assert_eq!(w, bits(&[true, false, true]));
    assert_ne!(w, bits(&[true, false]));
    assert_ne!(w, bits(&[true, true, true]));
    v.push(false);
    assert_eq!(w.len(), 3);
    assert_eq!(v.len(), 4);
}

#[test]
fn files_without_streams() {
    // Three files; the first and the last have no stream. Of these two the
    // second is an empty file, and the first marks a deletion.
    let input = [
        0x05, 0x03, 0x0e, 0x01, 0xa0, 0x0f, 0x01, 0x40, 0x10, 0x01, 0x80, 0x00, 0x66,
    ];
    let (rest, info) = files_info(&input).unwrap();
    assert_eq!(
        info,
        FilesInfo {
            num_files: 3,
            properties: vec![
                FilesProperty::EmptyStream(bits(&[true, false, true])),
                FilesProperty::EmptyFile(bits(&[false, true])),
                FilesProperty::Anti(bits(&[true, false])),
            ],
        }
    );
    assert_eq!(rest, &[0x66]);
}

#[test]
fn times_of_some_files() {
    // Three files, of which the first and the third have a creation time.
    let input = [
        0x05, 0x03, 0x12, 0x12, 0x00, 0xa0, 0x00, 1, 0, 0, 0, 0, 0, 0, 0, 2, 0, 0, 0, 0, 0, 0, 0,
        0x13, 0x1a, 0x01, 0x00, 3, 0, 0, 0, 0, 0, 0, 0, 4, 0, 0, 0, 0, 0, 0, 0, 5, 0, 0, 0, 0, 0,
        0, 0, 0x00,
    ];
    let (rest, info) = files_info(&input).unwrap();
    assert_eq!(
        info.properties,
        vec![
            FilesProperty::CTime(vec![Some(Right(1)), None, Some(Right(2))]),
            FilesProperty::ATime(vec![Some(Right(3)), Some(Right(4)), Some(Right(5))]),
        ]
    );
    assert_eq!(rest.len(), 0);
    assert_eq!(info.get_property(FilesProperty::ATime(vec![])), Some(&info.properties[1]));
    assert_eq!(info.get_property(FilesProperty::CTime(vec![Some(Left(9))])), Some(&info.properties[0]));
    assert_eq!(info.get_property(FilesProperty::MTime(vec![])), None);
    assert_eq!(info.get_property(FilesProperty::Names(vec![])), None);
}

#[test]
fn properties_in_an_auxiliary_stream() {
    let input = [
        0x05, 0x02, 0x14, 0x0a, 0x01, 0x01, 7, 0, 0, 0, 0, 0, 0, 0, 0x11, 0x0a, 0x01, 8, 0, 0, 0,
        0, 0, 0, 0, 0x15, 0x0a, 0x00, 0x40, 0x01, 9, 0, 0, 0, 0, 0, 0, 0, 0x00,
    ];
    let (rest, info) = files_info(&input).unwrap();
    assert_eq!(
        info.properties,
        vec![
            FilesProperty::MTime(vec![Some(Left(7)), Some(Left(7))]),
            FilesProperty::Names(vec![Left(8), Left(8)]),
            FilesProperty::Attributes(vec![Some(Left(9)), Some(Left(9))]),
        ]
    );
    assert_eq!(rest.len(), 0);
}

#[test]
fn attributes_of_some_files() {
    let input = [
        0x05, 0x02, 0x15, 0x06, 0x00, 0x40, 0x00, 0x20, 0x00, 0x00, 0x00, 0x00,
    ];
    let (rest, info) = files_info(&input).unwrap();
    assert_eq!(
        info.properties,
        vec![FilesProperty::Attributes(vec![None, Some(Right(0x20))])]
    );
    assert_eq!(rest.len(), 0);
}

#[test]
fn names_of_files() {
    // "a", then a name beyond the basic plane, then the empty name.
    let input = [
        0x05, 0x03, 0x11, 0x0d, 0x00, 0x61, 0x00, 0x00, 0x00, 0x3d, 0xd8, 0x00, 0xde, 0xe9, 0x00,
        0x00, 0x00, 0x00, 0x00, 0x00,
    ];
    let (rest, info) = files_info(&input).unwrap();
    assert_eq!(
        info.properties,
        vec![FilesProperty::Names(vec![
            Right(String::from("a")),
            Right(String::from("\u{1f600}\u{e9}")),
            Right(String::new()),
        ])]
    );
    assert_eq!(rest.len(), 0);
}
