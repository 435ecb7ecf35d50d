use bytes::Bytes;
use termdj::rekordbox::db_field::{Binary, DBField, DBFieldType};

#[test]
fn string_decode_and_encode() {
    let field = DBField::from_str("Loopmasters");
    assert_eq!(
        DBField::new(
            DBFieldType::String,
            &[
                0x00, 0x4c, 0x00, 0x6f, 0x00, 0x6f, 0x00, 0x70, 0x00, 0x6d, 0x00, 0x61, 0x00, 0x73,
                0x00, 0x74, 0x00, 0x65, 0x00, 0x72, 0x00, 0x73
            ]
        ),
        field
    );
    assert_eq!(
        Bytes::from(vec![
            0x26, 0x00, 0x00, 0x00, 0x0c, 0x00, 0x4c, 0x00, 0x6f, 0x00, 0x6f, 0x00, 0x70, 0x00,
            0x6d, 0x00, 0x61, 0x00, 0x73, 0x00, 0x74, 0x00, 0x65, 0x00, 0x72, 0x00, 0x73, 0x00,
            0x00,
        ]),
        field.as_bytes()
    );
}

#[test]
fn string_artist_argument() {
    let field = DBField::from_str("\u{fffa}ARTIST\u{fffb}");
    let expected_bytes = &[
        0xff, 0xfa, 0x00, 0x41, 0x00, 0x52, 0x00, 0x54, 0x00, 0x49, 0x00, 0x53, 0x00, 0x54, 0xff,
        0xfb,
    ];

    assert_eq!(DBField::new(DBFieldType::String, expected_bytes), field);
    assert_eq!(
        vec![
            0x26, 0x00, 0x00, 0x00, 0x09, 0xff, 0xfa, 0x00, 0x41, 0x00, 0x52, 0x00, 0x54, 0x00,
            0x49, 0x00, 0x53, 0x00, 0x54, 0xff, 0xfb, 0x00, 0x00,
        ],
        field.as_bytes()
    );
}

#[test]
fn string_history_argument() {
    let field = DBField::from_str("\u{fffa}HISTORY\u{fffb}");
    let expected_bytes = &[
        0xff, 0xfa, 0x00, 0x48, 0x00, 0x49, 0x00, 0x53, 0x00, 0x54, 0x00, 0x4f, 0x00, 0x52, 0x00,
        0x59, 0xff, 0xfb,
    ];

    assert_eq!(DBField::new(DBFieldType::String, expected_bytes), field);
    assert_eq!(
        vec![
            0x26, 0x00, 0x00, 0x00, 0x0a, 0xff, 0xfa, 0x00, 0x48, 0x00, 0x49, 0x00, 0x53, 0x00,
            0x54, 0x00, 0x4f, 0x00, 0x52, 0x00, 0x59, 0xff, 0xfb, 0x00, 0x00,
        ],
        field.as_bytes()
    );
}

#[test]
fn empty_string_argument() {
    let field = DBField::from_str("");
    assert_eq!(DBField::new(DBFieldType::String, &[]), field);
    assert_eq!(vec![0x26, 0x00, 0x00, 0x00, 0x01, 0x00, 0x00], field.as_bytes());
}

#[test]
fn binary_to_dbfield() {
    let fixture = vec![
        0x38, 0x00, 0x00, 0x00, 0x00, 0x00, 0x01, 0x00, 0x00, 0x00, 0xe8, 0x03, 0x9b, 0x2a, 0x01,
        0x00, 0xff, 0xff, 0xff, 0xff, 0x00, 0x00, 0x00, 0x00, 0x00, 0x00, 0x00, 0x00, 0x00, 0x00,
        0x00, 0x00, 0xff, 0xff, 0xff, 0xff, 0x00, 0x00, 0x00, 0x00, 0x00, 0x00, 0x00, 0x00, 0x00,
        0x00, 0x00, 0x00, 0x00, 0x00, 0x00, 0x00, 0x00, 0x00, 0x00, 0x00,
    ];

    let field = DBField::from_binary(Binary::new(Bytes::from(fixture.clone())));

    let mut expected_value = vec![0x14, 0x00, 0x00, 0x00, 0x38];
    expected_value.extend(fixture);
    assert_eq!(Bytes::from(expected_value), field.as_bytes());
}

#[test]
fn numbers_are_big_endian() {
    assert_eq!(DBField::from_u16(0x1213).as_bytes(), vec![0x10, 0x12, 0x13]);
    assert_eq!(DBField::from_u32(0x0102_0304).as_bytes(), vec![0x11, 0x01, 0x02, 0x03, 0x04]);
    assert_eq!(DBField::from_u8(0xfe).as_bytes(), vec![0x0f, 0xfe]);
}

#[test]
fn field_type_tags() {
    for (kind, tag) in [
        (DBFieldType::U8, 0x0f),
        (DBFieldType::U16, 0x10),
        (DBFieldType::U32, 0x11),
        (DBFieldType::Binary, 0x14),
        (DBFieldType::String, 0x26),
    ] {
        assert_eq!(kind.value(), tag);
        assert_eq!(DBFieldType::name(tag), Ok(kind));
    }
    assert_eq!(DBFieldType::name(0x12), Err("unmatched type."));
}
