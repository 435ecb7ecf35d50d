use bytes::Bytes;
use termdj::rekordbox::db_field::{Binary, DBField, DBFieldType};
use termdj::rekordbox::db_message_argument::ArgumentCollection;
use termdj::rekordbox::db_request_type::DBRequestType;
use termdj::rekordbox::library::metadata_type::ARTIST;
use termdj::rekordbox::packets::term_dj::Name;
use termdj::rekordbox::packets::{Arguments, DBMessage};
use termdj::rekordbox::status_packet::{
    LinkQuery, LinkReply, ModelName, PlayerSlot, RekordboxReply, StatusContentType, StatusPacket,
    StatusPacketType, Utf16FixedString,
};
use termdj::utils::network::Ipv4;
use termdj::wire::{ErrorKind, ParseError};

fn tag_error(position: usize) -> ParseError {
    ParseError { kind: ErrorKind::Tag, position }
}

#[test]
fn packets_extract_magic_from_db_message() {
    assert_eq!(
        Ok((&[0x11][..], &[135, 35, 73, 174][..])),
        DBMessage::magic(&[0x11, 0x87, 0x23, 0x49, 0xae, 0x11]),
    );
}

#[test]
fn packets_parse_transaction_id() {
    assert_eq!(
        Ok((&[0x20][..], DBField::from_u32_bytes([0x00, 0x00, 0x00, 0x01]))),
        DBMessage::transaction_id(&[DBFieldType::U32.value(), 0x00, 0x00, 0x00, 0x01, 0x20]),
    );
    assert_eq!(
        Ok((&[0x20][..], DBField::new(DBFieldType::U32, &[0x00, 0x00, 0x01, 0x00]))),
        DBMessage::transaction_id(&[DBFieldType::U32.value(), 0x00, 0x00, 0x01, 0x00, 0x20]),
    );
    assert_eq!(
        Ok((&[0x20, 0x21][..], DBField::new(DBFieldType::U32, &[0x05, 0x80, 0x00, 0x32]))),
        DBMessage::transaction_id(&[DBFieldType::U32.value(), 0x05, 0x80, 0x00, 0x32, 0x20, 0x21]),
    );
}

#[test]
fn packets_parse_request_types() {
    let u16_tag = DBFieldType::U16.value();
    assert_eq!(
        Ok((&[][..], DBRequestType::Setup)),
        DBMessage::request_type(&[u16_tag, 0x00, 0x00]),
    );

    // Only the tag and the two bytes of the value are read.
    assert_eq!(
        Ok((&[0x00][..], DBRequestType::Setup)),
        DBMessage::request_type(&[u16_tag, 0x00, 0x00, 0x00]),
    );

    // An unknown code keeps its value.
    assert_eq!(
        Ok((&[][..], DBRequestType::Unknown(255_u16))),
        DBMessage::request_type(&[u16_tag, 0x00, 0xff]),
    );
}

#[test]
fn verify_title_request_parsing() {
    assert_eq!(
        Ok((&[][..], DBRequestType::TitleRequest)),
        DBMessage::request_type(&[0x10, 0x10, 0x04]),
    );
}

#[test]
fn verify_album_by_artist_request() {
    assert_eq!(
        Ok((&[][..], DBRequestType::AlbumByArtistRequest)),
        DBMessage::request_type(&[0x10, 0x11, 0x02]),
    )
}

#[test]
fn parse_test_library_handler() {
    assert_eq!(Err(tag_error(1)), DBMessage::parse(b"\x11\x00\x00\x00\x01"));
}

#[test]
fn try_parse_dbmessage_with_broken_magic() {
    let message = [0x49, 0xae, 0x11, 0x05, 0x80];

    // The first byte is read before the magic is compared.
    assert_eq!(Err(tag_error(1)), DBMessage::parse(&message));
}

#[test]
fn encode_db_field_to_bytes() {
    assert_eq!(b"\x0f\x32", &DBField::from_u8(0x32u8).as_bytes()[..]);
    assert_eq!(b"\x10\x12\x13", &DBField::from_u16_bytes([0x12u8, 0x13u8]).as_bytes()[..]);
    assert_eq!(
        b"\x11\x00\x00\x00\x01",
        &DBField::from_u32_bytes([0x00, 0x00, 0x00, 0x01]).as_bytes()[..],
    );
}

#[test]
fn test_binary_parsing() {
    let mut message = vec![
        0x11, 0x87, 0x23, 0x49, 0xae, 0x11, 0x05, 0x80, 0x00, 0x1e, 0x10, 0x20, 0x04, 0x0f, 0x01,
        0x14, 0x00, 0x00, 0x00, 0x0c, 0x03, 0x00, 0x00, 0x00, 0x00, 0x00, 0x00, 0x00, 0x00, 0x00,
        0x00, 0x00,
    ];
    let binary_data = vec![
        0x00, 0x00, 0x00, 0x38, 0x38, 0x00, 0x00, 0x00, 0x00, 0x00, 0x01, 0x00, 0x00, 0x00, 0xe8,
        0x03, 0x9b, 0x2a, 0x01, 0x00, 0xff, 0xff, 0xff, 0xff, 0x00, 0x00, 0x00, 0x00, 0x00, 0x00,
        0x00, 0x00, 0x00, 0x00, 0x00, 0x00, 0xff, 0xff, 0xff, 0xff, 0x00, 0x00, 0x00, 0x00, 0x00,
        0x00, 0x00, 0x00, 0x00, 0x00, 0x00, 0x00, 0x00, 0x00, 0x00, 0x00, 0x00, 0x00, 0x00, 0x00,
    ];

    message.extend(binary_data.clone());

    assert_eq!(
        Ok((
            &[][..],
            DBMessage::new(
                DBField::from_u32_bytes([0x05, 0x80, 0x00, 0x1e]),
                DBRequestType::PreviewWaveformRequest,
                ArgumentCollection::new(vec![DBField::from_binary(Binary::new(Bytes::from(
                    binary_data[4..].to_vec()
                )))]),
            )
        )),
        DBMessage::parse(&message),
    );
}

#[test]
fn parse_packet_with_missing_binary_argument() {
    let data = vec![
        0x11, 0x87, 0x23, 0x49, 0xae, 0x11, 0x05, 0x80, 0x00, 0x51, 0x10, 0x20, 0x04, 0x0f, 0x05,
        0x14, 0x00, 0x00, 0x00, 0x0c, 0x06, 0x06, 0x06, 0x06, 0x03, 0x00, 0x00, 0x00, 0x00, 0x00,
        0x00, 0x00, 0x11, 0x01, 0x08, 0x04, 0x01, 0x11, 0x00, 0x00, 0x00, 0x04, 0x11, 0x00, 0x00,
        0x00, 0x05, 0x11, 0x00, 0x00, 0x00, 0x00,
    ];

    assert_eq!(
        Ok((
            &[][..],
            DBMessage::new(
                DBField::from_u32_bytes([0x05, 0x80, 0x00, 0x51]),
                DBRequestType::PreviewWaveformRequest,
                ArgumentCollection::new(vec![
                    DBField::from_u32_bytes([0x01, 0x08, 0x04, 0x01]),
                    DBField::from_u32_bytes([0x00, 0x00, 0x00, 0x04]),
                    DBField::from_u32_bytes([0x00, 0x00, 0x00, 0x05]),
                    DBField::from_u32_bytes([0x00, 0x00, 0x00, 0x00]),
                    DBField::from_binary(Binary::new(Bytes::new())),
                ]),
            )
        )),
        DBMessage::parse(&data)
    );
}

fn rekordbox_reply_bytes() -> Vec<u8> {
    let mut v = vec![
        0x51, 0x73, 0x70, 0x74, 0x31, 0x57, 0x6d, 0x4a, 0x4f, 0x4c, 0x11, 0x4c, 0x69, 0x6e, 0x75,
        0x78, 0x00, 0x00, 0x00, 0x00, 0x00, 0x00, 0x00, 0x00, 0x00, 0x00, 0x00, 0x00, 0x00, 0x00,
        0x00, 0x01, 0x01, 0x11, 0x01, 0x04, 0x11, 0x01, 0x00, 0x00, 0x00, 0x54, 0x00, 0x65, 0x00,
        0x72, 0x00, 0x6d, 0x00, 0x20, 0x00, 0x44, 0x00, 0x4a,
    ];
    v.resize(296, 0x00);
    v
}

#[test]
fn encode_rekordbox_reply() {
    assert_eq!(
        StatusPacket {
            kind: StatusPacketType::RekordboxReply,
            model: ModelName("Linux".to_string()),
            unknown1: 1,
            player_number: 1,
            content: StatusContentType::RekordboxReply(RekordboxReply {
                name: "Term DJ".to_string(),
            }),
        }
        .encode(),
        Bytes::from(rekordbox_reply_bytes())
    );
}

#[test]
fn encode_linking_reply() {
    assert_eq!(
        Bytes::from(vec![
            0x51, 0x73, 0x70, 0x74, 0x31, 0x57, 0x6d, 0x4a, 0x4f, 0x4c, 0x06, 0x72, 0x65, 0x6b,
            0x6f, 0x72, 0x64, 0x62, 0x6f, 0x78, 0x00, 0x00, 0x00, 0x00, 0x00, 0x00, 0x00, 0x00,
            0x00, 0x00, 0x00, 0x01, 0x01, 0x11, 0x00, 0x9c, 0x00, 0x00, 0x00, 0x11, 0x00, 0x00,
            0x00, 0x04, 0x00, 0x72, 0x00, 0x65, 0x00, 0x6b, 0x00, 0x6f, 0x00, 0x72, 0x00, 0x64,
            0x00, 0x62, 0x00, 0x6f, 0x00, 0x78, 0x00, 0x00, 0x00, 0x00, 0x00, 0x00, 0x00, 0x00,
            0x00, 0x00, 0x00, 0x00, 0x00, 0x00, 0x00, 0x00, 0x00, 0x00, 0x00, 0x00, 0x00, 0x00,
            0x00, 0x00, 0x00, 0x00, 0x00, 0x00, 0x00, 0x00, 0x00, 0x00, 0x00, 0x00, 0x00, 0x00,
            0x00, 0x00, 0x00, 0x00, 0x00, 0x00, 0x00, 0x00, 0x00, 0x00, 0x00, 0x00, 0x00, 0x00,
            0x00, 0x00, 0x00, 0x00, 0x00, 0x00, 0x00, 0x00, 0x00, 0x00, 0x00, 0x00, 0x00, 0x00,
            0x00, 0x00, 0x00, 0x00, 0x00, 0x00, 0x00, 0x00, 0x00, 0x00, 0x00, 0x00, 0x00, 0x00,
            0x00, 0x00, 0x00, 0x00, 0x00, 0x00, 0x00, 0x00, 0x00, 0x00, 0x00, 0x00, 0x00, 0x00,
            0x00, 0x00, 0x00, 0x00, 0x00, 0x00, 0x00, 0x00, 0x00, 0x00, 0x00, 0x00, 0x04, 0x1b,
            0x00, 0x00, 0x01, 0x01, 0x00, 0x00, 0x00, 0x5e, 0x00, 0x00, 0x00, 0x00, 0x00, 0x00,
            0x00, 0x00, 0x00, 0x00, 0x00, 0x00, 0x00, 0x00, 0x00, 0x00,
        ]),
        StatusPacket {
            kind: StatusPacketType::LinkReply,
            model: ModelName("rekordbox".to_string()),
            unknown1: 1,
            player_number: 1,
            content: StatusContentType::LinkReply(LinkReply {
                source_player_number: 0x11,
                slot: PlayerSlot::Rekordbox,
                name: Utf16FixedString::new("rekordbox".to_string(), 64),
                date: Utf16FixedString::new("".to_string(), 24),
                unknown5: Utf16FixedString::new("".to_string(), 32),
                track_count: 1051,
                unknown6: 0,
                unknown7: 257,
                playlist_count: 94,
                bytes_total: 0,
                bytes_free: 0,
            }),
        }
        .encode(),
    );
}

#[test]
fn build_term_dj_status_message() {
    assert_eq!(
        StatusPacket::try_from(Bytes::from(vec![
            0x51, 0x73, 0x70, 0x74, 0x31, 0x57, 0x6d, 0x4a, 0x4f, 0x4c, 0x29, 0x72, 0x65, 0x6b,
            0x6f, 0x72, 0x64, 0x62, 0x6f, 0x78, 0x00, 0x00, 0x00, 0x00, 0x00, 0x00, 0x00, 0x00,
            0x00, 0x00, 0x00, 0x01, 0x01, 0x11, 0x00, 0x38, 0x11, 0x00, 0x00, 0xc0, 0x00, 0x10,
            0x00, 0x00, 0x00, 0x00, 0x00, 0x00, 0x00, 0x10, 0x00, 0x00, 0x00, 0x09, 0xff, 0x00,
        ]))
        .is_ok(),
        true,
    );
}

#[test]
fn it_can_decode_arguments_into_argument_collection() {
    let argument = Arguments {
        value1: "Loopmasters",
        value2: "",
        entry_id1: 1,
        entry_id2: 2,
        _type: ARTIST,
        entry_id3: 3,
        entry_id4: 0,
    };

    assert_eq!(
        ArgumentCollection::from_arguments(argument),
        ArgumentCollection::new(vec![
            DBField::from_u32(1u32),
            DBField::from_u32(2u32),
            DBField::from_u32(0x18 as u32),
            DBField::from_str("Loopmasters"),
            DBField::from_u32(2u32),
            DBField::from_str(""),
            DBField::from_u32(ARTIST),
            DBField::from_u32(0u32),
            DBField::from_u32(3u32),
            DBField::from_u32(0u32),
            DBField::from_u32(0u32),
            DBField::from_u32(0u32),
        ])
    );
}

#[test]
fn it_can_build_mount_info_package() {
    let package = Bytes::from(vec![
        0x11, 0x87, 0x23, 0x49, 0xae, 0x11, 0x05, 0x80, 0x04, 0x52, 0x10, 0x41, 0x01, 0x0f, 0x0c,
        0x14, 0x00, 0x00, 0x00, 0x0c, 0x06, 0x06, 0x06, 0x02, 0x06, 0x02, 0x06, 0x06, 0x06, 0x06,
        0x06, 0x06, 0x11, 0x00, 0x56, 0xd8, 0xd3, 0x11, 0x00, 0x00, 0x00, 0x6b, 0x11, 0x00, 0x00,
        0x00, 0xfa, 0x26, 0x00, 0x00, 0x00, 0x7d, 0x00, 0x2f, 0x00, 0x56, 0x00, 0x6f, 0x00, 0x6c,
        0x00, 0x75, 0x00, 0x6d, 0x00, 0x65, 0x00, 0x73, 0x00, 0x2f, 0x00, 0x6d, 0x00, 0x75, 0x00,
        0x7a, 0x00, 0x69, 0x00, 0x6b, 0x00, 0x61, 0x00, 0x2f, 0x00, 0x69, 0x00, 0x54, 0x00, 0x75,
        0x00, 0x6e, 0x00, 0x65, 0x00, 0x73, 0x00, 0x2f, 0x00, 0x69, 0x00, 0x54, 0x00, 0x75, 0x00,
        0x6e, 0x00, 0x65, 0x00, 0x73, 0x00, 0x20, 0x00, 0x4d, 0x00, 0x65, 0x00, 0x64, 0x00, 0x69,
        0x00, 0x61, 0x00, 0x2f, 0x00, 0x4d, 0x00, 0x75, 0x00, 0x73, 0x00, 0x69, 0x00, 0x63, 0x00,
        0x2f, 0x00, 0x53, 0x00, 0x77, 0x00, 0x65, 0x00, 0x64, 0x00, 0x69, 0x00, 0x73, 0x00, 0x68,
        0x00, 0x20, 0x00, 0x48, 0x00, 0x6f, 0x00, 0x75, 0x00, 0x73, 0x00, 0x65, 0x00, 0x20, 0x00,
        0x4d, 0x00, 0x61, 0x00, 0x66, 0x00, 0x69, 0x00, 0x61, 0x00, 0x20, 0x00, 0x76, 0x00, 0x73,
        0x00, 0x20, 0x00, 0x4b, 0x00, 0x6e, 0x00, 0x69, 0x00, 0x66, 0x00, 0x65, 0x00, 0x20, 0x00,
        0x50, 0x00, 0x61, 0x00, 0x72, 0x00, 0x74, 0x00, 0x79, 0x00, 0x2f, 0x00, 0x4e, 0x00, 0x6f,
        0x00, 0x77, 0x00, 0x20, 0x00, 0x54, 0x00, 0x68, 0x00, 0x61, 0x00, 0x74, 0x00, 0x27, 0x00,
        0x73, 0x00, 0x20, 0x00, 0x57, 0x00, 0x68, 0x00, 0x61, 0x00, 0x74, 0x00, 0x20, 0x00, 0x49,
        0x00, 0x20, 0x00, 0x43, 0x00, 0x61, 0x00, 0x6c, 0x00, 0x6c, 0x00, 0x20, 0x00, 0x4d, 0x00,
        0x75, 0x00, 0x73, 0x00, 0x69, 0x00, 0x63, 0x00, 0x20, 0x00, 0x38, 0x00, 0x31, 0x00, 0x2f,
        0x00, 0x33, 0x00, 0x31, 0x00, 0x20, 0x00, 0x41, 0x00, 0x6e, 0x00, 0x74, 0x00, 0x69, 0x00,
        0x64, 0x00, 0x6f, 0x00, 0x74, 0x00, 0x65, 0x00, 0x2e, 0x00, 0x6d, 0x00, 0x70, 0x00, 0x33,
        0x00, 0x00, 0x11, 0x00, 0x00, 0x00, 0x02, 0x26, 0x00, 0x00, 0x00, 0x01, 0x00, 0x00, 0x11,
        0x00, 0x00, 0x00, 0x00, 0x11, 0x00, 0x00, 0x00, 0x00, 0x11, 0x00, 0x00, 0x00, 0x00, 0x11,
        0x00, 0x00, 0x00, 0x00, 0x11, 0x00, 0x00, 0x00, 0x00, 0x11, 0x00, 0x00, 0x00, 0x00,
    ]);
    assert_eq!(true, DBMessage::try_from(package.clone()).is_ok());
}

#[test]
fn encoded_message_parses_back() {
    let message = DBMessage::new(
        DBField::from_u32(0x0580_0032),
        DBRequestType::RootMenuRequest,
        ArgumentCollection::new(vec![
            DBField::from_u32_bytes([0x02, 0x01, 0x04, 0x01]),
            DBField::from_str("Loopmasters"),
            DBField::from_binary(Binary::new(Bytes::from(vec![1, 2, 3]))),
            DBField::from_u8(7),
            DBField::from_u16(300),
        ]),
    );
    let wire = message.encode();
    let (rest, back) = DBMessage::parse(&wire[..]).unwrap();
    assert!(rest.is_empty());
    assert_eq!(back, message);
}

#[test]
fn response_header_repeats_the_transaction() {
    let message = DBMessage::new(
        DBField::from_u32(0x0580_0032),
        DBRequestType::Setup,
        ArgumentCollection::new(vec![]),
    );
    assert_eq!(
        message.to_response(),
        vec![0x11, 0x87, 0x23, 0x49, 0xae, 0x11, 0x05, 0x80, 0x00, 0x32]
    );
}

#[test]
fn application_name_in_utf16() {
    assert_eq!(
        Name.to_bytes(),
        Bytes::from(vec![0x00, 0x54, 0x00, 0x65, 0x00, 0x72, 0x00, 0x6d, 0x00, 0x44, 0x00, 0x4a])
    );
}

fn status_header(kind: u8) -> Vec<u8> {
    let mut v = vec![0x51, 0x73, 0x70, 0x74, 0x31, 0x57, 0x6d, 0x4a, 0x4f, 0x4c, kind];
    let mut name = b"XDJ-700".to_vec();
    name.resize(20, 0x00);
    v.extend(name);
    v.extend(vec![0x01, 0x00, 0x01]);
    v
}

// The captured packets of these two scenarios are not part of this crate;
// their inputs are written out from the packet layout.
#[test]
fn decode_link_query() {
    let mut packet = status_header(0x05);
    packet.extend(vec![0x00, 0x0c, 192, 168, 10, 58, 0x00, 0x00, 0x00, 17, 0x00, 0x00, 0x00, 0x04]);
    assert_eq!(packet.len(), 48);
    assert_eq!(
        Ok((
            &[][..],
            StatusPacket {
                kind: StatusPacketType::LinkQuery,
                model: ModelName("XDJ-700".to_string()),
                unknown1: 0,
                player_number: 1,
                content: StatusContentType::LinkQuery(LinkQuery {
                    source_ip: Ipv4::new(192, 168, 10, 58),
                    remote_player_number: 17,
                    slot: PlayerSlot::Rekordbox,
                }),
            }
        )),
        StatusPacket::decode(&packet[..48])
    )
}

#[test]
fn decode_rekordbox_hello() {
    let packet = status_header(0x10);
    assert_eq!(packet.len(), 34);
    assert!(StatusPacket::can_decode(&packet[..34]));
    assert_eq!(
        Ok((
            &[][..],
            StatusPacket {
                kind: StatusPacketType::RekordboxHello,
                model: ModelName("XDJ-700".to_string()),
                unknown1: 0,
                player_number: 1,
                content: StatusContentType::RekordboxHello,
            }
        )),
        StatusPacket::decode(&packet[..34])
    )
}
