use termdj::rekordbox::db_field::{DBField, DBFieldType};
use termdj::rekordbox::db_message_argument::ArgumentCollection;
use termdj::rekordbox::db_request_type::DBRequestType;
use termdj::rekordbox::library::database::Database;
use termdj::rekordbox::library::model::{Metadata, MetadataTrack};
use termdj::rekordbox::library::{port_reply, process, ClientState, StatefulRequest};
use termdj::rekordbox::packets::DBMessage;

fn track(artist: &str, title: &str, bpm: Option<u32>) -> MetadataTrack {
    MetadataTrack::new(
        Metadata { artist: artist.to_string(), title: title.to_string(), bpm, album: String::new() },
        format!("/music/{}.mp3", title),
        1000,
    )
}

fn library() -> Database {
    Database::new(vec![
        track("Loopmasters", "One", Some(12800)),
        track("Other", "Two", None),
        track("Loopmasters", "Three", Some(12000)),
    ])
}

fn request(tid: u32, kind: DBRequestType, args: Vec<DBField>) -> Vec<u8> {
    DBMessage::new(DBField::from_u32(tid), kind, ArgumentCollection::new(args)).encode().to_vec()
}

fn split(mut bytes: &[u8]) -> Vec<DBMessage> {
    let mut out = Vec::new();
    while !bytes.is_empty() {
        let (rest, m) = DBMessage::parse(bytes).unwrap();
        out.push(m);
        bytes = rest;
    }
    out
}

fn text_of(field: &DBField) -> String {
    assert_eq!(field.kind, DBFieldType::String);
    let units: Vec<u16> =
        field.value.chunks(2).map(|c| u16::from_be_bytes([c[0], c[1]])).collect();
    String::from_utf16(&units).unwrap()
}

#[test]
fn greeting_is_echoed() {
    let db = library();
    let mut ctx = ClientState::new(vec![]);
    let hello = [0x11, 0x00, 0x00, 0x00, 0x01];
    assert_eq!(process(&hello, &mut ctx, &db), hello.to_vec());
    assert_eq!(ctx.previous_request(), None);
}

#[test]
fn unreadable_request_is_answered_with_panic() {
    let db = library();
    let mut ctx = ClientState::new(vec![]);
    assert_eq!(process(&[0x00, 0x01, 0x02], &mut ctx, &db), b"panic".to_vec());
}

#[test]
fn render_after_artist_request_lists_artists() {
    let db = library();
    let mut ctx = ClientState::new(vec![]);
    let _ = process(&request(7, DBRequestType::ArtistRequest, vec![]), &mut ctx, &db);
    assert_eq!(ctx.previous_request(), Some(StatefulRequest::ArtistRequest));

    let answer = split(&process(&request(8, DBRequestType::RenderRequest, vec![]), &mut ctx, &db));
    assert_eq!(answer.len(), 4);
    assert_eq!(answer[0].request_type, DBRequestType::MenuHeader);
    assert_eq!(answer[1].request_type, DBRequestType::MenuItem);
    assert_eq!(text_of(answer[1].arguments.get(3)), "Loopmasters");
    assert_eq!(answer[1].arguments.get(1), &DBField::from_u32(2));
    assert_eq!(text_of(answer[2].arguments.get(3)), "Other");
    assert_eq!(answer[2].arguments.get(1), &DBField::from_u32(3));
    assert_eq!(answer[3].request_type, DBRequestType::MenuFooter);
    for m in &answer {
        assert_eq!(m.transaction_id, DBField::from_u32(8));
    }
}

#[test]
fn render_after_root_menu_lists_the_menu() {
    let db = library();
    let mut ctx = ClientState::new(vec![]);
    let _ = process(&request(1, DBRequestType::RootMenuRequest, vec![]), &mut ctx, &db);
    let answer = split(&process(&request(2, DBRequestType::RenderRequest, vec![]), &mut ctx, &db));
    assert_eq!(answer.len(), 9);
    assert_eq!(text_of(answer[1].arguments.get(3)), "\u{fffa}ARTIST\u{fffb}");
    assert_eq!(text_of(answer[7].arguments.get(3)), "\u{fffa}SEARCH\u{fffb}");
}

#[test]
fn render_after_titles_by_artist() {
    let db = library();
    let mut ctx = ClientState::new(vec![]);
    let args = vec![DBField::from_u32(0), DBField::from_u32(0), DBField::from_u32(2)];
    let _ = process(&request(3, DBRequestType::TitleByArtistAlbumRequest, args), &mut ctx, &db);
    assert_eq!(
        ctx.previous_request(),
        Some(StatefulRequest::TitleByArtistAlbumRequest { artist_id: 2 })
    );
    let answer = split(&process(&request(4, DBRequestType::RenderRequest, vec![]), &mut ctx, &db));
    assert_eq!(answer.len(), 4);
    assert_eq!(text_of(answer[1].arguments.get(3)), "One");
    assert_eq!(text_of(answer[2].arguments.get(3)), "Three");
}

#[test]
fn render_after_metadata_request() {
    let db = library();
    let mut ctx = ClientState::new(vec![]);
    let args = vec![DBField::from_u32(0), DBField::from_u32(4)];
    let _ = process(&request(5, DBRequestType::MetadataRequest, args), &mut ctx, &db);
    let answer = split(&process(&request(6, DBRequestType::RenderRequest, vec![]), &mut ctx, &db));
    assert_eq!(answer.len(), 12);
    assert_eq!(text_of(answer[1].arguments.get(3)), "Three");
    assert_eq!(text_of(answer[2].arguments.get(3)), "Loopmasters");
    // The tempo item carries the BPM as its second id.
    assert_eq!(answer[5].arguments.get(1), &DBField::from_u32(12000));
}

#[test]
fn unhandled_request_is_acknowledged() {
    let db = library();
    let mut ctx = ClientState::new(vec![]);
    // Only some kinds have a code of their own when encoded: write the key
    // request's code by hand.
    let mut bytes = request(9, DBRequestType::Setup, vec![]);
    bytes[11] = 0x10;
    bytes[12] = 0x14;
    assert_eq!(DBMessage::parse(&bytes).unwrap().1.request_type, DBRequestType::KeyRequest);
    let answer = split(&process(&bytes, &mut ctx, &db));
    assert_eq!(answer.len(), 1);
    assert_eq!(answer[0].request_type, DBRequestType::Success);
    assert_eq!(answer[0].transaction_id, DBField::from_u32(9));
    assert_eq!(answer[0].arguments.len(), 0);
}

#[test]
fn port_is_sent_big_endian() {
    assert_eq!(port_reply(0x1234), vec![0x12, 0x34]);
}
