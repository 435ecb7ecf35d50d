//! The remote database server: menus rendered from the track library.
//!
//! A player asks in two steps. A query request (artists, titles of an
//! artist, track metadata, mount information, ...) is answered with the
//! number of items, and the client state remembers what was asked. The render
//! request that follows is answered with the menu itself: a header message,
//! one item message per entry, and a footer message.

use vstd::prelude::*;
use crate::buffer::{bytes_view, bytes_from_vec};
use crate::rekordbox::db_field::{DBField, DBFieldType, FieldModel, field_bytes};
use crate::rekordbox::db_request_type::{DBRequestType, request_type_code};
use crate::rekordbox::db_message_argument::{ArgumentCollection, collection_bytes, field_models};
use crate::rekordbox::packets::{
    Arguments, DBMessage, DBMessageModel, ManyDBMessages, arguments_fields, message_bytes,
    messages_bytes, response_header, spec_message, parse_panics,
};
use crate::rekordbox::library::database::{
    Database, DatabaseModel, ArtistModel, TrackModel, Record, tracks_of, find_track_row,
    find_artist_row, artist_models, track_models,
};
use crate::rekordbox::library::helper::{number_of_artists, number_of_tracks_by_artist};
use crate::rekordbox::library::metadata_type::{
    MetadataType, ROOT_ARTIST, ROOT_ALBUM, ROOT_TRACK, ROOT_KEY, ROOT_PLAYLIST, ROOT_HISTORY,
    ROOT_SEARCH, ARTIST, TITLE, ALBUM, DURATION, BPM, COMMENT, KEY, RATING, COLOR_NONE, GENRE,
    MOUNT_PATH, UNKNOWN1,
};
use crate::wire::{be16, be32, be32_value, push_be16};
use crate::text::utf16_be;
use crate::rekordbox::library::request::{Controller, RequestHandler, RequestWrapper};

pub mod metadata_type;
pub mod model;
pub mod database;
pub mod helper;
pub mod codec;
pub mod request;

verus! {

/// What a client asked before the render request that follows.
#[derive(Debug, PartialEq, Eq, Structural, Clone, Copy)]
pub enum StatefulRequest {
    RootMenuRequest,
    ArtistRequest,
    TitleRequest,
    AlbumByArtistRequest { artist_id: u32 },
    TitleByArtistAlbumRequest { artist_id: u32 },
    MetadataRequest { track_id: u32 },
    MountInfoRequest { track_id: u32 },
}

/// What the server remembers of one client connection.
pub struct ClientState {
    previous_request: Option<StatefulRequest>,
    preview_waveform: Vec<u8>,
}

impl ClientState {
    /// A fresh connection; `preview_waveform` is the blob sent for every
    /// preview waveform request.
    pub fn new(preview_waveform: Vec<u8>) -> (c: ClientState)
        ensures
            c.previous() is None,
            c.waveform() == preview_waveform@,
    {
        ClientState { previous_request: None, preview_waveform }
    }

    pub closed spec fn previous(&self) -> Option<StatefulRequest> {
        self.previous_request
    }

    pub closed spec fn waveform(&self) -> Seq<u8> {
        self.preview_waveform@
    }

    pub fn previous_request(&self) -> (r: Option<StatefulRequest>)
        ensures
            r == self.previous(),
    {
        self.previous_request
    }

    fn set_previous_request(&mut self, previous_request: StatefulRequest)
        ensures
            final(self).previous() == Some(previous_request),
            final(self).waveform() == old(self).waveform(),
    {
        self.previous_request = Some(previous_request);
    }
}


// ---------------------------------------------------------------------------
// Specification: the messages of a response

pub open spec fn u32_field(v: u32) -> FieldModel {
    (DBFieldType::U32, be32(v))
}

pub open spec fn raw_u32_field(a: u8, b: u8, c: u8, d: u8) -> FieldModel {
    (DBFieldType::U32, seq![a, b, c, d])
}

/// A `U32` field with the request kind's code in its low two bytes.
pub open spec fn code_field(t: DBRequestType) -> FieldModel {
    (DBFieldType::U32, seq![0u8, 0u8] + be16(request_type_code(t)))
}

/// The `U16` status field that precedes the arguments of a query answer.
pub open spec fn ok_field() -> FieldModel {
    (DBFieldType::U16, seq![0x40u8, 0x00u8])
}

pub open spec fn header_model(tid: FieldModel) -> DBMessageModel {
    DBMessageModel {
        transaction_id: tid,
        request_type: DBRequestType::MenuHeader,
        arguments: seq![raw_u32_field(0, 0, 0, 1), raw_u32_field(0, 0, 0, 0)],
    }
}

pub open spec fn footer_model(tid: FieldModel) -> DBMessageModel {
    DBMessageModel {
        transaction_id: tid,
        request_type: DBRequestType::MenuFooter,
        arguments: seq![u32_field(1), u32_field(1)],
    }
}

/// A footer without arguments.
pub open spec fn end_model(tid: FieldModel) -> DBMessageModel {
    DBMessageModel {
        transaction_id: tid,
        request_type: DBRequestType::MenuFooter,
        arguments: Seq::empty(),
    }
}

/// A menu item with the given ids, text and metadata type (the second text
/// and the third id are empty and zero).
pub open spec fn item_model(
    tid: FieldModel,
    entry_id1: u32,
    entry_id2: u32,
    entry_id4: u32,
    value1: Seq<char>,
    t: MetadataType,
) -> DBMessageModel {
    DBMessageModel {
        transaction_id: tid,
        request_type: DBRequestType::MenuItem,
        arguments: arguments_fields(entry_id1, entry_id2, 0, entry_id4, value1, Seq::empty(), t),
    }
}

/// A menu entry: a text, its metadata type and its id.
pub open spec fn menu_item(tid: FieldModel, value1: Seq<char>, t: MetadataType, entry_id2: u32) -> DBMessageModel {
    item_model(tid, 0, entry_id2, 0, value1, t)
}

pub open spec fn root_menu_models(tid: FieldModel) -> Seq<DBMessageModel> {
    seq![
        header_model(tid),
        menu_item(tid, "\u{fffa}ARTIST\u{fffb}"@, ROOT_ARTIST, 0x02),
        menu_item(tid, "\u{fffa}ALBUM\u{fffb}"@, ROOT_ALBUM, 0x03),
        menu_item(tid, "\u{fffa}TRACK\u{fffb}"@, ROOT_TRACK, 0x04),
        menu_item(tid, "\u{fffa}KEY\u{fffb}"@, ROOT_KEY, 0x0c),
        menu_item(tid, "\u{fffa}PLAYLIST\u{fffb}"@, ROOT_PLAYLIST, 0x05),
        menu_item(tid, "\u{fffa}HISTORY\u{fffb}"@, ROOT_HISTORY, 0x16),
        menu_item(tid, "\u{fffa}SEARCH\u{fffb}"@, ROOT_SEARCH, 0x12),
        footer_model(tid),
    ]
}

pub open spec fn artist_items(tid: FieldModel, artists: Seq<ArtistModel>) -> Seq<DBMessageModel> {
    artists.map_values(|a: ArtistModel| menu_item(tid, a.name, ARTIST, a.id))
}

pub open spec fn artist_page_models(tid: FieldModel, artists: Seq<ArtistModel>) -> Seq<DBMessageModel> {
    seq![header_model(tid)] + artist_items(tid, artists) + seq![end_model(tid)]
}

pub open spec fn title_page_models(tid: FieldModel) -> Seq<DBMessageModel> {
    seq![header_model(tid), menu_item(tid, "Loopmasters"@, TITLE, 0x05), end_model(tid)]
}

pub open spec fn album_page_models(tid: FieldModel) -> Seq<DBMessageModel> {
    seq![header_model(tid), menu_item(tid, "Unknown"@, ALBUM, 0x00), end_model(tid)]
}

pub open spec fn track_items(tid: FieldModel, tracks: Seq<TrackModel>) -> Seq<DBMessageModel> {
    tracks.map_values(|t: TrackModel| menu_item(tid, t.title, TITLE, t.id))
}

pub open spec fn title_by_artist_models(tid: FieldModel, tracks: Seq<TrackModel>) -> Seq<DBMessageModel> {
    seq![header_model(tid)] + track_items(tid, tracks) + seq![end_model(tid)]
}

pub open spec fn bpm_or_zero(bpm: Option<u32>) -> u32 {
    match bpm {
        Some(b) => b,
        None => 0,
    }
}

pub open spec fn metadata_models(tid: FieldModel, track: TrackModel, artist: ArtistModel) -> Seq<DBMessageModel> {
    seq![
        header_model(tid),
        item_model(tid, 1, 5, 256, track.title, TITLE),
        item_model(tid, 1, 1, 0, artist.name, ARTIST),
        item_model(tid, 1, 0, 0, Seq::empty(), ALBUM),
        item_model(tid, 0, 195, 0, Seq::empty(), DURATION),
        item_model(tid, 0, bpm_or_zero(track.bpm), 0, Seq::empty(), BPM),
        item_model(tid, 0, 5, 0, Seq::empty(), COMMENT),
        item_model(tid, 1, 0, 0, Seq::empty(), KEY),
        item_model(tid, 0, 0, 0, Seq::empty(), RATING),
        item_model(tid, 0, 0, 0, Seq::empty(), COLOR_NONE),
        item_model(tid, 0, 0, 0, Seq::empty(), GENRE),
        end_model(tid),
    ]
}

pub open spec fn mount_info_models(tid: FieldModel, track: TrackModel) -> Seq<DBMessageModel> {
    seq![
        header_model(tid),
        item_model(tid, 0, 1, 0, Seq::empty(), TITLE),
        item_model(tid, 0, 195, 0, Seq::empty(), DURATION),
        item_model(tid, 0, bpm_or_zero(track.bpm), 0, Seq::empty(), BPM),
        item_model(tid, 0, 0, 0, "Tracks by www.loopmasters.com"@, COMMENT),
        item_model(tid, track.size, 5, 0, track.path, MOUNT_PATH),
        item_model(tid, 0, 1, 0, Seq::empty(), UNKNOWN1),
        end_model(tid),
    ]
}

/// A render request cannot be answered: the remembered track (or its
/// artist) is not in the library.
pub open spec fn render_panics(prev: Option<StatefulRequest>, db: DatabaseModel) -> bool {
    match prev {
        Some(StatefulRequest::MetadataRequest { track_id }) => match find_track_row(db.tracks, track_id) {
            Some(t) => find_artist_row(db.artists, t.artist_id) is None,
            None => true,
        },
        Some(StatefulRequest::MountInfoRequest { track_id }) => find_track_row(db.tracks, track_id) is None,
        _ => false,
    }
}

/// The messages that answer a render request, after `prev` was asked.
pub open spec fn render_models(prev: Option<StatefulRequest>, tid: FieldModel, db: DatabaseModel) -> Seq<DBMessageModel> {
    match prev {
        Some(StatefulRequest::RootMenuRequest) => root_menu_models(tid),
        Some(StatefulRequest::ArtistRequest) => artist_page_models(tid, db.artists),
        Some(StatefulRequest::TitleRequest) => title_page_models(tid),
        Some(StatefulRequest::AlbumByArtistRequest { .. }) => album_page_models(tid),
        Some(StatefulRequest::TitleByArtistAlbumRequest { artist_id }) => title_by_artist_models(
            tid,
            tracks_of(db.tracks, artist_id),
        ),
        Some(StatefulRequest::MetadataRequest { track_id }) => {
            let t = find_track_row(db.tracks, track_id).unwrap();
            metadata_models(tid, t, find_artist_row(db.artists, t.artist_id).unwrap())
        },
        Some(StatefulRequest::MountInfoRequest { track_id }) => mount_info_models(
            tid,
            find_track_row(db.tracks, track_id).unwrap(),
        ),
        None => Seq::empty(),
    }
}

/// The controller of a request kind, if it has one.
pub open spec fn controller_for(t: DBRequestType) -> Option<Controller> {
    match t {
        DBRequestType::AlbumByArtistRequest => Some(Controller::AlbumByArtist),
        DBRequestType::ArtistRequest => Some(Controller::Artist),
        DBRequestType::LoadTrackRequest => Some(Controller::LoadTrack),
        DBRequestType::MetadataRequest => Some(Controller::Metadata),
        DBRequestType::MountInfoRequest => Some(Controller::QueryMountInfo),
        DBRequestType::PreviewWaveformRequest => Some(Controller::PreviewWaveform),
        DBRequestType::RenderRequest => Some(Controller::Render),
        DBRequestType::RootMenuRequest => Some(Controller::RootMenu),
        DBRequestType::Setup => Some(Controller::Setup),
        DBRequestType::TitleByArtistAlbumRequest => Some(Controller::TitleByArtistAlbum),
        DBRequestType::TitleRequest => Some(Controller::Title),
        _ => None,
    }
}

/// What is remembered once a request of kind `t` arrives, before its
/// controller runs.
pub open spec fn state_after_sequence(prev: Option<StatefulRequest>, t: DBRequestType) -> Option<StatefulRequest> {
    match t {
        DBRequestType::ArtistRequest => Some(StatefulRequest::ArtistRequest),
        DBRequestType::TitleRequest => Some(StatefulRequest::TitleRequest),
        DBRequestType::RootMenuRequest => Some(StatefulRequest::RootMenuRequest),
        _ => prev,
    }
}

/// The number that the `i`-th argument holds (its first four bytes,
/// big-endian).
pub open spec fn arg_u32(m: DBMessageModel, i: int) -> u32 {
    let v = m.arguments[i].1;
    be32_value(v[0], v[1], v[2], v[3])
}

/// The `i`-th argument is a number.
pub open spec fn has_u32_arg(m: DBMessageModel, i: int) -> bool {
    &&& 0 <= i < m.arguments.len()
    &&& m.arguments[i].0 == DBFieldType::U32
    &&& m.arguments[i].1.len() >= 4
}

/// The controller cannot answer this message.
pub open spec fn controller_panics(c: Controller, m: DBMessageModel, prev: Option<StatefulRequest>, db: DatabaseModel) -> bool {
    match c {
        Controller::AlbumByArtist => !has_u32_arg(m, 2),
        Controller::TitleByArtistAlbum => !has_u32_arg(m, 2),
        Controller::Metadata => !has_u32_arg(m, 1),
        Controller::QueryMountInfo => !has_u32_arg(m, 1),
        Controller::Render => render_panics(prev, db),
        _ => false,
    }
}

/// A query answer: the response header, the status field and the argument
/// list.
pub open spec fn query_answer(tid: FieldModel, status: FieldModel, args: Seq<FieldModel>) -> Seq<u8> {
    response_header(tid) + field_bytes(status.0, status.1) + collection_bytes(args)
}

/// A `Success` message with the request kind's code and a count.
pub open spec fn success_answer(tid: FieldModel, t: DBRequestType, count: u32) -> Seq<u8> {
    message_bytes(
        DBMessageModel {
            transaction_id: tid,
            request_type: DBRequestType::Success,
            arguments: seq![code_field(t), u32_field(count)],
        },
    )
}

/// The bytes that a controller answers `m` with, and what is remembered
/// afterwards, given what was remembered before (`prev`).
pub open spec fn controller_result(
    c: Controller,
    m: DBMessageModel,
    prev: Option<StatefulRequest>,
    db: DatabaseModel,
    waveform: Seq<u8>,
) -> (Seq<u8>, Option<StatefulRequest>) {
    let tid = m.transaction_id;
    let t = m.request_type;
    match c {
        Controller::Setup => (
            query_answer(tid, ok_field(), seq![raw_u32_field(0, 0, 0, 0), raw_u32_field(0, 0, 0, 0x11)]),
            prev,
        ),
        Controller::RootMenu => (
            query_answer(tid, ok_field(), seq![raw_u32_field(0, 0, 0x10, 0), raw_u32_field(0, 0, 0, 0x08)]),
            prev,
        ),
        Controller::AlbumByArtist => {
            let artist_id = arg_u32(m, 2);
            (
                query_answer(
                    tid,
                    ok_field(),
                    seq![code_field(t), u32_field(tracks_of(db.tracks, artist_id).len() as u32)],
                ),
                Some(StatefulRequest::AlbumByArtistRequest { artist_id }),
            )
        },
        Controller::Artist => (
            query_answer(tid, ok_field(), seq![code_field(t), u32_field(db.artists.len() as u32)]),
            prev,
        ),
        Controller::PreviewWaveform => (
            query_answer(
                tid,
                (DBFieldType::U16, seq![0x44u8, 0x02u8]),
                seq![
                    raw_u32_field(0, 0, 0x20, 0x04),
                    u32_field(0),
                    raw_u32_field(0, 0, 0x03, 0x88),
                    (DBFieldType::Binary, waveform),
                ],
            ),
            prev,
        ),
        Controller::Title => (response_header(tid), prev),
        Controller::Render => (messages_bytes(render_models(prev, tid, db)), prev),
        Controller::QueryMountInfo => {
            let track_id = arg_u32(m, 1);
            (success_answer(tid, t, 6), Some(StatefulRequest::MountInfoRequest { track_id }))
        },
        Controller::TitleByArtistAlbum => {
            let artist_id = arg_u32(m, 2);
            (
                success_answer(tid, t, tracks_of(db.tracks, artist_id).len() as u32),
                Some(StatefulRequest::TitleByArtistAlbumRequest { artist_id }),
            )
        },
        Controller::Metadata => {
            let track_id = arg_u32(m, 1);
            (success_answer(tid, t, 10), Some(StatefulRequest::MetadataRequest { track_id }))
        },
        Controller::LoadTrack => (
            message_bytes(
                DBMessageModel {
                    transaction_id: tid,
                    request_type: DBRequestType::LoadTrackSuccess,
                    arguments: seq![
                        code_field(t),
                        u32_field(1),
                        u32_field(0),
                        (DBFieldType::Binary, Seq::empty()),
                        u32_field(0),
                    ],
                },
            ),
            prev,
        ),
    }
}

/// The bytes answered when a request cannot be read.
pub open spec fn unreadable_answer() -> Seq<u8> {
    seq![0x70u8, 0x61, 0x6e, 0x69, 0x63]
}

/// Processing `b` cannot complete: the message cannot be read without a
/// panic, or its controller cannot answer it.
pub open spec fn process_panics(b: Seq<u8>, prev: Option<StatefulRequest>, db: DatabaseModel) -> bool {
    b.len() != 5 && (parse_panics(b) || match spec_message(b, 0) {
        Ok((m, _)) => match controller_for(m.request_type) {
            Some(c) => controller_panics(c, m, state_after_sequence(prev, m.request_type), db),
            None => false,
        },
        Err(_) => false,
    })
}

/// The answer to the bytes `b` of one request, and what is remembered
/// afterwards.
pub open spec fn process_result(
    b: Seq<u8>,
    prev: Option<StatefulRequest>,
    db: DatabaseModel,
    waveform: Seq<u8>,
) -> (Seq<u8>, Option<StatefulRequest>) {
    if b.len() == 5 {
        (b, prev)
    } else {
        match spec_message(b, 0) {
            Ok((m, _)) => match controller_for(m.request_type) {
                Some(c) => controller_result(
                    c,
                    m,
                    state_after_sequence(prev, m.request_type),
                    db,
                    waveform,
                ),
                None => (
                    message_bytes(
                        DBMessageModel {
                            transaction_id: m.transaction_id,
                            request_type: DBRequestType::Success,
                            arguments: Seq::empty(),
                        },
                    ),
                    prev,
                ),
            },
            Err(_) => (unreadable_answer(), prev),
        }
    }
}

// ---------------------------------------------------------------------------
// Building messages

fn raw_u32(a: u8, b: u8, c: u8, d: u8) -> (f: DBField)
    ensures
        f@ == raw_u32_field(a, b, c, d),
{
    let f = DBField::from_u32_bytes([a, b, c, d]);
    assert([a, b, c, d]@ =~= seq![a, b, c, d]);
    f
}

fn code_of(t: &DBRequestType) -> (f: DBField)
    ensures
        f@ == code_field(*t),
{
    let mut v: Vec<u8> = Vec::new();
    v.push(0);
    v.push(0);
    push_be16(&mut v, t.code());
    let f = DBField::new(DBFieldType::U32, v.as_slice());
    assert(v@ =~= seq![0u8, 0u8] + be16(request_type_code(*t)));
    f
}

fn ok_request() -> (f: DBField)
    ensures
        f@ == ok_field(),
{
    let f = DBField::from_u16_bytes([0x40, 0x00]);
    assert([0x40u8, 0x00u8]@ =~= seq![0x40u8, 0x00u8]);
    f
}

fn build_message_header(transaction_id: &DBField) -> (m: DBMessage)
    ensures
        m@ == header_model(transaction_id@),
{
    let mut args: Vec<DBField> = Vec::new();
    args.push(raw_u32(0x00, 0x00, 0x00, 0x01));
    args.push(raw_u32(0x00, 0x00, 0x00, 0x00));
    let m = DBMessage::new(transaction_id.clone(), DBRequestType::MenuHeader, ArgumentCollection::new(args));
    assert(m@.arguments =~= header_model(transaction_id@).arguments);
    m
}

fn build_item(
    transaction_id: &DBField,
    entry_id1: u32,
    entry_id2: u32,
    entry_id4: u32,
    value1: &str,
    entry_type: MetadataType,
) -> (m: DBMessage)
    ensures
        m@ == item_model(transaction_id@, entry_id1, entry_id2, entry_id4, value1@, entry_type),
{
    let mut arguments = Arguments::default();
    arguments.entry_id1 = entry_id1;
    arguments.entry_id2 = entry_id2;
    arguments.entry_id4 = entry_id4;
    arguments.value1 = value1;
    arguments._type = entry_type;
    DBMessage::new(
        transaction_id.clone(),
        DBRequestType::MenuItem,
        ArgumentCollection::from_arguments(arguments),
    )
}

fn build_message_item(transaction_id: &DBField, value1: &str, entry_type: u32, entry_id2: u32) -> (m: DBMessage)
    ensures
        m@ == menu_item(transaction_id@, value1@, entry_type, entry_id2),
{
    build_item(transaction_id, 0, entry_id2, 0, value1, entry_type)
}

fn build_message_footer(transaction_id: &DBField) -> (m: DBMessage)
    ensures
        m@ == footer_model(transaction_id@),
{
    let mut args: Vec<DBField> = Vec::new();
    args.push(DBField::from_u32(1));
    args.push(DBField::from_u32(1));
    let m = DBMessage::new(transaction_id.clone(), DBRequestType::MenuFooter, ArgumentCollection::new(args));
    assert(m@.arguments =~= footer_model(transaction_id@).arguments);
    m
}

fn build_end(transaction_id: &DBField) -> (m: DBMessage)
    ensures
        m@ == end_model(transaction_id@),
{
    let m = DBMessage::new(
        transaction_id.clone(),
        DBRequestType::MenuFooter,
        ArgumentCollection::new(Vec::new()),
    );
    assert(m@.arguments =~= Seq::<FieldModel>::empty());
    m
}

// ---------------------------------------------------------------------------
// Rendering menus

fn render_root_menu(transaction_id: &DBField) -> (r: ManyDBMessages)
    ensures
        r@ == root_menu_models(transaction_id@),
{
    let mut v: Vec<DBMessage> = Vec::new();
    v.push(build_message_header(transaction_id));
    let mut response = ManyDBMessages::new(v);
    let mut items: Vec<DBMessage> = Vec::new();
    items.push(build_message_item(transaction_id, "\u{fffa}ARTIST\u{fffb}", ROOT_ARTIST, 0x02));
    items.push(build_message_item(transaction_id, "\u{fffa}ALBUM\u{fffb}", ROOT_ALBUM, 0x03));
    items.push(build_message_item(transaction_id, "\u{fffa}TRACK\u{fffb}", ROOT_TRACK, 0x04));
    items.push(build_message_item(transaction_id, "\u{fffa}KEY\u{fffb}", ROOT_KEY, 0x0c));
    items.push(build_message_item(transaction_id, "\u{fffa}PLAYLIST\u{fffb}", ROOT_PLAYLIST, 0x05));
    items.push(build_message_item(transaction_id, "\u{fffa}HISTORY\u{fffb}", ROOT_HISTORY, 0x16));
    items.push(build_message_item(transaction_id, "\u{fffa}SEARCH\u{fffb}", ROOT_SEARCH, 0x12));
    response.extend(items);
    response.push(build_message_footer(transaction_id));
    assert(response@ =~= root_menu_models(transaction_id@));
    response
}

fn render_artist_page(transaction_id: &DBField, database: &Database) -> (r: ManyDBMessages)
    ensures
        r@ == artist_page_models(transaction_id@, database@.artists),
{
    let mut v: Vec<DBMessage> = Vec::new();
    v.push(build_message_header(transaction_id));
    let mut response = ManyDBMessages::new(v);
    let artists = database.artists();
    let ghost rows = artist_models(artists@);
    let mut i: usize = 0;
    while i < artists.len()
        invariant
            i <= artists@.len(),
            rows == artist_models(artists@),
            rows == database@.artists,
            response@ == seq![header_model(transaction_id@)] + artist_items(
                transaction_id@,
                rows.take(i as int),
            ),
        decreases artists@.len() - i,
    {
        let artist = &artists[i];
        let m = build_message_item(transaction_id, artist.name().as_str(), ARTIST, *artist.id());
        response.push(m);
        proof {
            assert(rows.take(i + 1) =~= rows.take(i as int).push(rows[i as int]));
            assert(artist_items(transaction_id@, rows.take(i + 1)) =~= artist_items(
                transaction_id@,
                rows.take(i as int),
            ).push(menu_item(transaction_id@, rows[i as int].name, ARTIST, rows[i as int].id)));
        }
        i = i + 1;
        assert(response@ =~= seq![header_model(transaction_id@)] + artist_items(
            transaction_id@,
            rows.take(i as int),
        ));
    }
    response.push(build_end(transaction_id));
    assert(rows.take(i as int) =~= rows);
    assert(response@ =~= artist_page_models(transaction_id@, database@.artists));
    response
}

fn render_title_page(transaction_id: &DBField) -> (r: ManyDBMessages)
    ensures
        r@ == title_page_models(transaction_id@),
{
    let mut v: Vec<DBMessage> = Vec::new();
    v.push(build_message_header(transaction_id));
    let mut response = ManyDBMessages::new(v);
    response.push(build_message_item(transaction_id, "Loopmasters", TITLE, 0x05));
    response.push(build_end(transaction_id));
    assert(response@ =~= title_page_models(transaction_id@));
    response
}

fn render_album_by_artist(transaction_id: &DBField) -> (r: ManyDBMessages)
    ensures
        r@ == album_page_models(transaction_id@),
{
    let mut v: Vec<DBMessage> = Vec::new();
    v.push(build_message_header(transaction_id));
    let mut response = ManyDBMessages::new(v);
    response.push(build_message_item(transaction_id, "Unknown", ALBUM, 0x00));
    response.push(build_end(transaction_id));
    assert(response@ =~= album_page_models(transaction_id@));
    response
}

fn render_title_by_artist_album(transaction_id: &DBField, database: &Database, artist_id: u32) -> (r: ManyDBMessages)
    ensures
        r@ == title_by_artist_models(transaction_id@, tracks_of(database@.tracks, artist_id)),
{
    let tracks = database.title_by_artist(artist_id);
    let mut v: Vec<DBMessage> = Vec::new();
    v.push(build_message_header(transaction_id));
    let mut response = ManyDBMessages::new(v);
    let ghost rows = track_models(tracks@);
    let mut i: usize = 0;
    while i < tracks.len()
        invariant
            i <= tracks@.len(),
            rows == track_models(tracks@),
            rows == tracks_of(database@.tracks, artist_id),
            response@ == seq![header_model(transaction_id@)] + track_items(
                transaction_id@,
                rows.take(i as int),
            ),
        decreases tracks@.len() - i,
    {
        let track = &tracks[i];
        let m = build_message_item(transaction_id, track.name().as_str(), TITLE, *track.id());
        response.push(m);
        proof {
            assert(rows.take(i + 1) =~= rows.take(i as int).push(rows[i as int]));
            assert(track_items(transaction_id@, rows.take(i + 1)) =~= track_items(
                transaction_id@,
                rows.take(i as int),
            ).push(menu_item(transaction_id@, rows[i as int].title, TITLE, rows[i as int].id)));
        }
        i = i + 1;
        assert(response@ =~= seq![header_model(transaction_id@)] + track_items(
            transaction_id@,
            rows.take(i as int),
        ));
    }
    response.push(build_end(transaction_id));
    assert(rows.take(i as int) =~= rows);
    assert(response@ =~= title_by_artist_models(transaction_id@, rows));
    response
}

fn render_metadata(transaction_id: &DBField, database: &Database, track_id: u32) -> (r: ManyDBMessages)
    requires
        !render_panics(Some(StatefulRequest::MetadataRequest { track_id }), database@),
    ensures
        r@ == render_models(Some(StatefulRequest::MetadataRequest { track_id }), transaction_id@, database@),
{
    let track = database.get_track(track_id).unwrap();
    let artist = database.get_artist(track.artist_id()).unwrap();
    let bpm: u32 = match track.bpm() {
        Some(b) => b,
        None => 0,
    };
    let empty = "";
    proof {
        reveal_strlit("");
    }
    assert(empty@ =~= Seq::<char>::empty());
    let mut v: Vec<DBMessage> = Vec::new();
    v.push(build_message_header(transaction_id));
    v.push(build_item(transaction_id, 1, 5, 256, track.name().as_str(), TITLE));
    v.push(build_item(transaction_id, 1, 1, 0, artist.name().as_str(), ARTIST));
    v.push(build_item(transaction_id, 1, 0, 0, empty, ALBUM));
    v.push(build_item(transaction_id, 0, 195, 0, empty, DURATION));
    v.push(build_item(transaction_id, 0, bpm, 0, empty, BPM));
    v.push(build_item(transaction_id, 0, 5, 0, empty, COMMENT));
    v.push(build_item(transaction_id, 1, 0, 0, empty, KEY));
    v.push(build_item(transaction_id, 0, 0, 0, empty, RATING));
    v.push(build_item(transaction_id, 0, 0, 0, empty, COLOR_NONE));
    v.push(build_item(transaction_id, 0, 0, 0, empty, GENRE));
    v.push(build_end(transaction_id));
    let response = ManyDBMessages::new(v);
    assert(response@ =~= metadata_models(transaction_id@, track@, artist@));
    response
}

fn render_mount_info(transaction_id: &DBField, database: &Database, track_id: u32) -> (r: ManyDBMessages)
    requires
        !render_panics(Some(StatefulRequest::MountInfoRequest { track_id }), database@),
    ensures
        r@ == render_models(Some(StatefulRequest::MountInfoRequest { track_id }), transaction_id@, database@),
{
    let track = database.get_track(track_id).unwrap();
    let bpm: u32 = match track.bpm() {
        Some(b) => b,
        None => 0,
    };
    let empty = "";
    proof {
        reveal_strlit("");
    }
    assert(empty@ =~= Seq::<char>::empty());
    let mut v: Vec<DBMessage> = Vec::new();
    v.push(build_message_header(transaction_id));
    v.push(build_item(transaction_id, 0, 1, 0, empty, TITLE));
    v.push(build_item(transaction_id, 0, 195, 0, empty, DURATION));
    v.push(build_item(transaction_id, 0, bpm, 0, empty, BPM));
    v.push(build_item(transaction_id, 0, 0, 0, "Tracks by www.loopmasters.com", COMMENT));
    v.push(build_item(transaction_id, track.size(), 5, 0, track.path(), MOUNT_PATH));
    v.push(build_item(transaction_id, 0, 1, 0, empty, UNKNOWN1));
    v.push(build_end(transaction_id));
    let response = ManyDBMessages::new(v);
    assert(response@ =~= mount_info_models(transaction_id@, track@));
    response
}

/// The menu that answers a render request, after `previous` was asked.
fn render(previous: Option<StatefulRequest>, transaction_id: &DBField, database: &Database) -> (r: ManyDBMessages)
    requires
        !render_panics(previous, database@),
    ensures
        r@ == render_models(previous, transaction_id@, database@),
{
    match previous {
        Some(StatefulRequest::RootMenuRequest) => render_root_menu(transaction_id),
        Some(StatefulRequest::ArtistRequest) => render_artist_page(transaction_id, database),
        Some(StatefulRequest::TitleRequest) => render_title_page(transaction_id),
        Some(StatefulRequest::AlbumByArtistRequest { .. }) => render_album_by_artist(transaction_id),
        Some(StatefulRequest::TitleByArtistAlbumRequest { artist_id }) => render_title_by_artist_album(
            transaction_id,
            database,
            artist_id,
        ),
        Some(StatefulRequest::MetadataRequest { track_id }) => render_metadata(
            transaction_id,
            database,
            track_id,
        ),
        Some(StatefulRequest::MountInfoRequest { track_id }) => render_mount_info(
            transaction_id,
            database,
            track_id,
        ),
        None => {
            let r = ManyDBMessages::new(Vec::new());
            assert(r@ =~= Seq::<DBMessageModel>::empty());
            r
        },
    }
}

// ---------------------------------------------------------------------------
// Controllers

/// The number in the first four bytes of a `U32` field.
pub fn dbfield_to_u32(input: &DBField) -> (n: u32)
    requires
        input.kind == DBFieldType::U32,
        input@.1.len() >= 4,
    ensures
        n == be32_value(input@.1[0], input@.1[1], input@.1[2], input@.1[3]),
{
    let v = crate::buffer::bytes_as_slice(&input.value);
    (v[0] as u32) * 0x100_0000 + (v[1] as u32) * 0x1_0000 + (v[2] as u32) * 0x100 + (v[3] as u32)
}

fn query_response(request: &RequestWrapper, status: DBField, args: Vec<DBField>) -> (v: Vec<u8>)
    ensures
        v@ == query_answer(request.message.transaction_id@, status@, field_models(args@)),
{
    let mut bytes = request.to_response();
    status.push_bytes(&mut bytes);
    let c = ArgumentCollection::new(args);
    c.push_bytes(&mut bytes);
    assert(bytes@ =~= query_answer(request.message.transaction_id@, status@, c@));
    bytes
}

fn success_response(request: &RequestWrapper, count: u32) -> (v: Vec<u8>)
    ensures
        v@ == success_answer(request.message.transaction_id@, request.message.request_type, count),
{
    let mut args: Vec<DBField> = Vec::new();
    args.push(code_of(&request.message.request_type));
    args.push(DBField::from_u32(count));
    let m = DBMessage::new(
        request.message.transaction_id.clone(),
        DBRequestType::Success,
        ArgumentCollection::new(args),
    );
    let mut out: Vec<u8> = Vec::new();
    m.push_bytes(&mut out);
    assert(m@.arguments =~= seq![code_field(request.message.request_type), u32_field(count)]);
    assert(out@ =~= success_answer(request.message.transaction_id@, request.message.request_type, count));
    out
}

/// Runs a controller on a request.
pub fn to_response(
    controller: Controller,
    request: RequestWrapper,
    context: &mut ClientState,
    database: &Database,
) -> (v: Vec<u8>)
    requires
        !controller_panics(controller, request.message@, old(context).previous(), database@),
    ensures
        (v@, final(context).previous()) == controller_result(
            controller,
            request.message@,
            old(context).previous(),
            database@,
            old(context).waveform(),
        ),
        final(context).waveform() == old(context).waveform(),
{
    let ghost m = request.message@;
    match controller {
        Controller::Setup => {
            let mut args: Vec<DBField> = Vec::new();
            args.push(raw_u32(0x00, 0x00, 0x00, 0x00));
            args.push(raw_u32(0x00, 0x00, 0x00, 0x11));
            let ghost a = args@;
            let v = query_response(&request, ok_request(), args);
            assert(field_models(a) =~= seq![raw_u32_field(0, 0, 0, 0), raw_u32_field(0, 0, 0, 0x11)]);
            v
        },
        Controller::RootMenu => {
            let mut args: Vec<DBField> = Vec::new();
            args.push(raw_u32(0x00, 0x00, 0x10, 0x00));
            args.push(raw_u32(0x00, 0x00, 0x00, 0x08));
            let ghost a = args@;
            let v = query_response(&request, ok_request(), args);
            assert(field_models(a) =~= seq![raw_u32_field(0, 0, 0x10, 0), raw_u32_field(0, 0, 0, 0x08)]);
            v
        },
        Controller::AlbumByArtist => {
            let artist_id = dbfield_to_u32(request.message.arguments.get(2));
            let count = number_of_tracks_by_artist(artist_id, database);
            let mut args: Vec<DBField> = Vec::new();
            args.push(code_of(&request.message.request_type));
            args.push(DBField::from_u32(count));
            let ghost a = args@;
            let v = query_response(&request, ok_request(), args);
            assert(field_models(a) =~= seq![code_field(m.request_type), u32_field(count)]);
            context.set_previous_request(StatefulRequest::AlbumByArtistRequest { artist_id });
            v
        },
        Controller::Artist => {
            let count = number_of_artists(database);
            let mut args: Vec<DBField> = Vec::new();
            args.push(code_of(&request.message.request_type));
            args.push(DBField::from_u32(count));
            let ghost a = args@;
            let v = query_response(&request, ok_request(), args);
            assert(field_models(a) =~= seq![code_field(m.request_type), u32_field(count)]);
            v
        },
        Controller::PreviewWaveform => {
            let mut args: Vec<DBField> = Vec::new();
            args.push(raw_u32(0x00, 0x00, 0x20, 0x04));
            args.push(DBField::from_u32(0));
            args.push(raw_u32(0x00, 0x00, 0x03, 0x88));
            args.push(DBField::new(DBFieldType::Binary, context.preview_waveform.as_slice()));
            let ghost a = args@;
            let status = DBField::from_u16_bytes([0x44, 0x02]);
            assert([0x44u8, 0x02u8]@ =~= seq![0x44u8, 0x02u8]);
            let v = query_response(&request, status, args);
            assert(field_models(a) =~= seq![
                raw_u32_field(0, 0, 0x20, 0x04),
                u32_field(0),
                raw_u32_field(0, 0, 0x03, 0x88),
                (DBFieldType::Binary, context.waveform()),
            ]);
            v
        },
        Controller::Title => request.to_response(),
        Controller::Render => {
            let r = render(context.previous_request, &request.message.transaction_id, database);
            let b = r.encode();
            let v = crate::buffer::slice_to_vec(crate::buffer::bytes_as_slice(&b));
            v
        },
        Controller::QueryMountInfo => {
            let track_id = dbfield_to_u32(request.message.arguments.get(1));
            context.set_previous_request(StatefulRequest::MountInfoRequest { track_id });
            success_response(&request, 6)
        },
        Controller::TitleByArtistAlbum => {
            let artist_id = dbfield_to_u32(request.message.arguments.get(2));
            let count = number_of_tracks_by_artist(artist_id, database);
            context.set_previous_request(StatefulRequest::TitleByArtistAlbumRequest { artist_id });
            success_response(&request, count)
        },
        Controller::Metadata => {
            let track_id = dbfield_to_u32(request.message.arguments.get(1));
            context.set_previous_request(StatefulRequest::MetadataRequest { track_id });
            success_response(&request, 10)
        },
        Controller::LoadTrack => {
            let mut args: Vec<DBField> = Vec::new();
            args.push(code_of(&request.message.request_type));
            args.push(DBField::from_u32(1));
            args.push(DBField::from_u32(0));
            let nothing: [u8; 0] = [];
            assert(nothing@ =~= Seq::<u8>::empty());
            args.push(DBField::new(DBFieldType::Binary, &nothing));
            args.push(DBField::from_u32(0));
            let m2 = DBMessage::new(
                request.message.transaction_id.clone(),
                DBRequestType::LoadTrackSuccess,
                ArgumentCollection::new(args),
            );
            assert(m2@.arguments =~= seq![
                code_field(m.request_type),
                u32_field(1),
                u32_field(0),
                (DBFieldType::Binary, Seq::<u8>::empty()),
                u32_field(0),
            ]);
            let mut out: Vec<u8> = Vec::new();
            m2.push_bytes(&mut out);
            out
        },
    }
}

/// The controller of a request kind, if it has one.
pub fn get_controller(request_type: &DBRequestType) -> (r: Option<Controller>)
    ensures
        r == controller_for(*request_type),
{
    match request_type {
        DBRequestType::AlbumByArtistRequest => Some(Controller::AlbumByArtist),
        DBRequestType::ArtistRequest => Some(Controller::Artist),
        DBRequestType::LoadTrackRequest => Some(Controller::LoadTrack),
        DBRequestType::MetadataRequest => Some(Controller::Metadata),
        DBRequestType::MountInfoRequest => Some(Controller::QueryMountInfo),
        DBRequestType::PreviewWaveformRequest => Some(Controller::PreviewWaveform),
        DBRequestType::RenderRequest => Some(Controller::Render),
        DBRequestType::RootMenuRequest => Some(Controller::RootMenu),
        DBRequestType::Setup => Some(Controller::Setup),
        DBRequestType::TitleByArtistAlbumRequest => Some(Controller::TitleByArtistAlbum),
        DBRequestType::TitleRequest => Some(Controller::Title),
        _ => None,
    }
}

/// Remembers the requests whose menu is rendered by the next render request
/// without further data (artists, titles, root menu).
pub fn handle_sequence_requests(context: &mut ClientState, request_type: &DBRequestType)
    ensures
        final(context).previous() == state_after_sequence(old(context).previous(), *request_type),
        final(context).waveform() == old(context).waveform(),
{
    match request_type {
        DBRequestType::ArtistRequest => context.set_previous_request(StatefulRequest::ArtistRequest),
        DBRequestType::TitleRequest => context.set_previous_request(StatefulRequest::TitleRequest),
        DBRequestType::RootMenuRequest => context.set_previous_request(StatefulRequest::RootMenuRequest),
        _ => {},
    }
}

/// Whether the `i`-th argument of a message is a number.
fn argument_is_u32(m: &DBMessage, i: usize) -> (b: bool)
    ensures
        b == has_u32_arg(m@, i as int),
{
    if i < m.arguments.len() {
        let f = m.arguments.get(i);
        match f.kind {
            DBFieldType::U32 => crate::buffer::bytes_as_slice(&f.value).len() >= 4,
            _ => false,
        }
    } else {
        false
    }
}

/// Whether a render request after `prev` cannot be answered.
fn render_would_panic(prev: Option<StatefulRequest>, database: &Database) -> (b: bool)
    ensures
        b == render_panics(prev, database@),
{
    match prev {
        Some(StatefulRequest::MetadataRequest { track_id }) => match database.get_track(track_id) {
            Some(t) => database.get_artist(t.artist_id()).is_none(),
            None => true,
        },
        Some(StatefulRequest::MountInfoRequest { track_id }) => database.get_track(track_id).is_none(),
        _ => false,
    }
}

/// Whether `process` can answer these bytes in this context (it cannot
/// when a message cannot be read without a panic, or its controller lacks
/// the arguments or the library entries that it needs).
pub fn can_process(bytes: &[u8], context: &ClientState, database: &Database) -> (b: bool)
    ensures
        b == !process_panics(bytes@, context.previous(), database@),
{
    if bytes.len() == 5 {
        return true;
    }
    if !DBMessage::can_parse(bytes) {
        return false;
    }
    match DBMessage::parse(bytes) {
        Ok((_, message)) => match get_controller(&message.request_type) {
            Some(controller) => {
                let prev = match message.request_type {
                    DBRequestType::ArtistRequest => Some(StatefulRequest::ArtistRequest),
                    DBRequestType::TitleRequest => Some(StatefulRequest::TitleRequest),
                    DBRequestType::RootMenuRequest => Some(StatefulRequest::RootMenuRequest),
                    _ => context.previous_request(),
                };
                match controller {
                    Controller::AlbumByArtist => argument_is_u32(&message, 2),
                    Controller::TitleByArtistAlbum => argument_is_u32(&message, 2),
                    Controller::Metadata => argument_is_u32(&message, 1),
                    Controller::QueryMountInfo => argument_is_u32(&message, 1),
                    Controller::Render => !render_would_panic(prev, database),
                    _ => true,
                }
            },
            None => true,
        },
        Err(_) => true,
    }
}

/// Answers the bytes of one request of a client.
pub fn process(bytes: &[u8], context: &mut ClientState, database: &Database) -> (v: Vec<u8>)
    requires
        !process_panics(bytes@, old(context).previous(), database@),
    ensures
        (v@, final(context).previous()) == process_result(
            bytes@,
            old(context).previous(),
            database@,
            old(context).waveform(),
        ),
        final(context).waveform() == old(context).waveform(),
{
    if bytes.len() == 5 {
        return crate::buffer::slice_to_vec(bytes);
    }
    match DBMessage::parse(bytes) {
        Ok((_unprocessed, message)) => {
            match get_controller(&message.request_type) {
                Some(controller) => {
                    let request_type = message.request_type;
                    handle_sequence_requests(context, &request_type);
                    RequestHandler::new(controller, message).respond_to(context, database)
                },
                None => {
                    let m = DBMessage::new(
                        message.transaction_id,
                        DBRequestType::Success,
                        ArgumentCollection::new(Vec::new()),
                    );
                    assert(m@.arguments =~= Seq::<FieldModel>::empty());
                    let mut out: Vec<u8> = Vec::new();
                    m.push_bytes(&mut out);
                    out
                },
            }
        },
        Err(_) => {
            let mut out: Vec<u8> = Vec::new();
            out.push(0x70);
            out.push(0x61);
            out.push(0x6e);
            out.push(0x69);
            out.push(0x63);
            assert(out@ =~= unreadable_answer());
            out
        },
    }
}

// ---------------------------------------------------------------------------
// Laws

/// The request that a query asks the next render request to answer.
pub open spec fn query_request(q: DBMessageModel) -> Option<StatefulRequest> {
    match q.request_type {
        DBRequestType::RootMenuRequest => Some(StatefulRequest::RootMenuRequest),
        DBRequestType::ArtistRequest => Some(StatefulRequest::ArtistRequest),
        DBRequestType::TitleRequest => Some(StatefulRequest::TitleRequest),
        DBRequestType::AlbumByArtistRequest => Some(
            StatefulRequest::AlbumByArtistRequest { artist_id: arg_u32(q, 2) },
        ),
        DBRequestType::TitleByArtistAlbumRequest => Some(
            StatefulRequest::TitleByArtistAlbumRequest { artist_id: arg_u32(q, 2) },
        ),
        DBRequestType::MetadataRequest => Some(
            StatefulRequest::MetadataRequest { track_id: arg_u32(q, 1) },
        ),
        DBRequestType::MountInfoRequest => Some(
            StatefulRequest::MountInfoRequest { track_id: arg_u32(q, 1) },
        ),
        _ => None,
    }
}

/// A query with the arguments its controller reads.
pub open spec fn answerable_query(q: DBMessageModel) -> bool {
    &&& query_request(q) is Some
    &&& (q.request_type == DBRequestType::AlbumByArtistRequest
        || q.request_type == DBRequestType::TitleByArtistAlbumRequest) ==> has_u32_arg(q, 2)
    &&& (q.request_type == DBRequestType::MetadataRequest
        || q.request_type == DBRequestType::MountInfoRequest) ==> has_u32_arg(q, 1)
}

/// A render request renders what the query before it asked for: once the
/// bytes `b1` of a query are processed, whatever was asked before, the bytes
/// `b2` of a render request are answered with the menu of that query (the
/// root menu, the artists, the titles of an artist, a track's metadata or
/// mount information, ...), in the transaction of the render request.
pub proof fn lemma_render_follows_query(
    b1: Seq<u8>,
    b2: Seq<u8>,
    prev: Option<StatefulRequest>,
    db: DatabaseModel,
    waveform: Seq<u8>,
)
    requires
        b1.len() != 5,
        b2.len() != 5,
        !parse_panics(b1),
        !parse_panics(b2),
        spec_message(b1, 0) matches Ok((q, _)) && answerable_query(q) && !render_panics(
            query_request(q),
            db,
        ),
        spec_message(b2, 0) matches Ok((r, _)) && r.request_type == DBRequestType::RenderRequest,
    ensures
        ({
            let q = spec_message(b1, 0).unwrap().0;
            let r = spec_message(b2, 0).unwrap().0;
            let s1 = process_result(b1, prev, db, waveform).1;
            &&& !process_panics(b1, prev, db)
            &&& s1 == query_request(q)
            &&& !process_panics(b2, s1, db)
            &&& process_result(b2, s1, db, waveform) == (
                messages_bytes(render_models(s1, r.transaction_id, db)),
                s1,
            )
        }),
{
}

/// What the library server answers a connecting client: the port of the
/// listener allocated for it, big-endian.
pub fn port_reply(port: u16) -> (v: Vec<u8>)
    ensures
        v@ == be16(port),
{
    let mut v: Vec<u8> = Vec::new();
    push_be16(&mut v, port);
    v
}

/// The big-endian `U32` argument at `i` of a message, if it is one.
pub open spec fn u32_argument(m: DBMessageModel, i: int) -> Option<u32> {
    if 0 <= i < m.arguments.len() && m.arguments[i].0 == DBFieldType::U32
        && m.arguments[i].1.len() == 4 {
        let b = m.arguments[i].1;
        Some(be32_value(b[0], b[1], b[2], b[3]))
    } else {
        None
    }
}

/// A menu item's metadata type, read from its seventh argument.
pub open spec fn item_type(m: DBMessageModel) -> Option<u32> {
    if m.request_type == DBRequestType::MenuItem && m.arguments.len() == 12 {
        u32_argument(m, 6)
    } else {
        None
    }
}

/// The menu that answers a render request after a mount information query
/// for `track_id`.
pub open spec fn mount_info_menu(tid: FieldModel, db: DatabaseModel, track_id: u32) -> Seq<DBMessageModel> {
    render_models(Some(StatefulRequest::MountInfoRequest { track_id }), tid, db)
}

/// When a player asks for a track's mount information, the menu rendered
/// next holds exactly one item of type MOUNT_PATH, and that item names the
/// file to load: its text (fourth argument) is the path stored for the
/// track, its first id the track's size and its second id 5.
pub proof fn lemma_mount_path_item(tid: FieldModel, db: DatabaseModel, track_id: u32)
    requires
        find_track_row(db.tracks, track_id) is Some,
    ensures
        exists|i: int|
            0 <= i < mount_info_menu(tid, db, track_id).len() && #[trigger] item_type(
                mount_info_menu(tid, db, track_id)[i],
            ) == Some(MOUNT_PATH),
        forall|i: int, j: int|
            0 <= i < mount_info_menu(tid, db, track_id).len() && 0 <= j < mount_info_menu(
                tid,
                db,
                track_id,
            ).len() && #[trigger] item_type(mount_info_menu(tid, db, track_id)[i]) == Some(MOUNT_PATH)
                && #[trigger] item_type(mount_info_menu(tid, db, track_id)[j]) == Some(MOUNT_PATH) ==> i
                == j,
        forall|i: int|
            0 <= i < mount_info_menu(tid, db, track_id).len() && #[trigger] item_type(
                mount_info_menu(tid, db, track_id)[i],
            ) == Some(MOUNT_PATH) ==> mount_info_menu(tid, db, track_id)[i].arguments[3] == (
            DBFieldType::String,
            utf16_be(find_track_row(db.tracks, track_id)->0.path),
        ) && u32_argument(mount_info_menu(tid, db, track_id)[i], 0) == Some(
            find_track_row(db.tracks, track_id)->0.size,
        ) && u32_argument(mount_info_menu(tid, db, track_id)[i], 1) == Some(5u32),
{
    let t = find_track_row(db.tracks, track_id)->0;
    let ms = mount_info_menu(tid, db, track_id);
    assert(ms == mount_info_models(tid, t));
    crate::wire::lemma_be32_roundtrip(0);
    crate::wire::lemma_be32_roundtrip(1);
    crate::wire::lemma_be32_roundtrip(5);
    crate::wire::lemma_be32_roundtrip(195);
    crate::wire::lemma_be32_roundtrip(bpm_or_zero(t.bpm));
    crate::wire::lemma_be32_roundtrip(t.size);
    crate::wire::lemma_be32_roundtrip(TITLE);
    crate::wire::lemma_be32_roundtrip(DURATION);
    crate::wire::lemma_be32_roundtrip(BPM);
    crate::wire::lemma_be32_roundtrip(COMMENT);
    crate::wire::lemma_be32_roundtrip(MOUNT_PATH);
    crate::wire::lemma_be32_roundtrip(UNKNOWN1);
    assert(item_type(ms[0]) is None);
    assert(item_type(ms[1]) == Some(TITLE));
    assert(item_type(ms[2]) == Some(DURATION));
    assert(item_type(ms[3]) == Some(BPM));
    assert(item_type(ms[4]) == Some(COMMENT));
    assert(item_type(ms[5]) == Some(MOUNT_PATH));
    assert(item_type(ms[6]) == Some(UNKNOWN1));
    assert(item_type(ms[7]) is None);
    assert(u32_argument(ms[5], 0) == Some(t.size));
    assert(u32_argument(ms[5], 1) == Some(5u32));
}

/// The menu that answers a render request after a metadata query for
/// `track_id`.
pub open spec fn metadata_menu(tid: FieldModel, db: DatabaseModel, track_id: u32) -> Seq<DBMessageModel> {
    render_models(Some(StatefulRequest::MetadataRequest { track_id }), tid, db)
}

/// When a player asks for a track's metadata, the menu rendered next holds
/// an item of type TITLE whose text is the track's title, one of type ARTIST
/// whose text is the name of the track's artist, and one of type BPM whose
/// second id is the track's BPM (0 when unknown); every item of these types
/// says so.
pub proof fn lemma_metadata_items(tid: FieldModel, db: DatabaseModel, track_id: u32)
    requires
        find_track_row(db.tracks, track_id) is Some,
        find_artist_row(db.artists, find_track_row(db.tracks, track_id)->0.artist_id) is Some,
    ensures
        exists|i: int|
            0 <= i < metadata_menu(tid, db, track_id).len() && #[trigger] item_type(
                metadata_menu(tid, db, track_id)[i],
            ) == Some(TITLE),
        exists|i: int|
            0 <= i < metadata_menu(tid, db, track_id).len() && #[trigger] item_type(
                metadata_menu(tid, db, track_id)[i],
            ) == Some(ARTIST),
        exists|i: int|
            0 <= i < metadata_menu(tid, db, track_id).len() && #[trigger] item_type(
                metadata_menu(tid, db, track_id)[i],
            ) == Some(BPM),
        forall|i: int|
            0 <= i < metadata_menu(tid, db, track_id).len() && #[trigger] item_type(
                metadata_menu(tid, db, track_id)[i],
            ) == Some(TITLE) ==> metadata_menu(tid, db, track_id)[i].arguments[3] == (
            DBFieldType::String,
            utf16_be(find_track_row(db.tracks, track_id)->0.title),
        ),
        forall|i: int|
            0 <= i < metadata_menu(tid, db, track_id).len() && #[trigger] item_type(
                metadata_menu(tid, db, track_id)[i],
            ) == Some(ARTIST) ==> metadata_menu(tid, db, track_id)[i].arguments[3] == (
            DBFieldType::String,
            utf16_be(
                find_artist_row(db.artists, find_track_row(db.tracks, track_id)->0.artist_id)->0.name,
            ),
        ),
        forall|i: int|
            0 <= i < metadata_menu(tid, db, track_id).len() && #[trigger] item_type(
                metadata_menu(tid, db, track_id)[i],
            ) == Some(BPM) ==> u32_argument(metadata_menu(tid, db, track_id)[i], 1) == Some(
            bpm_or_zero(find_track_row(db.tracks, track_id)->0.bpm),
        ),
{
    let t = find_track_row(db.tracks, track_id)->0;
    let a = find_artist_row(db.artists, t.artist_id)->0;
    let ms = metadata_menu(tid, db, track_id);
    assert(ms == metadata_models(tid, t, a));
    crate::wire::lemma_be32_roundtrip(0);
    crate::wire::lemma_be32_roundtrip(1);
    crate::wire::lemma_be32_roundtrip(5);
    crate::wire::lemma_be32_roundtrip(195);
    crate::wire::lemma_be32_roundtrip(bpm_or_zero(t.bpm));
    crate::wire::lemma_be32_roundtrip(TITLE);
    crate::wire::lemma_be32_roundtrip(ARTIST);
    crate::wire::lemma_be32_roundtrip(ALBUM);
    crate::wire::lemma_be32_roundtrip(DURATION);
    crate::wire::lemma_be32_roundtrip(BPM);
    crate::wire::lemma_be32_roundtrip(COMMENT);
    crate::wire::lemma_be32_roundtrip(KEY);
    crate::wire::lemma_be32_roundtrip(RATING);
    crate::wire::lemma_be32_roundtrip(COLOR_NONE);
    crate::wire::lemma_be32_roundtrip(GENRE);
    assert(item_type(ms[0]) is None);
    assert(item_type(ms[1]) == Some(TITLE));
    assert(item_type(ms[2]) == Some(ARTIST));
    assert(item_type(ms[3]) == Some(ALBUM));
    assert(item_type(ms[4]) == Some(DURATION));
    assert(item_type(ms[5]) == Some(BPM));
    assert(item_type(ms[6]) == Some(COMMENT));
    assert(item_type(ms[7]) == Some(KEY));
    assert(item_type(ms[8]) == Some(RATING));
    assert(item_type(ms[9]) == Some(COLOR_NONE));
    assert(item_type(ms[10]) == Some(GENRE));
    assert(item_type(ms[11]) is None);
    assert(u32_argument(ms[5], 1) == Some(bpm_or_zero(t.bpm)));
}

/// The artist page lists the library's artists in table order between a
/// header and a footer: its item `k + 1` is of type ARTIST, has the name of
/// the `k`-th artist as its text and that artist's id as its second id.
pub proof fn lemma_artist_page_items(tid: FieldModel, db: DatabaseModel)
    ensures
        render_models(Some(StatefulRequest::ArtistRequest), tid, db).len() == db.artists.len() + 2,
        forall|k: int|
            0 <= k < db.artists.len() ==> {
                let m = #[trigger] render_models(Some(StatefulRequest::ArtistRequest), tid, db)[k + 1];
                &&& item_type(m) == Some(ARTIST)
                &&& m.arguments[3] == (DBFieldType::String, utf16_be(db.artists[k].name))
                &&& u32_argument(m, 1) == Some(db.artists[k].id)
            },
{
    crate::wire::lemma_be32_roundtrip(ARTIST);
    crate::wire::lemma_be32_roundtrip(0);
    let ms = render_models(Some(StatefulRequest::ArtistRequest), tid, db);
    assert forall|k: int| 0 <= k < db.artists.len() implies {
        let m = #[trigger] ms[k + 1];
        &&& item_type(m) == Some(ARTIST)
        &&& m.arguments[3] == (DBFieldType::String, utf16_be(db.artists[k].name))
        &&& u32_argument(m, 1) == Some(db.artists[k].id)
    } by {
        crate::wire::lemma_be32_roundtrip(db.artists[k].id);
        assert(ms[k + 1] == artist_items(tid, db.artists)[k]);
    }
}

/// The titles page of an artist lists that artist's tracks in table order
/// between a header and a footer: its item `k + 1` is of type TITLE, has the
/// title of the `k`-th track filed under the artist as its text and that
/// track's id as its second id.
pub proof fn lemma_title_page_items(tid: FieldModel, db: DatabaseModel, artist_id: u32)
    ensures
        render_models(Some(StatefulRequest::TitleByArtistAlbumRequest { artist_id }), tid, db).len()
            == tracks_of(db.tracks, artist_id).len() + 2,
        forall|k: int|
            0 <= k < tracks_of(db.tracks, artist_id).len() ==> {
                let m = #[trigger] render_models(
                    Some(StatefulRequest::TitleByArtistAlbumRequest { artist_id }),
                    tid,
                    db,
                )[k + 1];
                &&& item_type(m) == Some(TITLE)
                &&& m.arguments[3] == (
                    DBFieldType::String,
                    utf16_be(tracks_of(db.tracks, artist_id)[k].title),
                )
                &&& u32_argument(m, 1) == Some(tracks_of(db.tracks, artist_id)[k].id)
            },
{
    crate::wire::lemma_be32_roundtrip(TITLE);
    crate::wire::lemma_be32_roundtrip(0);
    let ts = tracks_of(db.tracks, artist_id);
    let ms = render_models(Some(StatefulRequest::TitleByArtistAlbumRequest { artist_id }), tid, db);
    assert forall|k: int| 0 <= k < ts.len() implies {
        let m = #[trigger] ms[k + 1];
        &&& item_type(m) == Some(TITLE)
        &&& m.arguments[3] == (DBFieldType::String, utf16_be(ts[k].title))
        &&& u32_argument(m, 1) == Some(ts[k].id)
    } by {
        crate::wire::lemma_be32_roundtrip(ts[k].id);
        assert(ms[k + 1] == track_items(tid, ts)[k]);
    }
}

} // verus!
