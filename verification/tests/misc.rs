use termdj::discovery::Options;
use termdj::library::{
    LibraryError,
    extract_id3v1, extract_id3v2, has_mp3_extension, is_hidden, parse_decimal_u32, try_extract_id3v2,
};
use termdj::rekordbox::database::Database as FlatDatabase;
use termdj::rekordbox::library::model::{Metadata, MetadataTrack};
use termdj::rekordbox::rpc_socket_pool::Pool;
use termdj::rekordbox::util::clone_into_array;

#[test]
fn decimal_parsing_follows_str_parse() {
    for s in ["0", "128", "+7", "4294967295", "", "+", "-1", "12a", "4294967296", " 1"] {
        assert_eq!(parse_decimal_u32(s), s.parse::<u32>().ok(), "{:?}", s);
    }
}

#[test]
fn id3v2_fields_and_bpm() {
    let mut tag = id3::Tag::new();
    tag.set_artist("Loopmasters");
    tag.set_title("One");
    tag.set_text("TBPM", "128");
    let m = extract_id3v2(tag);
    assert_eq!(m.artist, "Loopmasters");
    assert_eq!(m.title, "One");
    assert_eq!(m.album, "");
    assert_eq!(m.bpm, Some(12800));

    let mut tag = id3::Tag::new();
    tag.set_album("Album");
    tag.set_text("TBPM", "fast");
    let m = try_extract_id3v2(tag).unwrap();
    assert_eq!(m.album, "Album");
    assert_eq!(m.artist, "");
    assert_eq!(m.bpm, None);

    let mut tag = id3::Tag::new();
    tag.set_text("TBPM", "50000000");
    assert!(try_extract_id3v2(tag).is_none());
}

#[test]
fn id3v1_has_no_bpm() {
    let m = extract_id3v1("A".to_string(), "T".to_string(), "B".to_string());
    assert_eq!(m.artist, "A");
    assert_eq!(m.title, "T");
    assert_eq!(m.album, "B");
    assert_eq!(m.bpm, None);
}

#[test]
fn arrays_from_slices() {
    let a: [u8; 4] = clone_into_array(&[1, 2, 3, 4, 5]);
    assert_eq!(a, [1, 2, 3, 4]);
}

#[test]
fn ports_come_from_the_end_and_go_back() {
    let mut pool = Pool::new(50000..=50002).unwrap();
    let first = pool.get().unwrap();
    assert_eq!(first.get_port(), 50002);
    let second = pool.get_timeout().unwrap();
    assert_eq!(second.get_port(), 50001);
    pool.put_back_port(first);
    assert_eq!(pool.get().unwrap().get_port(), 50002);
}

#[test]
fn listen_address_is_kept() {
    let o = Options { listen_address: "0.0.0.0:50000".to_string() };
    assert_eq!(o.listen_address(), "0.0.0.0:50000");
}

fn track(artist: &str, title: &str) -> MetadataTrack {
    MetadataTrack::new(
        Metadata { artist: artist.to_string(), title: title.to_string(), bpm: None, album: String::new() },
        format!("/{}", title),
        1,
    )
}

#[test]
fn flat_database_lists_artists_once() {
    let db = FlatDatabase::new(vec![track("B", "1"), track("A", "2"), track("B", "3")]);
    assert_eq!(db.artists(), vec!["B".to_string(), "A".to_string()]);
    assert_eq!(db.title_by_artist(0), vec!["1".to_string(), "2".to_string(), "3".to_string()]);
}

#[test]
fn hidden_entries_and_mp3_files() {
    assert!(is_hidden(Some(".git")));
    assert!(!is_hidden(Some("music")));
    assert!(!is_hidden(Some("")));
    assert!(!is_hidden(None));
    assert!(has_mp3_extension(Some("mp3")));
    assert!(!has_mp3_extension(Some("MP3")));
    assert!(!has_mp3_extension(Some("mp33")));
    assert!(!has_mp3_extension(None));
}

#[test]
fn io_errors_become_library_errors() {
    assert!(matches!(LibraryError::from_io_kind(std::io::ErrorKind::NotFound), LibraryError::FileNotFound));
    assert!(matches!(
        LibraryError::from_io_kind(std::io::ErrorKind::PermissionDenied),
        LibraryError::Other(std::io::ErrorKind::PermissionDenied)
    ));
}
