use termdj::rekordbox::library::database::{ArtistTable, Database, Record};
use termdj::rekordbox::library::helper::{find_artist, number_of_artists, number_of_tracks_by_artist};
use termdj::rekordbox::library::model::{Metadata, MetadataTrack};

#[test]
fn it_can_insert_artists() {
    struct SomeModel {
        name: String,
        #[allow(dead_code)]
        id: u32,
    }

    impl Record for SomeModel {
        fn name(&self) -> &String {
            &self.name
        }

        fn id(&self) -> &u32 {
            &0u32
        }
    }

    let mut _table: ArtistTable<SomeModel> = ArtistTable::new();
}

fn track(artist: &str, title: &str, bpm: Option<u32>, size: u32) -> MetadataTrack {
    MetadataTrack::new(
        Metadata {
            artist: artist.to_string(),
            title: title.to_string(),
            bpm,
            album: String::new(),
        },
        format!("/music/{}.mp3", title),
        size,
    )
}

fn library() -> Database {
    Database::new(vec![
        track("Loopmasters", "One", Some(12800), 10),
        track("Other", "Two", None, 20),
        track("Loopmasters", "Three", Some(12000), 30),
    ])
}

#[test]
fn indexing_shares_artists_and_numbers_from_two() {
    let db = library();
    let artists = db.artists();
    assert_eq!(artists.len(), 2);
    assert_eq!(*artists[0].id(), 2);
    assert_eq!(artists[0].name(), "Loopmasters");
    assert_eq!(*artists[1].id(), 3);
    assert_eq!(artists[1].name(), "Other");
    assert_eq!(number_of_artists(&db), 2);
}

#[test]
fn titles_of_an_artist_keep_library_order() {
    let db = library();
    let titles = db.title_by_artist(2);
    assert_eq!(titles.len(), 2);
    assert_eq!(titles[0].name(), "One");
    assert_eq!(*titles[0].id(), 2);
    assert_eq!(titles[1].name(), "Three");
    assert_eq!(*titles[1].id(), 4);
    assert_eq!(number_of_tracks_by_artist(3, &db), 1);
    assert_eq!(number_of_tracks_by_artist(9, &db), 0);
}

#[test]
fn lookups_by_id() {
    let db = library();
    let t = db.get_track(3).unwrap();
    assert_eq!(t.name(), "Two");
    assert_eq!(t.artist_id(), 3);
    assert_eq!(t.bpm(), None);
    assert_eq!(t.size(), 20);
    assert_eq!(t.path(), "/music/Two.mp3");
    assert!(db.get_track(5).is_none());
    assert_eq!(find_artist(3, &db).unwrap().name(), "Other");
    assert!(find_artist(4, &db).is_none());
}

#[test]
fn artists_are_listed_once_and_found_by_their_ids() {
    let db = library();
    let artists = db.artists();
    for (i, a) in artists.iter().enumerate() {
        assert!(*a.id() >= 2);
        let found = db.find_artist(*a.id()).unwrap();
        assert_eq!(found.name(), a.name());
        for b in artists.iter().skip(i + 1) {
            assert_ne!(a.id(), b.id());
            assert_ne!(a.name(), b.name());
        }
    }
    assert!(db.find_artist(0).is_none());
    assert!(db.find_artist(1).is_none());
}

#[test]
fn titles_split_the_tracks_between_artists() {
    let db = library();
    let mut total = 0;
    let mut seen: Vec<u32> = Vec::new();
    for a in db.artists().iter() {
        let titles = db.title_by_artist(*a.id());
        for t in titles.iter() {
            assert_eq!(t.artist_id(), *a.id());
            assert!(!seen.contains(t.id()));
            seen.push(*t.id());
        }
        total += titles.len();
    }
    assert_eq!(total, 3);
    assert!(db.title_by_artist(7).is_empty());
}
