//! The track library: a table of artists and a table of tracks, each keyed
//! by an id that a sequence hands out.
//!
//! Rows are kept in the order in which they were inserted, which is also the
//! order of their ids. Artist names occur at most once: inserting a known
//! name answers the id it already has.

use vstd::prelude::*;
use crate::rekordbox::library::model::MetadataTrack;

verus! {

#[derive(Debug)]
pub enum DatabaseError {
    Unknown,
}

/// An artist row as values.
#[verifier::ext_equal]
pub struct ArtistModel {
    pub id: u32,
    pub name: Seq<char>,
}

/// A track row as values.
#[verifier::ext_equal]
pub struct TrackModel {
    pub id: u32,
    pub artist_id: u32,
    pub title: Seq<char>,
    pub path: Seq<char>,
    pub bpm: Option<u32>,
    pub size: u32,
}

#[derive(Debug)]
pub struct Track {
    id: u32,
    artist_id: u32,
    title: String,
    path: String,
    bpm: Option<u32>,
    size: u32,
}

#[derive(Debug)]
pub struct Artist {
    id: u32,
    name: String,
}

impl View for Track {
    type V = TrackModel;

    closed spec fn view(&self) -> TrackModel {
        TrackModel {
            id: self.id,
            artist_id: self.artist_id,
            title: self.title@,
            path: self.path@,
            bpm: self.bpm,
            size: self.size,
        }
    }
}

impl View for Artist {
    type V = ArtistModel;

    closed spec fn view(&self) -> ArtistModel {
        ArtistModel { id: self.id, name: self.name@ }
    }
}

/// A row with a name and an id.
pub trait Record {
    fn name(&self) -> &String;

    fn id(&self) -> &u32;
}

impl Record for Track {
    fn name(&self) -> (r: &String)
        ensures
            r@ == self@.title,
    {
        &self.title
    }

    fn id(&self) -> (r: &u32)
        ensures
            *r == self@.id,
    {
        &self.id
    }
}

impl Record for Artist {
    fn name(&self) -> (r: &String)
        ensures
            r@ == self@.name,
    {
        &self.name
    }

    fn id(&self) -> (r: &u32)
        ensures
            *r == self@.id,
    {
        &self.id
    }
}

impl Clone for Track {
    fn clone(&self) -> (r: Track)
        ensures
            r@ == self@,
    {
        Track {
            id: self.id,
            artist_id: self.artist_id,
            title: self.title.clone(),
            path: self.path.clone(),
            bpm: self.bpm,
            size: self.size,
        }
    }
}

impl Clone for Artist {
    fn clone(&self) -> (r: Artist)
        ensures
            r@ == self@,
    {
        Artist { id: self.id, name: self.name.clone() }
    }
}

impl Track {
    pub fn artist_id(&self) -> (r: u32)
        ensures
            r == self@.artist_id,
    {
        self.artist_id
    }

    pub fn path(&self) -> (r: &str)
        ensures
            r@ == self@.path,
    {
        self.path.as_str()
    }

    pub fn bpm(&self) -> (r: Option<u32>)
        ensures
            r == self@.bpm,
    {
        self.bpm
    }

    pub fn size(&self) -> (r: u32)
        ensures
            r == self@.size,
    {
        self.size
    }
}

// ---------------------------------------------------------------------------
// Id sequence

/// Hands out ids: each increment answers the counter after adding one, so
/// the first id is 2.
struct Sequence {
    counter: u32,
}

impl Sequence {
    fn new() -> (s: Sequence)
        ensures
            s.counter == 1,
    {
        Sequence { counter: 1 }
    }

    fn increment(&mut self) -> (r: Result<u32, &'static str>)
        requires
            old(self).counter < u32::MAX,
        ensures
            final(self).counter == old(self).counter + 1,
            r == Ok::<u32, &'static str>(final(self).counter),
    {
        self.counter = self.counter + 1;
        Ok(self.counter)
    }
}

// ---------------------------------------------------------------------------
// Tables

/// The ids of artist rows.
pub open spec fn artist_ids(rows: Seq<ArtistModel>) -> Seq<u32> {
    rows.map_values(|a: ArtistModel| a.id)
}

/// Rows whose ids increase along the table, all of them in `2..=counter`.
pub open spec fn ids_allocated(ids: Seq<u32>, counter: u32) -> bool {
    &&& counter >= 1
    &&& forall|i: int| 0 <= i < ids.len() ==> 2 <= #[trigger] ids[i] <= counter
    &&& forall|i: int, j: int| 0 <= i < j < ids.len() ==> ids[i] < ids[j]
}

/// No artist name occurs twice.
pub open spec fn names_distinct(rows: Seq<ArtistModel>) -> bool {
    forall|i: int, j: int| 0 <= i < j < rows.len() ==> rows[i].name != rows[j].name
}

/// The row of `rows` with `name`, if any.
pub open spec fn has_name(rows: Seq<ArtistModel>, name: Seq<char>) -> bool {
    exists|i: int| 0 <= i < rows.len() && #[trigger] rows[i].name == name
}

pub struct ArtistTable<T> {
    rows: Vec<T>,
    sequence: Sequence,
}

pub struct TrackTable<T> {
    rows: Vec<T>,
    sequence: Sequence,
}

pub struct NewArtist {
    pub name: String,
}

pub struct NewTrack {
    pub artist_id: u32,
    pub title: String,
    pub path: String,
    pub bpm: Option<u32>,
    pub size: u32,
}

pub open spec fn artist_models(rows: Seq<Artist>) -> Seq<ArtistModel> {
    rows.map_values(|a: Artist| a@)
}

pub open spec fn track_models(rows: Seq<Track>) -> Seq<TrackModel> {
    rows.map_values(|t: Track| t@)
}

pub open spec fn track_ids(rows: Seq<TrackModel>) -> Seq<u32> {
    rows.map_values(|t: TrackModel| t.id)
}

impl<T> ArtistTable<T> {
    pub fn new() -> (t: ArtistTable<T>)
        ensures
            t.row_count() == 0,
            t.counter() == 1,
    {
        ArtistTable { rows: Vec::new(), sequence: Sequence::new() }
    }

    /// The last id handed out (1 before the first).
    pub closed spec fn counter(&self) -> u32 {
        self.sequence.counter
    }

    pub closed spec fn row_count(&self) -> nat {
        self.rows@.len()
    }
}

impl<T> TrackTable<T> {
    pub fn new() -> (t: TrackTable<T>)
        ensures
            t.row_count() == 0,
            t.counter() == 1,
    {
        TrackTable { rows: Vec::new(), sequence: Sequence::new() }
    }

    /// The last id handed out (1 before the first).
    pub closed spec fn counter(&self) -> u32 {
        self.sequence.counter
    }

    pub closed spec fn row_count(&self) -> nat {
        self.rows@.len()
    }
}

impl ArtistTable<Artist> {
    pub closed spec fn view_rows(&self) -> Seq<ArtistModel> {
        artist_models(self.rows@)
    }

    pub open spec fn wf(&self) -> bool {
        &&& ids_allocated(artist_ids(self.view_rows()), self.counter())
        &&& names_distinct(self.view_rows())
    }

    /// Answers the id of the artist called `document.name`, adding a row with
    /// the next id of the sequence when there is none yet. A new name needs
    /// room for one more id: past `u32::MAX` the sequence's addition would
    /// overflow.
    pub fn insert(&mut self, document: NewArtist) -> (id: u32)
        requires
            old(self).wf(),
            has_name(old(self).view_rows(), document.name@) || old(self).counter() < u32::MAX,
        ensures
            final(self).wf(),
            has_name(old(self).view_rows(), document.name@) ==> {
                &&& final(self).view_rows() == old(self).view_rows()
                &&& final(self).counter() == old(self).counter()
                &&& forall|i: int|
                    0 <= i < old(self).view_rows().len() && #[trigger] old(self).view_rows()[i].name
                        == document.name@ ==> id == old(self).view_rows()[i].id
            },
            !has_name(old(self).view_rows(), document.name@) ==> {
                &&& id == old(self).counter() + 1
                &&& final(self).counter() == id
                &&& final(self).view_rows() == old(self).view_rows().push(
                    ArtistModel { id, name: document.name@ },
                )
            },
    {
        let mut i: usize = 0;
        while i < self.rows.len()
            invariant
                i <= self.rows@.len(),
                self.view_rows() == old(self).view_rows(),
                self.counter() == old(self).counter(),
                self.wf(),
                forall|j: int| 0 <= j < i ==> self.view_rows()[j].name != document.name@,
            decreases self.rows@.len() - i,
        {
            if self.rows[i].name == document.name {
                let id = self.rows[i].id;
                proof {
                    assert(self.view_rows()[i as int].name == document.name@);
                }
                return id;
            }
            i = i + 1;
        }
        proof {
            assert forall|j: int| 0 <= j < self.view_rows().len() implies #[trigger] self.view_rows()[j].name
                != document.name@ by {}
        }
        let id = match self.sequence.increment() {
            Ok(id) => id,
            Err(_) => { return 0; },
        };
        self.rows.push(Artist { id, name: document.name });
        proof {
            assert(self.view_rows() =~= old(self).view_rows().push(
                ArtistModel { id, name: document.name@ },
            ));
            assert(artist_ids(self.view_rows()) =~= artist_ids(old(self).view_rows()).push(id));
        }
        id
    }
}

impl TrackTable<Track> {
    pub closed spec fn view_rows(&self) -> Seq<TrackModel> {
        track_models(self.rows@)
    }

    pub open spec fn wf(&self) -> bool {
        ids_allocated(track_ids(self.view_rows()), self.counter())
    }

    /// Adds a row with the next id of the sequence and answers that id.
    pub fn insert(&mut self, document: NewTrack) -> (id: u32)
        requires
            old(self).wf(),
            old(self).counter() < u32::MAX,
        ensures
            final(self).wf(),
            id == old(self).counter() + 1,
            final(self).counter() == id,
            final(self).view_rows() == old(self).view_rows().push(
                TrackModel {
                    id,
                    artist_id: document.artist_id,
                    title: document.title@,
                    path: document.path@,
                    bpm: document.bpm,
                    size: document.size,
                },
            ),
    {
        let id = match self.sequence.increment() {
            Ok(id) => id,
            Err(_) => { return 0; },
        };
        let ghost doc = document;
        self.rows.push(
            Track {
                id,
                artist_id: document.artist_id,
                path: document.path,
                title: document.title,
                bpm: document.bpm,
                size: document.size,
            },
        );
        proof {
            assert(self.view_rows() =~= old(self).view_rows().push(
                TrackModel {
                    id,
                    artist_id: doc.artist_id,
                    title: doc.title@,
                    path: doc.path@,
                    bpm: doc.bpm,
                    size: doc.size,
                },
            ));
            assert(track_ids(self.view_rows()) =~= track_ids(old(self).view_rows()).push(id));
        }
        id
    }
}

// ---------------------------------------------------------------------------
// The database

struct InnerDatabase {
    artists: ArtistTable<Artist>,
    tracks: TrackTable<Track>,
}

pub struct Database {
    inner: InnerDatabase,
}

/// The library as values: the artist rows, the track rows, and the last ids
/// that the two sequences handed out.
#[verifier::ext_equal]
pub struct DatabaseModel {
    pub artists: Seq<ArtistModel>,
    pub tracks: Seq<TrackModel>,
    pub artist_counter: u32,
    pub track_counter: u32,
}

impl View for Database {
    type V = DatabaseModel;

    closed spec fn view(&self) -> DatabaseModel {
        DatabaseModel {
            artists: self.inner.artists.view_rows(),
            tracks: self.inner.tracks.view_rows(),
            artist_counter: self.inner.artists.counter(),
            track_counter: self.inner.tracks.counter(),
        }
    }
}

/// Every track is filed under an artist of the library.
pub open spec fn tracks_have_artists(d: DatabaseModel) -> bool {
    forall|i: int| 0 <= i < d.tracks.len() ==> artist_ids(d.artists).contains(#[trigger] d.tracks[i].artist_id)
}

/// A library whose ids are handed out from 2 upwards and increase along each
/// table, whose artist names are distinct, and whose tracks are filed under
/// its artists.
pub open spec fn wf_database(d: DatabaseModel) -> bool {
    &&& ids_allocated(artist_ids(d.artists), d.artist_counter)
    &&& names_distinct(d.artists)
    &&& ids_allocated(track_ids(d.tracks), d.track_counter)
    &&& tracks_have_artists(d)
}

/// The artist table after inserting `name`, and the id it answers.
pub open spec fn artists_after(rows: Seq<ArtistModel>, counter: u32, name: Seq<char>) -> (Seq<
    ArtistModel,
>, u32, u32) {
    if has_name(rows, name) {
        let i = choose|i: int| 0 <= i < rows.len() && #[trigger] rows[i].name == name;
        (rows, counter, rows[i].id)
    } else {
        (rows.push(ArtistModel { id: (counter + 1) as u32, name }), (counter + 1) as u32, (counter
            + 1) as u32)
    }
}

/// The library after indexing one scanned track: its artist is found or
/// added, then a track row is added under that artist's id.
pub open spec fn index_track(
    d: DatabaseModel,
    artist: Seq<char>,
    title: Seq<char>,
    path: Seq<char>,
    bpm: Option<u32>,
    size: u32,
) -> DatabaseModel {
    let (artists, artist_counter, artist_id) = artists_after(d.artists, d.artist_counter, artist);
    let track_id = (d.track_counter + 1) as u32;
    DatabaseModel {
        artists,
        tracks: d.tracks.push(TrackModel { id: track_id, artist_id, title, path, bpm, size }),
        artist_counter,
        track_counter: track_id,
    }
}

/// There is room in both sequences for one more track (and perhaps one more
/// artist).
pub open spec fn can_index(d: DatabaseModel) -> bool {
    d.artist_counter < u32::MAX && d.track_counter < u32::MAX
}

/// The library after indexing the scanned tracks in order.
pub open spec fn index_all(d: DatabaseModel, tracks: Seq<MetadataTrack>) -> DatabaseModel
    decreases tracks.len(),
{
    if tracks.len() == 0 {
        d
    } else {
        let t = tracks.last();
        index_track(
            index_all(d, tracks.drop_last()),
            t.metadata.artist@,
            t.metadata.title@,
            t.path@,
            t.metadata.bpm,
            t.size,
        )
    }
}

/// The empty library.
pub open spec fn empty_database() -> DatabaseModel {
    DatabaseModel { artists: Seq::empty(), tracks: Seq::empty(), artist_counter: 1, track_counter: 1 }
}

/// The tracks of one artist, in table order.
pub open spec fn tracks_of(tracks: Seq<TrackModel>, artist_id: u32) -> Seq<TrackModel>
    decreases tracks.len(),
{
    if tracks.len() == 0 {
        Seq::empty()
    } else {
        let r = tracks_of(tracks.drop_last(), artist_id);
        if tracks.last().artist_id == artist_id {
            r.push(tracks.last())
        } else {
            r
        }
    }
}

/// The artist with `id` in `rows`, if any.
pub open spec fn find_artist_row(rows: Seq<ArtistModel>, id: u32) -> Option<ArtistModel> {
    if exists|i: int| 0 <= i < rows.len() && #[trigger] rows[i].id == id {
        Some(rows[choose|i: int| 0 <= i < rows.len() && #[trigger] rows[i].id == id])
    } else {
        None
    }
}

/// The track with `id` in `rows`, if any.
pub open spec fn find_track_row(rows: Seq<TrackModel>, id: u32) -> Option<TrackModel> {
    if exists|i: int| 0 <= i < rows.len() && #[trigger] rows[i].id == id {
        Some(rows[choose|i: int| 0 <= i < rows.len() && #[trigger] rows[i].id == id])
    } else {
        None
    }
}

impl Database {
    #[verifier::type_invariant]
    closed spec fn inner_wf(&self) -> bool {
        wf_database(self@)
    }

    /// The library of the scanned `tracks`, indexed in order.
    pub fn new(tracks: Vec<MetadataTrack>) -> (d: Database)
        requires
            tracks@.len() < u32::MAX - 1,
        ensures
            wf_database(d@),
            d@ == index_all(empty_database(), tracks@),
    {
        let mut database = Database {
            inner: InnerDatabase { artists: ArtistTable::new(), tracks: TrackTable::new() },
        };
        let mut tracks = tracks;
        let ghost all = tracks@;
        proof {
            assert(database@ =~= empty_database());
            assert(all.take(0) =~= Seq::<MetadataTrack>::empty());
            assert(all.skip(0) =~= all);
        }
        let mut done: usize = 0;
        while tracks.len() > 0
            invariant
                done + tracks@.len() == all.len(),
                all.len() < u32::MAX - 1,
                tracks@ == all.skip(done as int),
                wf_database(database@),
                database@ == index_all(empty_database(), all.take(done as int)),
                database@.artist_counter <= done + 1,
                database@.track_counter == done + 1,
            decreases tracks@.len(),
        {
            let track = tracks.remove(0);
            proof {
                assert(track == all[done as int]);
                assert(tracks@ =~= all.skip(done + 1));
            }
            let _ = database.index(track);
            proof {
                assert(all.take(done + 1).drop_last() =~= all.take(done as int));
                assert(all.take(done + 1).last() == all[done as int]);
                lemma_index_all_counters(empty_database(), all.take(done as int));
            }
            done = done + 1;
        }
        assert(all.take(done as int) =~= all);
        database
    }

    /// Finds or adds the track's artist, then adds the track under it.
    pub fn index(&mut self, track: MetadataTrack) -> (r: Result<(), DatabaseError>)
        requires
            can_index(old(self)@),
        ensures
            wf_database(final(self)@),
            r is Ok,
            final(self)@ == index_track(
                old(self)@,
                track.metadata.artist@,
                track.metadata.title@,
                track.path@,
                track.metadata.bpm,
                track.size,
            ),
    {
        proof {
            use_type_invariant(&*self);
        }
        let ghost d = self@;
        let ghost t = track;
        let mut inner = InnerDatabase { artists: ArtistTable::new(), tracks: TrackTable::new() };
        std::mem::swap(&mut inner, &mut self.inner);
        assert(inner.artists.view_rows() == d.artists);
        let artist_id = inner.artists.insert(NewArtist { name: track.metadata.artist });
        proof {
            let rows = d.artists;
            if has_name(rows, t.metadata.artist@) {
                let i = choose|i: int| 0 <= i < rows.len() && #[trigger] rows[i].name
                    == t.metadata.artist@;
                assert(artist_id == rows[i].id);
            }
        }
        inner.tracks.insert(
            NewTrack {
                artist_id,
                path: track.path,
                title: track.metadata.title,
                bpm: track.metadata.bpm,
                size: track.size,
            },
        );
        proof {
            let na = inner.artists.view_rows();
            let nt = inner.tracks.view_rows();
            let name = t.metadata.artist@;
            assert(forall|k: int| 0 <= k < d.artists.len() ==> #[trigger] na[k] == d.artists[k]);
            assert forall|i: int| 0 <= i < nt.len() implies artist_ids(na).contains(
                #[trigger] nt[i].artist_id,
            ) by {
                if i < d.tracks.len() {
                    assert(nt[i] == d.tracks[i]);
                    assert(artist_ids(d.artists).contains(d.tracks[i].artist_id));
                    let k = choose|k: int|
                        0 <= k < artist_ids(d.artists).len() && artist_ids(d.artists)[k]
                            == d.tracks[i].artist_id;
                    assert(artist_ids(na)[k] == nt[i].artist_id);
                } else {
                    assert(nt[i].artist_id == artist_id);
                    if has_name(d.artists, name) {
                        let k = choose|k: int| 0 <= k < d.artists.len() && #[trigger] d.artists[k].name
                            == name;
                        assert(d.artists[k].id == artist_id);
                        assert(artist_ids(na)[k] == artist_id);
                    } else {
                        assert(artist_ids(na)[d.artists.len() as int] == artist_id);
                    }
                }
            }
        }
        self.inner = inner;
        proof {
            assert(self@ =~= index_track(
                d,
                t.metadata.artist@,
                t.metadata.title@,
                t.path@,
                t.metadata.bpm,
                t.size,
            ));
        }
        Ok(())
    }

    /// All artists, in table order.
    pub fn artists(&self) -> (r: Vec<Artist>)
        ensures
            wf_database(self@),
            artist_models(r@) == self@.artists,
    {
        proof {
            use_type_invariant(self);
        }
        let mut ret: Vec<Artist> = Vec::new();
        let rows = &self.inner.artists.rows;
        let mut i: usize = 0;
        while i < rows.len()
            invariant
                i <= rows@.len(),
                rows@ == self.inner.artists.rows@,
                artist_models(ret@) == artist_models(rows@).take(i as int),
            decreases rows@.len() - i,
        {
            let a = rows[i].clone();
            let ghost before = ret@;
            ret.push(a);
            assert(ret@ == before.push(a));
            assert(artist_models(ret@) =~= artist_models(before).push(a@));
            assert(artist_models(rows@).take(i + 1) =~= artist_models(rows@).take(i as int).push(
                rows@[i as int]@,
            ));
            i = i + 1;
            assert(artist_models(ret@) =~= artist_models(rows@).take(i as int));
        }
        assert(artist_models(rows@).take(i as int) =~= artist_models(rows@));
        ret
    }

    /// The artist with `artist_id`, if there is one.
    pub fn find_artist(&self, artist_id: u32) -> (r: Option<Artist>)
        ensures
            wf_database(self@),
            artist_id < 2 ==> r is None,
            match r {
                Some(a) => find_artist_row(self@.artists, artist_id) == Some(a@),
                None => find_artist_row(self@.artists, artist_id) is None,
            },
    {
        proof {
            use_type_invariant(self);
        }
        let rows = &self.inner.artists.rows;
        let mut i: usize = 0;
        while i < rows.len()
            invariant
                i <= rows@.len(),
                rows@ == self.inner.artists.rows@,
                wf_database(self@),
                forall|j: int| 0 <= j < i ==> #[trigger] self@.artists[j].id != artist_id,
            decreases rows@.len() - i,
        {
            if rows[i].id == artist_id {
                let a = rows[i].clone();
                proof {
                    let ids = artist_ids(self@.artists);
                    assert(self@.artists[i as int].id == artist_id);
                    let k = choose|k: int|
                        0 <= k < self@.artists.len() && #[trigger] self@.artists[k].id == artist_id;
                    assert(ids[k] == artist_id && ids[i as int] == artist_id);
                    assert(k == i);
                }
                return Some(a);
            }
            i = i + 1;
        }
        None
    }

    /// The artist with `artist_id`, if there is one.
    pub fn get_artist(&self, artist_id: u32) -> (r: Option<Artist>)
        ensures
            wf_database(self@),
            artist_id < 2 ==> r is None,
            match r {
                Some(a) => find_artist_row(self@.artists, artist_id) == Some(a@),
                None => find_artist_row(self@.artists, artist_id) is None,
            },
    {
        self.find_artist(artist_id)
    }

    /// The track with `track_id`, if there is one.
    pub fn get_track(&self, track_id: u32) -> (r: Option<Track>)
        ensures
            wf_database(self@),
            track_id < 2 ==> r is None,
            match r {
                Some(t) => find_track_row(self@.tracks, track_id) == Some(t@),
                None => find_track_row(self@.tracks, track_id) is None,
            },
    {
        proof {
            use_type_invariant(self);
        }
        let rows = &self.inner.tracks.rows;
        let mut i: usize = 0;
        while i < rows.len()
            invariant
                i <= rows@.len(),
                rows@ == self.inner.tracks.rows@,
                wf_database(self@),
                forall|j: int| 0 <= j < i ==> #[trigger] self@.tracks[j].id != track_id,
            decreases rows@.len() - i,
        {
            if rows[i].id == track_id {
                let t = rows[i].clone();
                proof {
                    assert(self@.tracks[i as int].id == track_id);
                    let ids = track_ids(self@.tracks);
                    let k = choose|k: int|
                        0 <= k < self@.tracks.len() && #[trigger] self@.tracks[k].id == track_id;
                    assert(ids[k] == track_id && ids[i as int] == track_id);
                    assert(k == i);
                }
                return Some(t);
            }
            i = i + 1;
        }
        None
    }

    /// The tracks of the artist with `artist_id`, in table order.
    pub fn title_by_artist(&self, artist_id: u32) -> (r: Vec<Track>)
        ensures
            wf_database(self@),
            track_models(r@) == tracks_of(self@.tracks, artist_id),
    {
        proof {
            use_type_invariant(self);
        }
        let mut titles: Vec<Track> = Vec::new();
        let rows = &self.inner.tracks.rows;
        let mut i: usize = 0;
        while i < rows.len()
            invariant
                i <= rows@.len(),
                rows@ == self.inner.tracks.rows@,
                track_models(titles@) == tracks_of(track_models(rows@).take(i as int), artist_id),
            decreases rows@.len() - i,
        {
            let ghost before = track_models(rows@).take(i as int);
            assert(track_models(rows@).take(i + 1).drop_last() =~= before);
            if rows[i].artist_id == artist_id {
                titles.push(rows[i].clone());
                assert(track_models(titles@) =~= tracks_of(before, artist_id).push(rows@[i as int]@));
            }
            i = i + 1;
        }
        assert(track_models(rows@).take(i as int) =~= track_models(rows@));
        titles
    }
}

/// The counters after indexing `n` tracks: the track counter went up by
/// one per track, the artist counter by at most one.
proof fn lemma_index_all_counters(d: DatabaseModel, tracks: Seq<MetadataTrack>)
    requires
        d.track_counter + tracks.len() < u32::MAX,
        d.artist_counter + tracks.len() < u32::MAX,
    ensures
        index_all(d, tracks).track_counter == d.track_counter + tracks.len(),
        d.artist_counter <= index_all(d, tracks).artist_counter <= d.artist_counter + tracks.len(),
    decreases tracks.len(),
{
    if tracks.len() > 0 {
        lemma_index_all_counters(d, tracks.drop_last());
    }
}

// ---------------------------------------------------------------------------
// Laws of the library

/// The artist table lists every artist once: no two rows share an id or a
/// name, every id is at least 2 (so ids 0 and 1 find nothing), looking up a
/// row's id finds that very row, and whatever a lookup finds is a row of the
/// table under the id asked for.
pub proof fn lemma_artists_distinct_complete(d: DatabaseModel)
    requires
        wf_database(d),
    ensures
        forall|i: int, j: int|
            0 <= i < j < d.artists.len() ==> #[trigger] d.artists[i].id != #[trigger] d.artists[j].id
                && d.artists[i].name != d.artists[j].name,
        forall|i: int|
            0 <= i < d.artists.len() ==> 2 <= #[trigger] d.artists[i].id && find_artist_row(
                d.artists,
                d.artists[i].id,
            ) == Some(d.artists[i]),
        forall|id: u32|
            #[trigger] find_artist_row(d.artists, id) is Some ==> find_artist_row(d.artists, id)->0.id
                == id && d.artists.contains(find_artist_row(d.artists, id)->0),
        forall|id: u32| id < 2 ==> #[trigger] find_artist_row(d.artists, id) is None,
{
    let ids = artist_ids(d.artists);
    assert forall|i: int, j: int| 0 <= i < j < d.artists.len() implies #[trigger] d.artists[i].id
        != #[trigger] d.artists[j].id && d.artists[i].name != d.artists[j].name by {
        assert(ids[i] < ids[j]);
    }
    assert forall|i: int| 0 <= i < d.artists.len() implies 2 <= #[trigger] d.artists[i].id
        && find_artist_row(d.artists, d.artists[i].id) == Some(d.artists[i]) by {
        assert(ids[i] == d.artists[i].id);
        let id = d.artists[i].id;
        assert(exists|k: int| 0 <= k < d.artists.len() && #[trigger] d.artists[k].id == id);
        let k = choose|k: int| 0 <= k < d.artists.len() && #[trigger] d.artists[k].id == id;
        assert(ids[k] == id);
        if k < i {
            assert(ids[k] < ids[i]);
        } else if i < k {
            assert(ids[i] < ids[k]);
        }
    }
    assert forall|id: u32| #[trigger] find_artist_row(d.artists, id) is Some implies find_artist_row(
        d.artists,
        id,
    )->0.id == id && d.artists.contains(find_artist_row(d.artists, id)->0) by {
        let k = choose|k: int| 0 <= k < d.artists.len() && #[trigger] d.artists[k].id == id;
        assert(d.artists[k] == find_artist_row(d.artists, id)->0);
    }
    assert forall|id: u32| id < 2 implies #[trigger] find_artist_row(d.artists, id) is None by {
        if exists|k: int| 0 <= k < d.artists.len() && #[trigger] d.artists[k].id == id {
            let k = choose|k: int| 0 <= k < d.artists.len() && #[trigger] d.artists[k].id == id;
            assert(ids[k] == id);
        }
    }
}

/// How many tracks the artists `ids` have, added up over `ids`.
pub open spec fn track_count_sum(tracks: Seq<TrackModel>, ids: Seq<u32>) -> nat
    decreases ids.len(),
{
    if ids.len() == 0 {
        0
    } else {
        track_count_sum(tracks, ids.drop_last()) + tracks_of(tracks, ids.last()).len()
    }
}

/// The tracks of one artist are exactly the library's tracks filed under that
/// artist, each once and in table order. So the lists of two artists share no
/// track, an artist without tracks has an empty list, and the lengths of the
/// lists of all artists add up to the number of tracks.
pub proof fn lemma_titles_partition(d: DatabaseModel)
    requires
        wf_database(d),
    ensures
        forall|a: u32, k: int|
            0 <= k < tracks_of(d.tracks, a).len() ==> (#[trigger] tracks_of(d.tracks, a)[k]).artist_id
                == a && d.tracks.contains(tracks_of(d.tracks, a)[k]),
        forall|i: int|
            0 <= i < d.tracks.len() ==> tracks_of(d.tracks, (#[trigger] d.tracks[i]).artist_id).contains(
                d.tracks[i],
            ),
        forall|a: u32, i: int, j: int|
            0 <= i < j < tracks_of(d.tracks, a).len() ==> (#[trigger] tracks_of(d.tracks, a)[i]).id
                < (#[trigger] tracks_of(d.tracks, a)[j]).id,
        forall|a: u32, b: u32, i: int, j: int|
            a != b && 0 <= i < tracks_of(d.tracks, a).len() && 0 <= j < tracks_of(d.tracks, b).len()
                ==> #[trigger] tracks_of(d.tracks, a)[i] != #[trigger] tracks_of(d.tracks, b)[j],
        forall|a: u32|
            (forall|i: int| 0 <= i < d.tracks.len() ==> d.tracks[i].artist_id != a) ==> (
            #[trigger] tracks_of(d.tracks, a)).len() == 0,
        track_count_sum(d.tracks, artist_ids(d.artists)) == d.tracks.len(),
{
    let ids = track_ids(d.tracks);
    assert forall|i: int, j: int| 0 <= i < j < d.tracks.len() implies (#[trigger] d.tracks[i]).id
        < (#[trigger] d.tracks[j]).id by {
        assert(ids[i] < ids[j]);
    }
    assert forall|a: u32, k: int| 0 <= k < tracks_of(d.tracks, a).len() implies (
    #[trigger] tracks_of(d.tracks, a)[k]).artist_id == a && d.tracks.contains(
        tracks_of(d.tracks, a)[k],
    ) by {
        lemma_tracks_of_facts(d.tracks, a);
        let j = choose|j: int| 0 <= j < d.tracks.len() && d.tracks[j] == tracks_of(d.tracks, a)[k];
    }
    assert forall|a: u32, i: int, j: int| 0 <= i < j < tracks_of(d.tracks, a).len() implies (
    #[trigger] tracks_of(d.tracks, a)[i]).id < (#[trigger] tracks_of(d.tracks, a)[j]).id by {
        lemma_tracks_of_facts(d.tracks, a);
    }
    assert forall|i: int| 0 <= i < d.tracks.len() implies tracks_of(
        d.tracks,
        (#[trigger] d.tracks[i]).artist_id,
    ).contains(d.tracks[i]) by {
        lemma_tracks_of_complete(d.tracks, i);
    }
    assert forall|a: u32|
        (forall|i: int| 0 <= i < d.tracks.len() ==> d.tracks[i].artist_id != a) implies (
        #[trigger] tracks_of(d.tracks, a)).len() == 0 by {
        lemma_tracks_of_facts(d.tracks, a);
        if tracks_of(d.tracks, a).len() > 0 {
            let t = tracks_of(d.tracks, a)[0];
            let j = choose|j: int| 0 <= j < d.tracks.len() && d.tracks[j] == t;
            assert(d.tracks[j].artist_id == a);
        }
    }
    let aids = artist_ids(d.artists);
    assert forall|i: int, j: int| 0 <= i < j < aids.len() implies aids[i] != aids[j] by {
        assert(aids[i] < aids[j]);
    }
    lemma_count_sum_total(d.tracks, aids);
}

/// What holds of the tracks of artist `a`: each is filed under `a`, each is a
/// track of the table, and their ids increase when the table's do.
spec fn tracks_of_facts(tracks: Seq<TrackModel>, a: u32) -> bool {
    let r = tracks_of(tracks, a);
    &&& forall|k: int| 0 <= k < r.len() ==> (#[trigger] r[k]).artist_id == a
    &&& forall|k: int|
        0 <= k < r.len() ==> exists|j: int| 0 <= j < tracks.len() && tracks[j] == #[trigger] r[k]
    &&& (forall|i: int, j: int| 0 <= i < j < tracks.len() ==> (#[trigger] tracks[i]).id
        < (#[trigger] tracks[j]).id) ==> forall|i: int, j: int|
        0 <= i < j < r.len() ==> (#[trigger] r[i]).id < (#[trigger] r[j]).id
}

proof fn lemma_tracks_of_facts(tracks: Seq<TrackModel>, a: u32)
    ensures
        tracks_of_facts(tracks, a),
    decreases tracks.len(),
{
    if tracks.len() > 0 {
        let p = tracks.drop_last();
        lemma_tracks_of_facts(p, a);
        let rp = tracks_of(p, a);
        let r = tracks_of(tracks, a);
        assert forall|k: int| 0 <= k < r.len() implies exists|j: int|
            0 <= j < tracks.len() && tracks[j] == #[trigger] r[k] by {
            if k < rp.len() {
                assert(r[k] == rp[k]);
                let j = choose|j: int| 0 <= j < p.len() && p[j] == #[trigger] rp[k];
                assert(tracks[j] == r[k]);
            } else {
                assert(r[k] == tracks[tracks.len() - 1]);
            }
        }
        if forall|i: int, j: int| 0 <= i < j < tracks.len() ==> (#[trigger] tracks[i]).id
            < (#[trigger] tracks[j]).id {
            assert forall|i: int, j: int| 0 <= i < j < p.len() implies (#[trigger] p[i]).id
                < (#[trigger] p[j]).id by {
                assert(p[i] == tracks[i] && p[j] == tracks[j]);
            }
            assert forall|i: int, j: int| 0 <= i < j < r.len() implies (#[trigger] r[i]).id
                < (#[trigger] r[j]).id by {
                if j < rp.len() {
                    assert(r[i] == rp[i] && r[j] == rp[j]);
                } else {
                    assert(r[i] == rp[i]);
                    let m = choose|m: int| 0 <= m < p.len() && p[m] == #[trigger] rp[i];
                    assert(p[m] == tracks[m]);
                    assert(r[j] == tracks[tracks.len() - 1]);
                    assert(tracks[m].id < tracks[tracks.len() - 1].id);
                }
            }
        }
    }
}

proof fn lemma_tracks_of_complete(tracks: Seq<TrackModel>, i: int)
    requires
        0 <= i < tracks.len(),
    ensures
        tracks_of(tracks, tracks[i].artist_id).contains(tracks[i]),
    decreases tracks.len(),
{
    let a = tracks[i].artist_id;
    let p = tracks.drop_last();
    let r = tracks_of(tracks, a);
    if i == tracks.len() - 1 {
        assert(r[r.len() - 1] == tracks[i]);
    } else {
        assert(p[i] == tracks[i]);
        lemma_tracks_of_complete(p, i);
        let rp = tracks_of(p, a);
        let k = choose|k: int| 0 <= k < rp.len() && rp[k] == tracks[i];
        assert(r[k] == rp[k]);
    }
}

/// How often `x` occurs in `ids`.
spec fn occurrences(ids: Seq<u32>, x: u32) -> nat
    decreases ids.len(),
{
    if ids.len() == 0 {
        0
    } else {
        occurrences(ids.drop_last(), x) + if ids.last() == x {
            1nat
        } else {
            0nat
        }
    }
}

proof fn lemma_occurrences_distinct(ids: Seq<u32>, x: u32)
    requires
        forall|i: int, j: int| 0 <= i < j < ids.len() ==> ids[i] != ids[j],
    ensures
        occurrences(ids, x) == if ids.contains(x) {
            1nat
        } else {
            0nat
        },
    decreases ids.len(),
{
    if ids.len() > 0 {
        let p = ids.drop_last();
        assert forall|i: int, j: int| 0 <= i < j < p.len() implies p[i] != p[j] by {
            assert(p[i] == ids[i] && p[j] == ids[j]);
        }
        lemma_occurrences_distinct(p, x);
        if p.contains(x) {
            let k = choose|k: int| 0 <= k < p.len() && p[k] == x;
            assert(ids[k] == x);
            assert(ids[k] != ids[ids.len() - 1]);
        }
        if ids.contains(x) && ids.last() != x {
            let k = choose|k: int| 0 <= k < ids.len() && ids[k] == x;
            assert(p[k] == x);
        }
    }
}

proof fn lemma_count_sum_empty(ids: Seq<u32>)
    ensures
        track_count_sum(Seq::empty(), ids) == 0,
    decreases ids.len(),
{
    if ids.len() > 0 {
        lemma_count_sum_empty(ids.drop_last());
    }
}

proof fn lemma_count_sum_step(tracks: Seq<TrackModel>, ids: Seq<u32>)
    requires
        tracks.len() > 0,
    ensures
        track_count_sum(tracks, ids) == track_count_sum(tracks.drop_last(), ids) + occurrences(
            ids,
            tracks.last().artist_id,
        ),
    decreases ids.len(),
{
    if ids.len() > 0 {
        lemma_count_sum_step(tracks, ids.drop_last());
    }
}

proof fn lemma_count_sum_total(tracks: Seq<TrackModel>, ids: Seq<u32>)
    requires
        forall|i: int, j: int| 0 <= i < j < ids.len() ==> ids[i] != ids[j],
        forall|i: int| 0 <= i < tracks.len() ==> ids.contains(#[trigger] tracks[i].artist_id),
    ensures
        track_count_sum(tracks, ids) == tracks.len(),
    decreases tracks.len(),
{
    if tracks.len() == 0 {
        assert(tracks =~= Seq::empty());
        lemma_count_sum_empty(ids);
    } else {
        let p = tracks.drop_last();
        assert forall|i: int| 0 <= i < p.len() implies ids.contains(#[trigger] p[i].artist_id) by {
            assert(p[i] == tracks[i]);
        }
        lemma_count_sum_total(p, ids);
        lemma_count_sum_step(tracks, ids);
        assert(ids.contains(tracks[tracks.len() - 1].artist_id));
        lemma_occurrences_distinct(ids, tracks.last().artist_id);
    }
}

} // verus!
