//! A flat track collection: the tracks as scanned, with the artist names
//! and titles read off them.

use vstd::prelude::*;
use crate::rekordbox::library::model::MetadataTrack;

verus! {

#[derive(Debug)]
pub enum DatabaseError {
    Unknown,
}

#[derive(Debug)]
pub struct Database {
    collection: Vec<MetadataTrack>,
}

/// The artist names of the tracks, each once, in order of first appearance.
pub open spec fn distinct_artists(tracks: Seq<MetadataTrack>) -> Seq<Seq<char>>
    decreases tracks.len(),
{
    if tracks.len() == 0 {
        Seq::empty()
    } else {
        let before = distinct_artists(tracks.drop_last());
        let a = tracks.last().metadata.artist@;
        if before.contains(a) {
            before
        } else {
            before.push(a)
        }
    }
}

pub open spec fn titles(tracks: Seq<MetadataTrack>) -> Seq<Seq<char>> {
    tracks.map_values(|t: MetadataTrack| t.metadata.title@)
}

pub open spec fn string_views(v: Seq<String>) -> Seq<Seq<char>> {
    v.map_values(|s: String| s@)
}

impl Database {
    pub closed spec fn tracks(&self) -> Seq<MetadataTrack> {
        self.collection@
    }

    /// The collection of the scanned `tracks`, in order.
    pub fn new(tracks: Vec<MetadataTrack>) -> (d: Database)
        ensures
            d.tracks() == tracks@,
    {
        let mut database = Database { collection: Vec::new() };
        let mut tracks = tracks;
        let ghost all = tracks@;
        let total = tracks.len();
        let mut done: usize = 0;
        assert(all.skip(0) =~= all);
        while tracks.len() > 0
            invariant
                total == all.len(),
                done + tracks@.len() == all.len(),
                tracks@ == all.skip(done as int),
                database.tracks() == all.take(done as int),
            decreases tracks@.len(),
        {
            let track = tracks.remove(0);
            assert(tracks@ =~= all.skip(done + 1));
            let _ = database.index(track);
            done = done + 1;
            assert(database.tracks() =~= all.take(done as int));
        }
        assert(all.take(done as int) =~= all);
        database
    }

    fn index(&mut self, track: MetadataTrack) -> (r: Result<(), DatabaseError>)
        ensures
            final(self).tracks() == old(self).tracks().push(track),
            r is Ok,
    {
        self.collection.push(track);
        Ok(())
    }

    /// The artist names, each once, in order of first appearance.
    pub fn artists(&self) -> (r: Vec<String>)
        ensures
            string_views(r@) == distinct_artists(self.tracks()),
    {
        let mut ret: Vec<String> = Vec::new();
        let mut i: usize = 0;
        while i < self.collection.len()
            invariant
                i <= self.collection@.len(),
                string_views(ret@) == distinct_artists(self.tracks().take(i as int)),
            decreases self.collection@.len() - i,
        {
            let artist = &self.collection[i].metadata.artist;
            let ghost before = ret@;
            let ghost prefix = self.tracks().take(i as int);
            assert(self.tracks().take(i + 1).drop_last() =~= prefix);
            let mut known = false;
            let mut j: usize = 0;
            while j < ret.len()
                invariant
                    j <= ret@.len(),
                    ret@ == before,
                    known == exists|k: int| 0 <= k < j && ret@[k]@ == artist@,
                decreases ret@.len() - j,
            {
                if ret[j] == *artist {
                    known = true;
                }
                j = j + 1;
            }
            proof {
                let views = string_views(before);
                if known {
                    let k = choose|k: int| 0 <= k < j && ret@[k]@ == artist@;
                    assert(views[k] == artist@);
                } else {
                    assert forall|k: int| 0 <= k < views.len() implies views[k] != artist@ by {}
                }
            }
            if !known {
                ret.push(artist.clone());
                assert(string_views(ret@) =~= string_views(before).push(artist@));
            }
            i = i + 1;
        }
        assert(self.tracks().take(i as int) =~= self.tracks());
        ret
    }

    /// The titles of all tracks, in order (the artist is not looked at).
    pub fn title_by_artist(&self, artist: u32) -> (r: Vec<String>)
        ensures
            string_views(r@) == titles(self.tracks()),
    {
        let mut titles_found: Vec<String> = Vec::new();
        let mut i: usize = 0;
        while i < self.collection.len()
            invariant
                i <= self.collection@.len(),
                string_views(titles_found@) == titles(self.tracks().take(i as int)),
            decreases self.collection@.len() - i,
        {
            let t = self.collection[i].metadata.title.clone();
            let ghost before = titles_found@;
            titles_found.push(t);
            assert(string_views(titles_found@) =~= string_views(before).push(t@));
            assert(titles(self.tracks().take(i + 1)) =~= titles(self.tracks().take(i as int)).push(
                self.tracks()[i as int].metadata.title@,
            ));
            i = i + 1;
        }
        assert(self.tracks().take(i as int) =~= self.tracks());
        titles_found
    }
}

} // verus!
