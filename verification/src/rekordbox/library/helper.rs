//! Counts and lookups that the menu controllers answer with.

use vstd::prelude::*;
use crate::rekordbox::library::database::{Artist, Database, tracks_of, find_artist_row};

verus! {

/// The number of artists, as a `u32` (taken modulo 2^32).
pub fn number_of_artists(database: &Database) -> (n: u32)
    ensures
        n == database@.artists.len() as u32,
{
    database.artists().len() as u32
}

/// The number of tracks of the artist with `artist_id`, as a `u32` (taken
/// modulo 2^32).
pub fn number_of_tracks_by_artist(artist_id: u32, database: &Database) -> (n: u32)
    ensures
        n == tracks_of(database@.tracks, artist_id).len() as u32,
{
    database.title_by_artist(artist_id).len() as u32
}

/// The artist with `artist_id`, if there is one.
pub fn find_artist(artist_id: u32, database: &Database) -> (r: Option<Artist>)
    ensures
        match r {
            Some(a) => find_artist_row(database@.artists, artist_id) == Some(a@),
            None => find_artist_row(database@.artists, artist_id) is None,
        },
{
    database.get_artist(artist_id)
}

} // verus!
