//! The tags of one audio file, as the library scanner reads them.

use vstd::prelude::*;

verus! {

/// The tags of a track.
#[derive(Debug)]
pub struct Metadata {
    pub artist: String,
    pub title: String,
    /// Beats per minute times one hundred, where the file states it.
    pub bpm: Option<u32>,
    pub album: String,
}

/// A scanned track: its tags, where it lies and its size in bytes.
#[derive(Debug)]
pub struct MetadataTrack {
    pub metadata: Metadata,
    pub path: String,
    pub size: u32,
}

impl MetadataTrack {
    pub fn new(metadata: Metadata, path: String, size: u32) -> (t: MetadataTrack)
        ensures
            t.metadata == metadata,
            t.path == path,
            t.size == size,
    {
        MetadataTrack { metadata, path, size }
    }
}

} // verus!
