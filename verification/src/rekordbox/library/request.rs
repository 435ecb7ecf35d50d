//! Requests of the remote database and the controllers that answer them.

use vstd::prelude::*;
use crate::rekordbox::packets::{DBMessage, response_header};
use crate::rekordbox::library::database::Database;
use crate::rekordbox::library::{ClientState, controller_panics, controller_result, to_response};

verus! {

/// Which controller answers a request.
#[derive(Debug, PartialEq, Eq, Structural, Clone, Copy)]
pub enum Controller {
    AlbumByArtist,
    Artist,
    LoadTrack,
    Metadata,
    QueryMountInfo,
    PreviewWaveform,
    Render,
    RootMenu,
    Setup,
    TitleByArtistAlbum,
    Title,
}

/// A request as a controller receives it.
pub struct RequestWrapper {
    pub message: DBMessage,
}

impl RequestWrapper {
    pub fn new(message: DBMessage) -> (r: RequestWrapper)
        ensures
            r.message@ == message@,
    {
        RequestWrapper { message }
    }

    /// The header of the response: marker, magic and transaction id.
    pub fn to_response(&self) -> (v: Vec<u8>)
        ensures
            v@ == response_header(self.message.transaction_id@),
    {
        self.message.to_response()
    }
}

/// A request with the controller that answers it.
pub struct RequestHandler {
    pub request: RequestWrapper,
    pub controller: Controller,
}

impl RequestHandler {
    pub fn new(controller: Controller, message: DBMessage) -> (h: RequestHandler)
        ensures
            h.controller == controller,
            h.request.message@ == message@,
    {
        RequestHandler { request: RequestWrapper::new(message), controller }
    }

    /// Runs the controller on the request.
    pub fn respond_to(self, context: &mut ClientState, database: &Database) -> (v: Vec<u8>)
        requires
            !controller_panics(self.controller, self.request.message@, old(context).previous(), database@),
        ensures
            (v@, final(context).previous()) == controller_result(
                self.controller,
                self.request.message@,
                old(context).previous(),
                database@,
                old(context).waveform(),
            ),
            final(context).waveform() == old(context).waveform(),
    {
        to_response(self.controller, self.request, context, database)
    }
}

} // verus!
