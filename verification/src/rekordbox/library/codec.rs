//! Framing of remote database messages on a stream: a frame is everything
//! buffered.

use vstd::prelude::*;
use crate::buffer::bytes_from_vec;
use crate::rekordbox::packets::{DBMessage, parse_panics, spec_message, message_bytes};

verus! {

#[derive(Debug, PartialEq, Eq, Clone, Copy)]
pub struct DbBytesCodec(());

impl DbBytesCodec {
    /// Creates a codec for shipping `DBMessage`s back and forth.
    pub fn new() -> (c: DbBytesCodec) {
        DbBytesCodec(())
    }

    /// Takes all buffered bytes as one message: none when nothing is
    /// buffered.
    pub fn decode(&mut self, buf: &mut Vec<u8>) -> (r: Result<Option<DBMessage>, &'static str>)
        requires
            !parse_panics(old(buf)@),
        ensures
            final(buf)@ == Seq::<u8>::empty(),
            old(buf)@.len() == 0 ==> r is Ok && r->Ok_0 is None,
            old(buf)@.len() > 0 ==> match spec_message(old(buf)@, 0) {
                Ok((m, _)) => r matches Ok(Some(x)) && x@ == m,
                Err(_) => r is Err,
            },
    {
        if buf.len() > 0 {
            let mut taken: Vec<u8> = Vec::new();
            std::mem::swap(&mut taken, buf);
            match DBMessage::try_from(bytes_from_vec(taken)) {
                Ok(message) => Ok(Some(message)),
                Err(err) => Err(err),
            }
        } else {
            Ok(None)
        }
    }

    /// Appends the message's wire form.
    pub fn encode(&mut self, data: DBMessage, buf: &mut Vec<u8>) -> (r: Result<(), &'static str>)
        ensures
            r is Ok,
            final(buf)@ == old(buf)@ + message_bytes(data@),
    {
        data.push_bytes(buf);
        Ok(())
    }
}

} // verus!
