//! Framing of RPC messages on a stream: a frame is everything buffered;
//! an encoded message is padded with zero bytes to a multiple of four.

use vstd::prelude::*;
use crate::buffer::bytes_from_vec;
use crate::rpc::packets::{RpcMessage, decode_panics, spec_rpc_message, rpc_message_bytes};
use crate::wire::{zeros, push_zeros};

verus! {

#[derive(Debug, PartialEq, Eq, Clone, Copy)]
pub struct RpcBytesCodec(());

/// The number of zero bytes that pad `length` bytes to a multiple of four.
pub open spec fn fill_count(length: nat) -> nat {
    if length % 4 != 0 {
        (4 - length % 4) as nat
    } else {
        0
    }
}

/// The zero bytes that pad `length` bytes to a multiple of four.
pub fn calculate_fill_bytes(length: usize) -> (v: Vec<u8>)
    ensures
        v@ == zeros(fill_count(length as nat)),
{
    let modulo = length % 4;
    let mut v: Vec<u8> = Vec::new();
    if modulo != 0 {
        push_zeros(&mut v, 4 - modulo);
    } else {
        push_zeros(&mut v, 0);
    }
    v
}

impl RpcBytesCodec {
    /// Creates a codec for shipping `RpcMessage`s back and forth.
    pub fn new() -> (c: RpcBytesCodec) {
        RpcBytesCodec(())
    }

    /// Takes all buffered bytes as one message: none when nothing is
    /// buffered.
    pub fn decode(&mut self, buf: &mut Vec<u8>) -> (r: Result<Option<RpcMessage>, &'static str>)
        requires
            !decode_panics(old(buf)@),
        ensures
            final(buf)@ == Seq::<u8>::empty(),
            old(buf)@.len() == 0 ==> r == Ok::<Option<RpcMessage>, &'static str>(None),
            old(buf)@.len() > 0 ==> match spec_rpc_message(old(buf)@) {
                Ok((m, _)) => r matches Ok(Some(x)) && x@ == m,
                Err(_) => r is Err,
            },
    {
        if buf.len() > 0 {
            let mut taken: Vec<u8> = Vec::new();
            std::mem::swap(&mut taken, buf);
            match RpcMessage::try_from(bytes_from_vec(taken)) {
                Ok(message) => Ok(Some(message)),
                Err(err) => Err(err),
            }
        } else {
            Ok(None)
        }
    }

    /// Appends the message and the zero bytes that pad it to a multiple of
    /// four.
    pub fn encode(&mut self, data: RpcMessage, buf: &mut Vec<u8>) -> (r: Result<(), &'static str>)
        ensures
            r is Ok,
            final(buf)@ == old(buf)@ + rpc_message_bytes(data) + zeros(
                fill_count(rpc_message_bytes(data).len()),
            ),
    {
        let bytes = data.encode();
        let fill_bytes = calculate_fill_bytes(bytes.len());
        let mut bytes = bytes;
        let mut fill_bytes = fill_bytes;
        buf.append(&mut bytes);
        buf.append(&mut fill_bytes);
        Ok(())
    }
}

/// Padding reaches the next multiple of four and is shorter than a word.
pub proof fn lemma_fill_aligns(length: nat)
    ensures
        (length + fill_count(length)) % 4 == 0,
        fill_count(length) < 4,
        zeros(fill_count(length)).len() == fill_count(length),
{
}

} // verus!
