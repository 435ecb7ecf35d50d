//! The rekordbox side of the protocol.

use vstd::prelude::*;

pub mod db_field;
pub mod db_request_type;
pub mod db_message_argument;
pub mod packets;
pub mod status_packet;
pub mod keepalive;
pub mod library;
pub mod message;
pub mod player;
pub mod event;
pub mod server;
pub mod client;
pub mod state;
pub mod status_event_server;
pub mod rpc;
pub mod db;
pub mod database;
pub mod rpc_socket_pool;
pub mod util;

verus! {

/// The magic that opens every DJ Link UDP packet.
pub const SOFTWARE_IDENTIFICATION: [u8; 10] = [0x51, 0x73, 0x70, 0x74, 0x31, 0x57, 0x6d, 0x4a, 0x4f, 0x4c];

/// The device name that this application announces, NUL padded.
pub const APPLICATION_NAME: [u8; 20] = [
    0x4c, 0x69, 0x6e, 0x75, 0x78, 0x00, 0x00, 0x00, 0x00, 0x00,
    0x00, 0x00, 0x00, 0x00, 0x00, 0x00, 0x00, 0x00, 0x00, 0x00,
];

} // verus!
