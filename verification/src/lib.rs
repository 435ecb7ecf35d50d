//! Verified protocol logic for a Pioneer DJ Link / rekordbox compatible
//! library server: packet encoders and decoders, the remote database
//! dialog, the RPC (portmap, mount, NFS) messages, and the state that the
//! servers keep.

pub mod buffer;
pub mod wire;
pub mod text;
pub mod rekordbox;
pub mod utils;
pub mod rpc;
pub mod library;
pub mod discovery;
