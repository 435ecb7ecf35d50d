//! The RPC services that players mount the library with: portmap, mount and
//! NFS.

pub mod packets;
pub mod call;
pub mod factories;
pub mod codec;
pub mod server;
pub mod fs;
pub mod nfs_program;
