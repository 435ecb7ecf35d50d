//! Ready-made calls of the RPC programs.

use vstd::prelude::*;
use crate::rpc::call::{RPC, RPCProcedure, PortmapProgram, PortmapProcedure, value_at, word_at};

verus! {

/// A portmap GETPORT call that asks for the port of the mount program
/// (version 2 header, zero credentials, port word 0x0001a437).
pub fn generate_rpc_mount_procedure() -> (r: RPC)
    ensures
        r matches RPC::Portmap(call, PortmapProgram::Getport(PortmapProcedure::Mount(p))) && call.procedure
            == RPCProcedure::Getport && p.port@ == seq![0x00u8, 0x01, 0xa4, 0x37],
{
    let mut buffer: Vec<u8> = vec![0x00u8; 76];
    buffer.set(11, 0x02);
    buffer.set(13, 0x01);
    buffer.set(14, 0x86);
    buffer.set(15, 0xa0);
    buffer.set(23, 0x03);
    buffer.set(60, 0x00);
    buffer.set(61, 0x01);
    buffer.set(62, 0x86);
    buffer.set(63, 0xa5);
    buffer.set(72, 0x00);
    buffer.set(73, 0x01);
    buffer.set(74, 0xa4);
    buffer.set(75, 0x37);
    let ghost b = buffer@;
    assert(value_at(b, 4) == 0);
    assert(value_at(b, 8) == 2);
    assert(value_at(b, 12) == 100000);
    assert(value_at(b, 20) == 3);
    assert(value_at(b, 60) == 100005);
    assert(word_at(b, 72) =~= seq![0x00u8, 0x01, 0xa4, 0x37]);
    RPC::unmarshall(buffer.as_slice())
}

} // verus!
