//! File handles of the NFS server.

use vstd::prelude::*;
use crate::rpc::packets::le64_of;

verus! {

/// The file handle of an inode: its eight bytes little-endian, then zeros.
pub fn encode_file_handler(inode: u64) -> (data: [u8; 32])
    ensures
        le64_of(data@.subrange(0, 8)) == inode,
        forall|i: int| 8 <= i < 32 ==> data@[i] == 0,
{
    let b0 = (inode % 256) as u8;
    let b1 = ((inode >> 8u64) % 256) as u8;
    let b2 = ((inode >> 16u64) % 256) as u8;
    let b3 = ((inode >> 24u64) % 256) as u8;
    let b4 = ((inode >> 32u64) % 256) as u8;
    let b5 = ((inode >> 40u64) % 256) as u8;
    let b6 = ((inode >> 48u64) % 256) as u8;
    let b7 = ((inode >> 56u64) % 256) as u8;
    let data: [u8; 32] = [
        b0, b1, b2, b3, b4, b5, b6, b7, 0, 0, 0, 0, 0, 0, 0, 0, 0, 0, 0, 0, 0, 0, 0, 0, 0, 0, 0, 0,
        0, 0, 0, 0,
    ];
    assert(inode == (inode % 256) + ((inode >> 8u64) % 256) * 0x100 + ((inode >> 16u64) % 256)
        * 0x1_0000 + ((inode >> 24u64) % 256) * 0x100_0000 + ((inode >> 32u64) % 256)
        * 0x1_0000_0000 + ((inode >> 40u64) % 256) * 0x100_0000_0000 + ((inode >> 48u64) % 256)
        * 0x1_0000_0000_0000 + ((inode >> 56u64) % 256) * 0x100_0000_0000_0000) by (bit_vector);
    assert(data@.subrange(0, 8) =~= seq![b0, b1, b2, b3, b4, b5, b6, b7]);
    data
}

} // verus!
