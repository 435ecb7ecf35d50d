//! The mount program's answers: the exported directory and the root handle.

use vstd::prelude::*;
use crate::rekordbox::server::ServerState;
use crate::rpc::packets::{
    MountMnt, MountMntReply, MountExportReply, ExportListEntry, FileHandle, RpcProcedure,
    RpcReplyMessage, string_views,
};
use crate::utils::network::{Ipv4, dotted, push_dotted};

verus! {

/// The export group of a network: `address/mask` in dotted decimal.
pub open spec fn export_group(ip: Ipv4, mask: Ipv4) -> Seq<char> {
    dotted(ip) + seq!['/'] + dotted(mask)
}

/// A mount request is answered with status 0 and the zero handle.
pub fn mount_mnt_rpc_callback(_data: &MountMnt) -> (r: Result<MountMntReply, &'static str>)
    ensures
        r matches Ok(reply) && reply.status == 0 && reply.fhandle@ == Seq::new(32, |i: int| 0u8),
{
    let f = FileHandle::new([0x00; 32]);
    assert(f@ =~= Seq::new(32, |i: int| 0u8));
    Ok(MountMntReply::new(0, f))
}

/// The export list: the root directory, open to the network that was found
/// (its address and mask); refused while no network is known.
pub fn mount_export_rpc_callback(state: &ServerState) -> (r: Result<MountExportReply, &'static str>)
    ensures
        match state@.address {
            Some(a) => r matches Ok(reply) && reply.export_list_entries@.len() == 1
                && reply.export_list_entries@[0].directory@ == seq!['/'] && string_views(
                reply.export_list_entries@[0].groups@,
            ) == seq![export_group(a.network.spec_ip(), crate::utils::network::Ipv4::from_u32_spec(
                crate::utils::network::mask_of(a.network.spec_prefix()),
            ))],
            None => r == Err::<MountExportReply, &'static str>("Duno"),
        },
{
    match state.address() {
        Some(address) => {
            let mut text: Vec<char> = Vec::new();
            let ip = address.ip();
            push_dotted(&mut text, ip);
            text.push('/');
            let mask = address.mask();
            push_dotted(&mut text, mask);
            assert(text@ =~= export_group(ip, mask));
            proof {
                crate::utils::network::lemma_from_u32_spec(mask);
            }
            let group = crate::text::string_from_chars(&text);
            let mut groups: Vec<String> = Vec::new();
            groups.push(group);
            assert(string_views(groups@) =~= seq![export_group(ip, mask)]);
            let root = "/".to_string();
            proof {
                reveal_strlit("/");
            }
            let entry = ExportListEntry::new(root, groups);
            let mut entries: Vec<ExportListEntry> = Vec::new();
            entries.push(entry);
            let reply = MountExportReply { export_list_entries: entries };
            assert(reply.export_list_entries@[0].directory@ =~= seq!['/']);
            assert(string_views(reply.export_list_entries@[0].groups@) =~= seq![
                export_group(address.network.spec_ip(), mask),
            ]);
            Ok(reply)
        },
        None => Err("Duno"),
    }
}

/// The mount program's handler: export and mount requests are answered,
/// other procedures are not handled here.
pub fn on_event(state: &ServerState, procedure: &RpcProcedure) -> (r: Option<Result<RpcReplyMessage, &'static str>>)
    ensures
        (procedure is MountExport || procedure is MountMnt) <==> r is Some,
        procedure is MountExport && state@.address is None ==> r == Some(
            Err::<RpcReplyMessage, &'static str>("Duno"),
        ),
        procedure is MountExport && state@.address is Some ==> (r matches Some(Ok(m)) && m is MountExport),
        procedure is MountMnt ==> (r matches Some(Ok(m)) && m is MountMnt),
{
    match procedure {
        RpcProcedure::MountExport => Some(
            match mount_export_rpc_callback(state) {
                Ok(reply) => Ok(RpcReplyMessage::MountExport(reply)),
                Err(err) => Err(err),
            },
        ),
        RpcProcedure::MountMnt(data) => Some(
            match mount_mnt_rpc_callback(data) {
                Ok(reply) => Ok(RpcReplyMessage::MountMnt(reply)),
                Err(err) => Err(err),
            },
        ),
        _ => None,
    }
}

} // verus!
