use termdj::rpc::call::{PortmapProcedure, PortmapProgram, RPCProcedure, RPC};
use termdj::rpc::codec::{calculate_fill_bytes, RpcBytesCodec};
use termdj::rpc::fs::encode_file_handler;
use termdj::rpc::nfs_program::{call_procedure, NfsProcedureError, NfsProcedureKind, RpcNfsProgramHandler};
use termdj::rpc::packets::{
    FileHandle, NfsLookup, PortmapGetportReply, RpcAuth, RpcCall, RpcCredentials, RpcMessage,
    RpcMessageType, RpcProcedure, RpcProgram, RpcReplyMessage,
};
use termdj::rpc::server::{accepted_reply, portmap_reply, rpc_procedure_router, RpcServerError};

fn call(procedure: RpcProcedure) -> RpcMessage {
    RpcMessage::new(
        77,
        RpcMessageType::Call(RpcCall {
            version: 2,
            program: RpcProgram::Nfs,
            program_version: 2,
            procedure,
            credentials: RpcCredentials {
                flavor: 1,
                length: 20,
                stamp: 0,
                machine_name: 0,
                uid: 0,
                gid: 0,
                aux_gid: 0,
            },
            verifier: RpcAuth::Null,
        }),
    )
}

#[test]
fn fill_bytes_align_to_four() {
    assert_eq!(calculate_fill_bytes(0), Vec::<u8>::new());
    assert_eq!(calculate_fill_bytes(5), vec![0, 0, 0]);
    assert_eq!(calculate_fill_bytes(6), vec![0, 0]);
    assert_eq!(calculate_fill_bytes(7), vec![0]);
    assert_eq!(calculate_fill_bytes(8), Vec::<u8>::new());
}

#[test]
fn codec_pads_and_takes_everything() {
    let mut codec = RpcBytesCodec::new();
    let mut buf = vec![0xde, 0xad];
    codec.encode(portmap_reply(21, 36251), &mut buf).unwrap();
    assert_eq!(buf.len(), 2 + 28);
    assert_eq!(&buf[2..6], &[0, 0, 0, 21][..]);
    assert_eq!(&buf[26..30], &[0, 0, 0x8d, 0x9b][..]);

    let mut empty: Vec<u8> = Vec::new();
    assert_eq!(codec.decode(&mut empty), Ok(None));

    let mut incoming = vec![
        0x00, 0x00, 0x00, 0x15, 0x00, 0x00, 0x00, 0x00, 0x00, 0x00, 0x00, 0x02, 0x00, 0x01, 0x86,
        0xa0, 0x00, 0x00, 0x00, 0x02, 0x00, 0x00, 0x00, 0x03, 0x00, 0x00, 0x00, 0x01, 0x00, 0x00,
        0x00, 0x14, 0xfe, 0xc9, 0x98, 0x11, 0x00, 0x00, 0x00, 0x00, 0x00, 0x00, 0x00, 0x00, 0x00,
        0x00, 0x00, 0x00, 0x00, 0x00, 0x00, 0x00, 0x00, 0x00, 0x00, 0x00, 0x00, 0x00, 0x00, 0x00,
        0x00, 0x01, 0x86, 0xa5, 0x00, 0x00, 0x00, 0x01, 0x00, 0x00, 0x00, 0x11, 0x00, 0x00, 0x00,
        0x00,
    ];
    let decoded = codec.decode(&mut incoming).unwrap().unwrap();
    assert!(incoming.is_empty());
    assert_eq!(decoded.xid, 21);
}

#[test]
fn router_answers_calls_only() {
    let request = call(RpcProcedure::NfsNull);
    let data = RpcReplyMessage::PortmapGetport(PortmapGetportReply { port: 1 });
    let answer = rpc_procedure_router(&request, Some(Ok(data))).unwrap();
    assert_eq!(answer, accepted_reply(77, RpcReplyMessage::PortmapGetport(PortmapGetportReply { port: 1 })));
    assert_eq!(rpc_procedure_router(&request, Some(Err("no"))), Err(RpcServerError::IOError("no")));
    assert_eq!(rpc_procedure_router(&request, None), Err(RpcServerError::ProgramNotImplemented));

    let reply = portmap_reply(5, 9);
    assert_eq!(rpc_procedure_router(&reply, None), Err(RpcServerError::ReplyNotAllowed));
}

#[test]
fn nfs_calls_are_sorted() {
    let lookup = call(RpcProcedure::NfsLookup(NfsLookup {
        filename: "Users".to_string(),
        fhandle: FileHandle::new([0; 32]),
    }));
    match &lookup.message {
        RpcMessageType::Call(c) => assert_eq!(call_procedure(c), Ok(NfsProcedureKind::Lookup)),
        _ => unreachable!(),
    }
    match &call(RpcProcedure::NfsNull).message {
        RpcMessageType::Call(c) => assert_eq!(call_procedure(c), Err(NfsProcedureError::NotImplemented)),
        _ => unreachable!(),
    }
}

#[test]
fn lookups_walk_directories() {
    let mut handler = RpcNfsProgramHandler::new();
    assert_eq!(handler.path(), "/");
    let users = handler.lookup_path("Users");
    assert_eq!(users, "/Users");
    handler.record_lookup(users, Some(false));
    assert_eq!(handler.path(), "/Users");
    let jonas = handler.lookup_path("jonas");
    assert_eq!(jonas, "/Users/jonas");
    assert_eq!(handler.lookup_path("/abs"), "/abs");
    handler.record_lookup(jonas, Some(true));
    assert_eq!(handler.path(), "/");
    handler.record_lookup("/nowhere".to_string(), None);
    assert_eq!(handler.path(), "/");
}

#[test]
fn file_handles_hold_the_inode_little_endian() {
    let data = encode_file_handler(0x0102_0304_0506_0708);
    assert_eq!(&data[..8], &[8, 7, 6, 5, 4, 3, 2, 1][..]);
    assert!(data[8..].iter().all(|b| *b == 0));
    let ino = FileHandle::new(data).ino();
    assert!(ino == 0x0102_0304_0506_0708 || ino == 0x0807_0605_0403_0201);
}

#[test]
fn mount_port_request() {
    match termdj::rpc::factories::generate_rpc_mount_procedure() {
        RPC::Portmap(call, PortmapProgram::Getport(PortmapProcedure::Mount(p))) => {
            assert_eq!(call.procedure, RPCProcedure::Getport);
            assert_eq!(p.port, [0x00, 0x01, 0xa4, 0x37]);
        }
        _ => panic!("not a mount port request"),
    }
}
