use bytes::Bytes;
use termdj::rpc::packets::{
    ExportListEntry, FileHandle, FileType, MountExportReply, MountMnt, MountMntReply,
    NfsFileAttributes, NfsLookupReply, PortmapGetport, PortmapGetportReply, PortmapProtocol,
    RpcAcceptState, RpcAuth, RpcCall, RpcCredentials, RpcMessage, RpcMessageType, RpcProcedure,
    RpcProgram, RpcReply, RpcReplyMessage, RpcReplyState,
};

fn credentials(stamp: u32) -> RpcCredentials {
    RpcCredentials {
        flavor: 1,
        length: 20,
        stamp,
        machine_name: 0u32,
        uid: 0u32,
        gid: 0u32,
        aux_gid: 0u32,
    }
}

#[test]
fn test_decoding_portmap_nfs_call() {
    let call = Bytes::from(vec![
        0x00, 0x00, 0x01, 0x03, 0x00, 0x00, 0x00, 0x00, 0x00, 0x00, 0x00, 0x02, 0x00, 0x01, 0x86,
        0xa0, 0x00, 0x00, 0x00, 0x02, 0x00, 0x00, 0x00, 0x03, 0x00, 0x00, 0x00, 0x01, 0x00, 0x00,
        0x00, 0x14, 0x25, 0x37, 0x91, 0x2c, 0x00, 0x00, 0x00, 0x00, 0x00, 0x00, 0x00, 0x00, 0x00,
        0x00, 0x00, 0x00, 0x00, 0x00, 0x00, 0x00, 0x00, 0x00, 0x00, 0x00, 0x00, 0x00, 0x00, 0x00,
        0x00, 0x01, 0x86, 0xa3, 0x00, 0x00, 0x00, 0x02, 0x00, 0x00, 0x00, 0x11, 0x00, 0x00, 0x00,
        0x00,
    ]);

    assert_eq!(
        Ok((
            &[][..],
            RpcMessage {
                xid: 259u32,
                message: RpcMessageType::Call(RpcCall {
                    version: 2,
                    program: RpcProgram::Portmap,
                    program_version: 2,
                    procedure: RpcProcedure::PortmapGetport(PortmapGetport {
                        version: 2,
                        program: RpcProgram::Nfs,
                        protocol: PortmapProtocol::Udp,
                        port: 0,
                    }),
                    credentials: credentials(624398636),
                    verifier: RpcAuth::Null,
                }),
            }
        )),
        RpcMessage::decode(&call),
    );
}

#[test]
fn test_decoding_portmap_getport_call() {
    let call = Bytes::from(vec![
        0x00, 0x00, 0x00, 0x15, 0x00, 0x00, 0x00, 0x00, 0x00, 0x00, 0x00, 0x02, 0x00, 0x01, 0x86,
        0xa0, 0x00, 0x00, 0x00, 0x02, 0x00, 0x00, 0x00, 0x03, 0x00, 0x00, 0x00, 0x01, 0x00, 0x00,
        0x00, 0x14, 0xfe, 0xc9, 0x98, 0x11, 0x00, 0x00, 0x00, 0x00, 0x00, 0x00, 0x00, 0x00, 0x00,
        0x00, 0x00, 0x00, 0x00, 0x00, 0x00, 0x00, 0x00, 0x00, 0x00, 0x00, 0x00, 0x00, 0x00, 0x00,
        0x00, 0x01, 0x86, 0xa5, 0x00, 0x00, 0x00, 0x01, 0x00, 0x00, 0x00, 0x11, 0x00, 0x00, 0x00,
        0x00,
    ]);

    assert_eq!(
        Ok((
            &[][..],
            RpcMessage {
                xid: 21u32,
                message: RpcMessageType::Call(RpcCall {
                    version: 2,
                    program: RpcProgram::Portmap,
                    program_version: 2,
                    procedure: RpcProcedure::PortmapGetport(PortmapGetport {
                        version: 1,
                        program: RpcProgram::Mount,
                        protocol: PortmapProtocol::Udp,
                        port: 0,
                    }),
                    credentials: credentials(4274624529),
                    verifier: RpcAuth::Null,
                }),
            }
        )),
        RpcMessage::decode(&call),
    );
}

#[test]
fn test_encoding_portmap_getport_reply() {
    let reply = Bytes::from(vec![
        0x00, 0x00, 0x00, 0x15, 0x00, 0x00, 0x00, 0x01, 0x00, 0x00, 0x00, 0x00, 0x00, 0x00, 0x00,
        0x00, 0x00, 0x00, 0x00, 0x00, 0x00, 0x00, 0x00, 0x00, 0x00, 0x00, 0x8d, 0x9b,
    ]);

    assert_eq!(
        Ok(reply),
        RpcMessage {
            xid: 21,
            message: RpcMessageType::Reply(RpcReply {
                verifier: RpcAuth::Null,
                reply_state: RpcReplyState::Accepted,
                accept_state: RpcAcceptState::Success,
                data: RpcReplyMessage::PortmapGetport(PortmapGetportReply { port: 36251 }),
            }),
        }
        .into_bytes()
    )
}

#[test]
fn test_decoding_mount_export_call() {
    let call = b"\0\0\0\x0c\0\0\0\0\0\0\0\x02\0\x01\x86\xa5\0\0\0\x01\0\0\0\x05\0\0\0\x01\0\0\0\x14\xb0\xb61\x14\0\0\0\0\0\0\0\0\0\0\0\0\0\0\0\0\0\0\0\0\0\0\0\0";

    assert_eq!(
        Ok((
            &[][..],
            RpcMessage {
                xid: 12u32,
                message: RpcMessageType::Call(RpcCall {
                    version: 2,
                    program: RpcProgram::Mount,
                    program_version: 1,
                    procedure: RpcProcedure::MountExport,
                    credentials: credentials(2964730132),
                    verifier: RpcAuth::Null,
                }),
            }
        )),
        RpcMessage::decode(&Bytes::from(call.to_vec())),
    );
}

#[test]
fn test_encoding_mount_export_reply() {
    let reply = Bytes::from(vec![
        0x00, 0x00, 0x00, 0x16, 0x00, 0x00, 0x00, 0x01, 0x00, 0x00, 0x00, 0x00, 0x00, 0x00, 0x00,
        0x00, 0x00, 0x00, 0x00, 0x00, 0x00, 0x00, 0x00, 0x00, 0x00, 0x00, 0x00, 0x01, 0x00, 0x00,
        0x00, 0x06, 0x2f, 0x00, 0x43, 0x00, 0x2f, 0x00, 0x00, 0x00, 0x00, 0x00, 0x00, 0x01, 0x00,
        0x00, 0x00, 0x1a, 0x31, 0x39, 0x32, 0x2e, 0x31, 0x36, 0x38, 0x2e, 0x31, 0x30, 0x2e, 0x35,
        0x2f, 0x32, 0x35, 0x35, 0x2e, 0x32, 0x35, 0x35, 0x2e, 0x32, 0x35, 0x35, 0x2e, 0x30, 0x00,
        0x00, 0x00, 0x00, 0x00, 0x00, 0x00, 0x00, 0x00, 0x00,
    ]);

    assert_eq!(
        Ok(reply),
        RpcMessage {
            xid: 22,
            message: RpcMessageType::Reply(RpcReply {
                verifier: RpcAuth::Null,
                reply_state: RpcReplyState::Accepted,
                accept_state: RpcAcceptState::Success,
                data: RpcReplyMessage::MountExport(MountExportReply {
                    export_list_entries: vec![ExportListEntry {
                        directory: String::from("/C/"),
                        groups: vec![String::from("192.168.10.5/255.255.255.0")],
                    }],
                }),
            }),
        }
        .into_bytes()
    );
}

#[test]
fn test_decoding_mount_mnt_call() {
    let call = b"\0\0\0\x16\0\0\0\0\0\0\0\x02\0\x01\x86\xa5\0\0\0\x01\0\0\0\x01\0\0\0\x01\0\0\0\x14\xb0\x8c\xe1\x04\0\0\0\0\0\0\0\0\0\0\0\0\0\0\0\0\0\0\0\0\0\0\0\0\0\0\0\x06/\0C\0/\0\0\x11";

    assert_eq!(
        Ok((
            &[][..],
            RpcMessage {
                xid: 22u32,
                message: RpcMessageType::Call(RpcCall {
                    version: 2,
                    program: RpcProgram::Mount,
                    program_version: 1,
                    procedure: RpcProcedure::MountMnt(MountMnt { paths: vec![String::from("/C/")] }),
                    credentials: credentials(2962022660),
                    verifier: RpcAuth::Null,
                }),
            }
        )),
        RpcMessage::decode(&Bytes::from(call.to_vec())),
    );
}

#[test]
fn test_encoding_mount_mnt_reply() {
    let mut expected = vec![
        0x00, 0x00, 0x00, 0x19, 0x00, 0x00, 0x00, 0x01, 0x00, 0x00, 0x00, 0x00, 0x00, 0x00, 0x00,
        0x00,
    ];
    expected.resize(60, 0x00);
    let reply = Bytes::from(expected);

    assert_eq!(
        Ok(reply),
        RpcMessage {
            xid: 25,
            message: RpcMessageType::Reply(RpcReply {
                verifier: RpcAuth::Null,
                reply_state: RpcReplyState::Accepted,
                accept_state: RpcAcceptState::Success,
                data: RpcReplyMessage::MountMnt(MountMntReply {
                    status: 0,
                    fhandle: FileHandle::new([0x00; 32]),
                }),
            }),
        }
        .into_bytes()
    );
}

#[test]
fn it_can_decode_lookup_call() {
    let call = Bytes::from(b"\0\0\0\"\0\0\0\0\0\0\0\x02\0\x01\x86\xa3\0\0\0\x02\0\0\0\x04\0\0\0\x01\0\0\0\x14\xf0\xbcq\x07\0\0\0\0\0\0\0\0\0\0\0\0\0\0\0\0\0\0\0\0\0\0\0\0\0\0\0\0\0\0\0\0\0\0\0\0\x03\x01\0\0\0\0\x1bX\0\0\0\0\x11\x04\x01\0\0\0\0\x05\0\0\0\nU\0s\0e\0r\0s\0\0\0".to_vec());
    assert_eq!(RpcMessage::can_decode(&call), true);
    let nfs_lookup = RpcMessage::decode(&call);
    assert_eq!(nfs_lookup.is_ok(), true);
    match nfs_lookup.unwrap().1.message {
        RpcMessageType::Call(c) => match c.procedure {
            RpcProcedure::NfsLookup(l) => assert_eq!(l.filename, "Users"),
            other => panic!("unexpected procedure {:?}", other),
        },
        _ => panic!("not a call"),
    }
}

#[test]
fn it_can_encode_nfs_lookup_reply() {
    let mut reply = NfsLookupReply::default_at(0);
    reply.attributes = NfsFileAttributes { _type: FileType::File, ..NfsFileAttributes::default_at(0) };
    let mut out = Vec::new();
    RpcReplyMessage::NfsLookup(reply).push_bytes(&mut out);
    assert_eq!(104, out.len());
}

#[test]
fn decoded_getport_call_keeps_the_transaction() {
    let call = RpcMessage::decode(&[
        0x00, 0x00, 0x00, 0x15, 0x00, 0x00, 0x00, 0x00, 0x00, 0x00, 0x00, 0x02, 0x00, 0x01, 0x86,
        0xa0, 0x00, 0x00, 0x00, 0x02, 0x00, 0x00, 0x00, 0x03, 0x00, 0x00, 0x00, 0x01, 0x00, 0x00,
        0x00, 0x14, 0xfe, 0xc9, 0x98, 0x11, 0x00, 0x00, 0x00, 0x00, 0x00, 0x00, 0x00, 0x00, 0x00,
        0x00, 0x00, 0x00, 0x00, 0x00, 0x00, 0x00, 0x00, 0x00, 0x00, 0x00, 0x00, 0x00, 0x00, 0x00,
        0x00, 0x01, 0x86, 0xa5, 0x00, 0x00, 0x00, 0x01, 0x00, 0x00, 0x00, 0x11, 0x00, 0x00, 0x00,
        0x00, 0xaa,
    ])
    .unwrap();
    assert_eq!(call.0, &[0xaa][..]);
    assert_eq!(call.1.transaction_id(), 21);
}

#[test]
fn truncated_call_is_an_error() {
    assert!(RpcMessage::decode(&[0x00, 0x00, 0x00, 0x15, 0x00]).is_err());
    assert!(RpcMessage::try_from(Bytes::from(vec![0x00, 0x00])).is_err());
}

#[test]
fn file_handle_number() {
    let mut data = [0u8; 32];
    data[0] = 0x01;
    data[1] = 0x02;
    let h = FileHandle::new(data);
    assert_eq!(h.data.len(), 32);
    let ino = h.ino();
    assert!(ino == 0x0201 || ino == 0x0102_0000_0000_0000);
}
