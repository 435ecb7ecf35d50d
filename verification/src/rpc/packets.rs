//! ONC RPC messages of the portmap, mount and NFS (version 2) programs that a
//! player uses to read tracks: calls are decoded, replies encoded.
//!
//! All numbers are big-endian 32-bit words, except the texts of mount and
//! lookup calls and of export entries, which are UTF-16LE code units.

use vstd::prelude::*;
use crate::buffer::{bytes_view, bytes_from_vec, bytes_as_slice};
use crate::text::{decode_utf16, le_units, utf16_le, decode_utf16_units, read_le_units, push_utf16_le};
use crate::wire::{
    ErrorKind, ParseError, PResult, fail, spec_be_u16, spec_be_u32, spec_take, read_be_u16,
    read_be_u32, take_bytes, rest_of, push_be32, push_slice, be32,
};

verus! {

#[derive(Debug, PartialEq, Eq)]
pub enum Error {
    UnhandledMessageType,
}

// ---------------------------------------------------------------------------
// Types

#[derive(Debug, PartialEq, Eq, Structural, Clone, Copy)]
pub enum RpcAuth {
    Null,
    Unix,
    Short,
    Des,
}

/// The credentials of a call (AUTH_UNIX with an empty machine name and no
/// auxiliary groups beyond one).
#[derive(Debug, PartialEq, Eq, Structural, Clone, Copy)]
pub struct RpcCredentials {
    pub flavor: u32,
    pub length: u32,
    pub stamp: u32,
    pub machine_name: u32,
    pub uid: u32,
    pub gid: u32,
    pub aux_gid: u32,
}

#[derive(Debug, PartialEq, Eq)]
pub struct RpcUnixAuth<'a> {
    pub stamp: u32,
    pub machine_name: &'a str,
    pub uid: u32,
    pub gid: u32,
    pub gids: u32,
}

#[derive(Debug, PartialEq, Eq, Structural, Clone, Copy)]
pub enum RpcProgram {
    Portmap,
    Nfs,
    Mount,
}

#[derive(Debug, PartialEq, Eq, Structural, Clone, Copy)]
pub enum PortmapProtocol {
    Ip,
    Udp,
}

#[derive(Debug, PartialEq, Eq, Structural, Clone, Copy)]
pub struct PortmapGetport {
    pub version: u32,
    pub program: RpcProgram,
    pub protocol: PortmapProtocol,
    pub port: u32,
}

/// An NFS file handle: 32 opaque bytes.
#[derive(Debug, PartialEq, Eq)]
pub struct FileHandle {
    pub data: Vec<u8>,
}

#[derive(Debug, PartialEq, Eq)]
pub struct MountMnt {
    pub paths: Vec<String>,
}

#[derive(Debug, PartialEq, Eq)]
pub struct NfsRead {
    pub fhandle: FileHandle,
    pub offset: u32,
    pub count: u32,
    pub total_count: u32,
}

#[derive(Debug, PartialEq, Eq)]
pub struct NfsGetAttr {
    pub fhandle: FileHandle,
}

#[derive(Debug, PartialEq, Eq)]
pub struct NfsLookup {
    pub filename: String,
    pub fhandle: FileHandle,
}

#[derive(Debug, PartialEq, Eq)]
pub enum RpcProcedure {
    PortmapNull,
    PortmapSet,
    PortmapUnset,
    PortmapGetport(PortmapGetport),
    PortmapDump,
    PortmapCallResult,
    NfsNull,
    NfsGetAttr(NfsGetAttr),
    NfsLookup(NfsLookup),
    NfsRead(NfsRead),
    MountMnt(MountMnt),
    MountExport,
    MountNull,
}

#[derive(Debug, PartialEq, Eq)]
pub struct RpcCall {
    pub version: u32,
    pub program: RpcProgram,
    pub program_version: u32,
    pub procedure: RpcProcedure,
    pub credentials: RpcCredentials,
    pub verifier: RpcAuth,
}

#[derive(Debug, PartialEq, Eq)]
pub enum RpcMessageType {
    Call(RpcCall),
    Reply(RpcReply),
}

#[derive(Debug, PartialEq, Eq)]
pub struct RpcMessage {
    pub xid: u32,
    pub message: RpcMessageType,
}

// ---------------------------------------------------------------------------
// Views

/// A procedure and its arguments as values.
pub enum ProcedureModel {
    PortmapNull,
    PortmapSet,
    PortmapUnset,
    PortmapGetport(PortmapGetport),
    PortmapDump,
    PortmapCallResult,
    NfsNull,
    /// The file handle.
    NfsGetAttr(Seq<u8>),
    /// The file name and the handle of the directory.
    NfsLookup(Seq<char>, Seq<u8>),
    /// The file handle, offset, count and total count.
    NfsRead(Seq<u8>, u32, u32, u32),
    /// The paths.
    MountMnt(Seq<Seq<char>>),
    MountExport,
    MountNull,
}

/// A call as values.
pub struct CallModel {
    pub version: u32,
    pub program: RpcProgram,
    pub program_version: u32,
    pub procedure: ProcedureModel,
    pub credentials: RpcCredentials,
    pub verifier: RpcAuth,
}

/// A message as values; a reply is only told apart from a call.
pub enum MessageModel {
    Call(CallModel),
    Reply,
}

pub struct RpcMessageModel {
    pub xid: u32,
    pub message: MessageModel,
}

impl View for FileHandle {
    type V = Seq<u8>;

    open spec fn view(&self) -> Seq<u8> {
        self.data@
    }
}

pub open spec fn string_views(v: Seq<String>) -> Seq<Seq<char>> {
    v.map_values(|s: String| s@)
}

impl View for RpcProcedure {
    type V = ProcedureModel;

    open spec fn view(&self) -> ProcedureModel {
        match self {
            RpcProcedure::PortmapNull => ProcedureModel::PortmapNull,
            RpcProcedure::PortmapSet => ProcedureModel::PortmapSet,
            RpcProcedure::PortmapUnset => ProcedureModel::PortmapUnset,
            RpcProcedure::PortmapGetport(g) => ProcedureModel::PortmapGetport(*g),
            RpcProcedure::PortmapDump => ProcedureModel::PortmapDump,
            RpcProcedure::PortmapCallResult => ProcedureModel::PortmapCallResult,
            RpcProcedure::NfsNull => ProcedureModel::NfsNull,
            RpcProcedure::NfsGetAttr(g) => ProcedureModel::NfsGetAttr(g.fhandle@),
            RpcProcedure::NfsLookup(l) => ProcedureModel::NfsLookup(l.filename@, l.fhandle@),
            RpcProcedure::NfsRead(r) => ProcedureModel::NfsRead(
                r.fhandle@,
                r.offset,
                r.count,
                r.total_count,
            ),
            RpcProcedure::MountMnt(m) => ProcedureModel::MountMnt(string_views(m.paths@)),
            RpcProcedure::MountExport => ProcedureModel::MountExport,
            RpcProcedure::MountNull => ProcedureModel::MountNull,
        }
    }
}

impl View for RpcCall {
    type V = CallModel;

    open spec fn view(&self) -> CallModel {
        CallModel {
            version: self.version,
            program: self.program,
            program_version: self.program_version,
            procedure: self.procedure@,
            credentials: self.credentials,
            verifier: self.verifier,
        }
    }
}

impl View for RpcMessage {
    type V = RpcMessageModel;

    open spec fn view(&self) -> RpcMessageModel {
        RpcMessageModel {
            xid: self.xid,
            message: match &self.message {
                RpcMessageType::Call(c) => MessageModel::Call(c@),
                RpcMessageType::Reply(_) => MessageModel::Reply,
            },
        }
    }
}

// ---------------------------------------------------------------------------
// Decoding (specification)

pub open spec fn spec_auth(s: Seq<u8>, p: usize) -> PResult<RpcAuth> {
    match spec_be_u32(s, p) {
        Err(e) => Err(e),
        Ok((flavor, q)) => match spec_be_u32(s, q) {
            Err(e) => Err(e),
            Ok((_length, r)) => if flavor == 0 {
                Ok((RpcAuth::Null, r))
            } else if flavor == 1 {
                Ok((RpcAuth::Unix, r))
            } else {
                fail(ErrorKind::Switch, r)
            },
        },
    }
}

/// `n` words read one after another.
pub open spec fn spec_words(s: Seq<u8>, p: usize, n: nat) -> PResult<Seq<u32>>
    decreases n,
{
    if n == 0 {
        Ok((Seq::empty(), p))
    } else {
        match spec_words(s, p, (n - 1) as nat) {
            Err(e) => Err(e),
            Ok((ws, q)) => match spec_be_u32(s, q) {
                Err(e) => Err(e),
                Ok((w, r)) => Ok((ws.push(w), r)),
            },
        }
    }
}

/// Credentials: seven words.
pub open spec fn spec_credentials(s: Seq<u8>, p: usize) -> PResult<RpcCredentials> {
    match spec_words(s, p, 7) {
        Err(e) => Err(e),
        Ok((w, q)) => Ok((
            RpcCredentials {
                flavor: w[0],
                length: w[1],
                stamp: w[2],
                machine_name: w[3],
                uid: w[4],
                gid: w[5],
                aux_gid: w[6],
            },
            q,
        )),
    }
}

/// A program number and version.
pub open spec fn spec_program(s: Seq<u8>, p: usize) -> PResult<(RpcProgram, u32)> {
    match spec_be_u32(s, p) {
        Err(e) => Err(e),
        Ok((program, q)) => match spec_be_u32(s, q) {
            Err(e) => Err(e),
            Ok((version, r)) => if program == 100000 {
                Ok(((RpcProgram::Portmap, version), r))
            } else if program == 100003 {
                Ok(((RpcProgram::Nfs, version), r))
            } else if program == 100005 {
                Ok(((RpcProgram::Mount, version), r))
            } else {
                fail(ErrorKind::Switch, r)
            },
        },
    }
}

pub open spec fn spec_protocol(s: Seq<u8>, p: usize) -> PResult<PortmapProtocol> {
    match spec_be_u32(s, p) {
        Err(e) => Err(e),
        Ok((protocol, q)) => if protocol == 17 {
            Ok((PortmapProtocol::Udp, q))
        } else {
            fail(ErrorKind::Switch, q)
        },
    }
}

pub open spec fn spec_getport(s: Seq<u8>, p: usize) -> PResult<PortmapGetport> {
    match spec_program(s, p) {
        Err(e) => Err(e),
        Ok(((program, version), q)) => match spec_protocol(s, q) {
            Err(e) => Err(e),
            Ok((protocol, r)) => match spec_be_u32(s, r) {
                Err(e) => Err(e),
                Ok((port, t)) => Ok((PortmapGetport { version, program, protocol, port }, t)),
            },
        },
    }
}

/// A file handle: 32 bytes, read one at a time (a short input fails where
/// it ends).
pub open spec fn spec_file_handle(s: Seq<u8>, p: usize) -> PResult<Seq<u8>> {
    if p + 32 <= s.len() {
        Ok((s.subrange(p as int, p + 32), (p + 32) as usize))
    } else if p <= s.len() {
        fail(ErrorKind::Eof, s.len() as usize)
    } else {
        fail(ErrorKind::Eof, p)
    }
}

/// `n` little-endian code units, read one at a time (a short input fails at
/// the first unit that does not fit).
pub open spec fn spec_le_units(s: Seq<u8>, p: usize, n: nat) -> PResult<Seq<u16>> {
    if p + 2 * n <= s.len() {
        Ok((le_units(s.subrange(p as int, p + 2 * n)), (p + 2 * n) as usize))
    } else if p <= s.len() {
        fail(ErrorKind::Eof, (p + 2 * ((s.len() - p) / 2)) as usize)
    } else {
        fail(ErrorKind::Eof, p)
    }
}

/// A mount call: a byte length, that many bytes of UTF-16LE path (half as
/// many units), and two fill bytes.
pub open spec fn spec_mount_mnt(s: Seq<u8>, p: usize) -> PResult<Seq<Seq<char>>> {
    match spec_be_u32(s, p) {
        Err(e) => Err(e),
        Ok((length, q)) => match spec_le_units(s, q, (length / 2) as nat) {
            Err(e) => Err(e),
            Ok((units, r)) => match spec_be_u16(s, r) {
                Err(e) => Err(e),
                Ok((_fill, t)) => match decode_utf16(units) {
                    Some(cs) => Ok((seq![cs], t)),
                    None => fail(ErrorKind::Switch, t),
                },
            },
        },
    }
}

/// A lookup call: the directory handle, then a byte length and the UTF-16LE
/// file name.
pub open spec fn spec_nfs_lookup(s: Seq<u8>, p: usize) -> PResult<(Seq<char>, Seq<u8>)> {
    match spec_file_handle(s, p) {
        Err(e) => Err(e),
        Ok((fh, q)) => match spec_be_u32(s, q) {
            Err(e) => Err(e),
            Ok((length, r)) => match spec_le_units(s, r, (length / 2) as nat) {
                Err(e) => Err(e),
                Ok((units, t)) => match decode_utf16(units) {
                    Some(cs) => Ok(((cs, fh), t)),
                    None => fail(ErrorKind::MapRes, t),
                },
            },
        },
    }
}

pub open spec fn spec_nfs_read(s: Seq<u8>, p: usize) -> PResult<(Seq<u8>, u32, u32, u32)> {
    match spec_file_handle(s, p) {
        Err(e) => Err(e),
        Ok((fh, q)) => match spec_be_u32(s, q) {
            Err(e) => Err(e),
            Ok((offset, r)) => match spec_be_u32(s, r) {
                Err(e) => Err(e),
                Ok((count, t)) => match spec_be_u32(s, t) {
                    Err(e) => Err(e),
                    Ok((total, u)) => Ok(((fh, offset, count, total), u)),
                },
            },
        },
    }
}

/// The arguments of `procedure` of `program`.
pub open spec fn spec_procedure(s: Seq<u8>, p: usize, program: RpcProgram, procedure: u32) -> PResult<
    ProcedureModel,
> {
    match program {
        RpcProgram::Portmap => if procedure == 0 {
            Ok((ProcedureModel::PortmapNull, p))
        } else if procedure == 1 {
            Ok((ProcedureModel::PortmapSet, p))
        } else if procedure == 2 {
            Ok((ProcedureModel::PortmapUnset, p))
        } else if procedure == 3 {
            match spec_getport(s, p) {
                Ok((g, q)) => Ok((ProcedureModel::PortmapGetport(g), q)),
                Err(e) => Err(e),
            }
        } else if procedure == 4 {
            Ok((ProcedureModel::PortmapDump, p))
        } else if procedure == 5 {
            Ok((ProcedureModel::PortmapCallResult, p))
        } else {
            fail(ErrorKind::Switch, p)
        },
        RpcProgram::Nfs => if procedure == 1 {
            match spec_file_handle(s, p) {
                Ok((fh, q)) => Ok((ProcedureModel::NfsGetAttr(fh), q)),
                Err(e) => Err(e),
            }
        } else if procedure == 4 {
            match spec_nfs_lookup(s, p) {
                Ok(((name, fh), q)) => Ok((ProcedureModel::NfsLookup(name, fh), q)),
                Err(e) => Err(e),
            }
        } else if procedure == 6 {
            match spec_nfs_read(s, p) {
                Ok(((fh, o, c, t), q)) => Ok((ProcedureModel::NfsRead(fh, o, c, t), q)),
                Err(e) => Err(e),
            }
        } else {
            fail(ErrorKind::Switch, p)
        },
        RpcProgram::Mount => if procedure == 5 {
            Ok((ProcedureModel::MountExport, p))
        } else if procedure == 1 {
            match spec_mount_mnt(s, p) {
                Ok((paths, q)) => Ok((ProcedureModel::MountMnt(paths), q)),
                Err(e) => Err(e),
            }
        } else {
            fail(ErrorKind::Switch, p)
        },
    }
}

/// A call body: RPC version, program and version, procedure number,
/// credentials, verifier, then the procedure's arguments.
pub open spec fn spec_call(s: Seq<u8>, p: usize) -> PResult<CallModel> {
    match spec_be_u32(s, p) {
        Err(e) => Err(e),
        Ok((version, q1)) => match spec_program(s, q1) {
            Err(e) => Err(e),
            Ok(((program, program_version), q2)) => match spec_be_u32(s, q2) {
                Err(e) => Err(e),
                Ok((procedure, q3)) => match spec_credentials(s, q3) {
                    Err(e) => Err(e),
                    Ok((credentials, q4)) => match spec_auth(s, q4) {
                        Err(e) => Err(e),
                        Ok((verifier, q5)) => match spec_procedure(s, q5, program, procedure) {
                            Err(e) => Err(e),
                            Ok((proc_model, q6)) => Ok((
                                CallModel {
                                    version,
                                    program,
                                    program_version,
                                    procedure: proc_model,
                                    credentials,
                                    verifier,
                                },
                                q6,
                            )),
                        },
                    },
                },
            },
        },
    }
}

/// Decoding reaches a reply, which this server does not decode.
pub open spec fn decode_panics(s: Seq<u8>) -> bool {
    s.len() >= 8 && spec_be_u32(s, 4).unwrap().0 == 1
}

/// A message: transaction id, message type (0 for a call), body.
pub open spec fn spec_rpc_message(s: Seq<u8>) -> PResult<RpcMessageModel> {
    match spec_be_u32(s, 0) {
        Err(e) => Err(e),
        Ok((xid, q)) => match spec_be_u32(s, q) {
            Err(e) => Err(e),
            Ok((message_type, r)) => if message_type == 0 {
                match spec_call(s, r) {
                    Ok((c, t)) => Ok((RpcMessageModel { xid, message: MessageModel::Call(c) }, t)),
                    Err(e) => Err(e),
                }
            } else {
                fail(ErrorKind::Switch, r)
            },
        },
    }
}

// ---------------------------------------------------------------------------
// Decoding (code)

/// An outcome of a decoder agrees with its specification, where the value is
/// compared by `view_of`.
pub open spec fn same_outcome<A, B>(r: PResult<A>, m: PResult<B>, view_of: spec_fn(A) -> B) -> bool {
    match (r, m) {
        (Ok((v, q)), Ok((w, q2))) => view_of(v) == w && q == q2,
        (Err(e), Err(e2)) => e == e2,
        _ => false,
    }
}

fn decode_auth(s: &[u8], p: usize) -> (r: PResult<RpcAuth>)
    ensures
        r == spec_auth(s@, p),
{
    let (flavor, q) = match read_be_u32(s, p) {
        Ok(v) => v,
        Err(e) => { return Err(e); },
    };
    let (_length, r) = match read_be_u32(s, q) {
        Ok(v) => v,
        Err(e) => { return Err(e); },
    };
    if flavor == 0 {
        Ok((RpcAuth::Null, r))
    } else if flavor == 1 {
        Ok((RpcAuth::Unix, r))
    } else {
        Err(ParseError::new(ErrorKind::Switch, r))
    }
}

fn decode_words(s: &[u8], p: usize, n: usize) -> (r: PResult<Vec<u32>>)
    ensures
        same_outcome(r, spec_words(s@, p, n as nat), |v: Vec<u32>| v@),
        r matches Ok((v, _)) ==> v@.len() == n,
{
    let mut ws: Vec<u32> = Vec::new();
    let mut q = p;
    let mut i: usize = 0;
    assert(spec_words(s@, p, 0) == Ok::<(Seq<u32>, usize), ParseError>((Seq::empty(), p)));
    while i < n
        invariant
            i <= n,
            ws@.len() == i,
            spec_words(s@, p, i as nat) == Ok::<(Seq<u32>, usize), ParseError>((ws@, q)),
        decreases n - i,
    {
        match read_be_u32(s, q) {
            Ok((w, r)) => {
                ws.push(w);
                q = r;
            },
            Err(e) => {
                proof {
                    lemma_words_stop(s@, p, (i + 1) as nat, n as nat);
                }
                return Err(e);
            },
        }
        i = i + 1;
    }
    Ok((ws, q))
}

/// Once reading words fails, reading more of them fails the same way.
proof fn lemma_words_stop(s: Seq<u8>, p: usize, i: nat, n: nat)
    requires
        i <= n,
        spec_words(s, p, i) is Err,
    ensures
        spec_words(s, p, n) == spec_words(s, p, i),
    decreases n - i,
{
    if i < n {
        lemma_words_stop(s, p, i + 1, n);
    }
}

fn decode_credentials(s: &[u8], p: usize) -> (r: PResult<RpcCredentials>)
    ensures
        r == spec_credentials(s@, p),
{
    match decode_words(s, p, 7) {
        Ok((w, q)) => Ok((
            RpcCredentials {
                flavor: w[0],
                length: w[1],
                stamp: w[2],
                machine_name: w[3],
                uid: w[4],
                gid: w[5],
                aux_gid: w[6],
            },
            q,
        )),
        Err(e) => Err(e),
    }
}

fn decode_program(s: &[u8], p: usize) -> (r: PResult<(RpcProgram, u32)>)
    ensures
        r == spec_program(s@, p),
{
    let (program, q) = match read_be_u32(s, p) {
        Ok(v) => v,
        Err(e) => { return Err(e); },
    };
    let (version, r) = match read_be_u32(s, q) {
        Ok(v) => v,
        Err(e) => { return Err(e); },
    };
    if program == 100000 {
        Ok(((RpcProgram::Portmap, version), r))
    } else if program == 100003 {
        Ok(((RpcProgram::Nfs, version), r))
    } else if program == 100005 {
        Ok(((RpcProgram::Mount, version), r))
    } else {
        Err(ParseError::new(ErrorKind::Switch, r))
    }
}

fn decode_protocol(s: &[u8], p: usize) -> (r: PResult<PortmapProtocol>)
    ensures
        r == spec_protocol(s@, p),
{
    let (protocol, q) = match read_be_u32(s, p) {
        Ok(v) => v,
        Err(e) => { return Err(e); },
    };
    if protocol == 17 {
        Ok((PortmapProtocol::Udp, q))
    } else {
        Err(ParseError::new(ErrorKind::Switch, q))
    }
}

fn decode_getport(s: &[u8], p: usize) -> (r: PResult<PortmapGetport>)
    ensures
        r == spec_getport(s@, p),
{
    let ((program, version), q) = match decode_program(s, p) {
        Ok(v) => v,
        Err(e) => { return Err(e); },
    };
    let (protocol, r) = match decode_protocol(s, q) {
        Ok(v) => v,
        Err(e) => { return Err(e); },
    };
    let (port, t) = match read_be_u32(s, r) {
        Ok(v) => v,
        Err(e) => { return Err(e); },
    };
    Ok((PortmapGetport { version, program, protocol, port }, t))
}

fn decode_file_handle(s: &[u8], p: usize) -> (r: PResult<FileHandle>)
    ensures
        same_outcome(r, spec_file_handle(s@, p), |f: FileHandle| f@),
        r matches Ok((f, _)) ==> f@.len() == 32,
{
    if p <= s.len() && s.len() - p >= 32 {
        match take_bytes(s, p, 32) {
            Ok((data, q)) => Ok((FileHandle { data }, q)),
            Err(e) => Err(e),
        }
    } else if p <= s.len() {
        Err(ParseError::new(ErrorKind::Eof, s.len()))
    } else {
        Err(ParseError::new(ErrorKind::Eof, p))
    }
}

fn decode_le_units(s: &[u8], p: usize, n: usize) -> (r: PResult<Vec<u16>>)
    ensures
        same_outcome(r, spec_le_units(s@, p, n as nat), |v: Vec<u16>| v@),
{
    if p <= s.len() && (s.len() - p) / 2 >= n {
        let us = read_le_units(s, p, n);
        Ok((us, p + 2 * n))
    } else if p <= s.len() {
        Err(ParseError::new(ErrorKind::Eof, p + 2 * ((s.len() - p) / 2)))
    } else {
        Err(ParseError::new(ErrorKind::Eof, p))
    }
}

fn decode_mount_mnt(s: &[u8], p: usize) -> (r: PResult<MountMnt>)
    ensures
        same_outcome(r, spec_mount_mnt(s@, p), |m: MountMnt| string_views(m.paths@)),
{
    let (length, q) = match read_be_u32(s, p) {
        Ok(v) => v,
        Err(e) => { return Err(e); },
    };
    let (units, r) = match decode_le_units(s, q, (length / 2) as usize) {
        Ok(v) => v,
        Err(e) => { return Err(e); },
    };
    let (_fill, t) = match read_be_u16(s, r) {
        Ok(v) => v,
        Err(e) => { return Err(e); },
    };
    match decode_utf16_units(&units) {
        Some(contents) => {
            let mut paths: Vec<String> = Vec::new();
            paths.push(contents);
            assert(string_views(paths@) =~= seq![contents@]);
            Ok((MountMnt { paths }, t))
        },
        None => Err(ParseError::new(ErrorKind::Switch, t)),
    }
}

fn decode_nfs_lookup(s: &[u8], p: usize) -> (r: PResult<NfsLookup>)
    ensures
        same_outcome(r, spec_nfs_lookup(s@, p), |l: NfsLookup| (l.filename@, l.fhandle@)),
{
    let (fhandle, q) = match decode_file_handle(s, p) {
        Ok(v) => v,
        Err(e) => { return Err(e); },
    };
    let (length, r) = match read_be_u32(s, q) {
        Ok(v) => v,
        Err(e) => { return Err(e); },
    };
    let (units, t) = match decode_le_units(s, r, (length / 2) as usize) {
        Ok(v) => v,
        Err(e) => { return Err(e); },
    };
    match decode_utf16_units(&units) {
        Some(filename) => Ok((NfsLookup { filename, fhandle }, t)),
        None => Err(ParseError::new(ErrorKind::MapRes, t)),
    }
}

fn decode_nfs_read(s: &[u8], p: usize) -> (r: PResult<NfsRead>)
    ensures
        same_outcome(r, spec_nfs_read(s@, p), |n: NfsRead| (n.fhandle@, n.offset, n.count, n.total_count)),
{
    let (fhandle, q) = match decode_file_handle(s, p) {
        Ok(v) => v,
        Err(e) => { return Err(e); },
    };
    let (offset, r) = match read_be_u32(s, q) {
        Ok(v) => v,
        Err(e) => { return Err(e); },
    };
    let (count, t) = match read_be_u32(s, r) {
        Ok(v) => v,
        Err(e) => { return Err(e); },
    };
    let (total_count, u) = match read_be_u32(s, t) {
        Ok(v) => v,
        Err(e) => { return Err(e); },
    };
    Ok((NfsRead { fhandle, offset, count, total_count }, u))
}

impl RpcProcedure {
    /// Reads the arguments of `procedure` of `program`.
    pub fn decode(input: &[u8], p: usize, program: &RpcProgram, procedure: u32) -> (r: PResult<RpcProcedure>)
        ensures
            same_outcome(r, spec_procedure(input@, p, *program, procedure), |x: RpcProcedure| x@),
            r matches Ok((_, q)) ==> q <= input@.len() || q == p,
    {
        match program {
            RpcProgram::Portmap => {
                if procedure == 0 {
                    Ok((RpcProcedure::PortmapNull, p))
                } else if procedure == 1 {
                    Ok((RpcProcedure::PortmapSet, p))
                } else if procedure == 2 {
                    Ok((RpcProcedure::PortmapUnset, p))
                } else if procedure == 3 {
                    match decode_getport(input, p) {
                        Ok((data, q)) => Ok((RpcProcedure::PortmapGetport(data), q)),
                        Err(e) => Err(e),
                    }
                } else if procedure == 4 {
                    Ok((RpcProcedure::PortmapDump, p))
                } else if procedure == 5 {
                    Ok((RpcProcedure::PortmapCallResult, p))
                } else {
                    Err(ParseError::new(ErrorKind::Switch, p))
                }
            },
            RpcProgram::Nfs => {
                if procedure == 1 {
                    match decode_file_handle(input, p) {
                        Ok((fhandle, q)) => Ok((RpcProcedure::NfsGetAttr(NfsGetAttr { fhandle }), q)),
                        Err(e) => Err(e),
                    }
                } else if procedure == 4 {
                    match decode_nfs_lookup(input, p) {
                        Ok((data, q)) => Ok((RpcProcedure::NfsLookup(data), q)),
                        Err(e) => Err(e),
                    }
                } else if procedure == 6 {
                    match decode_nfs_read(input, p) {
                        Ok((data, q)) => Ok((RpcProcedure::NfsRead(data), q)),
                        Err(e) => Err(e),
                    }
                } else {
                    Err(ParseError::new(ErrorKind::Switch, p))
                }
            },
            RpcProgram::Mount => {
                if procedure == 5 {
                    Ok((RpcProcedure::MountExport, p))
                } else if procedure == 1 {
                    match decode_mount_mnt(input, p) {
                        Ok((data, q)) => Ok((RpcProcedure::MountMnt(data), q)),
                        Err(e) => Err(e),
                    }
                } else {
                    Err(ParseError::new(ErrorKind::Switch, p))
                }
            },
        }
    }
}

impl RpcCall {
    pub fn procedure(&self) -> (r: &RpcProcedure)
        ensures
            r == &self.procedure,
    {
        &self.procedure
    }

    pub fn program(&self) -> (r: &RpcProgram)
        ensures
            *r == self.program,
    {
        &self.program
    }

    /// Reads a call body at `p`.
    pub fn decode(input: &[u8], p: usize) -> (r: PResult<RpcCall>)
        ensures
            same_outcome(r, spec_call(input@, p), |c: RpcCall| c@),
            r matches Ok((_, q)) ==> q <= input@.len(),
    {
        let (version, q1) = match read_be_u32(input, p) {
            Ok(v) => v,
            Err(e) => { return Err(e); },
        };
        let ((program, program_version), q2) = match decode_program(input, q1) {
            Ok(v) => v,
            Err(e) => { return Err(e); },
        };
        let (procedure, q3) = match read_be_u32(input, q2) {
            Ok(v) => v,
            Err(e) => { return Err(e); },
        };
        let (credentials, q4) = match decode_credentials(input, q3) {
            Ok(v) => v,
            Err(e) => { return Err(e); },
        };
        let (verifier, q5) = match decode_auth(input, q4) {
            Ok(v) => v,
            Err(e) => { return Err(e); },
        };
        let (procedure, q6) = match RpcProcedure::decode(input, q5, &program, procedure) {
            Ok(v) => v,
            Err(e) => { return Err(e); },
        };
        Ok((RpcCall { version, program, program_version, procedure, credentials, verifier }, q6))
    }
}

impl RpcMessage {
    pub fn new(transaction_id: u32, message: RpcMessageType) -> (m: RpcMessage)
        ensures
            m.xid == transaction_id,
            m.message == message,
    {
        RpcMessage { xid: transaction_id, message }
    }

    pub fn transaction_id(self) -> (x: u32)
        ensures
            x == self.xid,
    {
        self.xid
    }

    pub fn message(&self) -> (m: &RpcMessageType)
        ensures
            m == &self.message,
    {
        &self.message
    }

    /// Reads a message from the start of `input`; answers the unread rest
    /// and the message.
    pub fn decode(input: &[u8]) -> (r: Result<(&[u8], RpcMessage), ParseError>)
        requires
            !decode_panics(input@),
        ensures
            match (r, spec_rpc_message(input@)) {
                (Ok((rest, m)), Ok((m2, q))) => m@ == m2 && rest@ == input@.subrange(
                    q as int,
                    input@.len() as int,
                ),
                (Err(e), Err(e2)) => e == e2,
                _ => false,
            },
    {
        let (xid, q) = match read_be_u32(input, 0) {
            Ok(v) => v,
            Err(e) => { return Err(e); },
        };
        let (message_type, r) = match read_be_u32(input, q) {
            Ok(v) => v,
            Err(e) => { return Err(e); },
        };
        if message_type == 0 {
            match RpcCall::decode(input, r) {
                Ok((call, t)) => {
                    Ok((rest_of(input, t), RpcMessage { xid, message: RpcMessageType::Call(call) }))
                },
                Err(e) => Err(e),
            }
        } else {
            Err(ParseError::new(ErrorKind::Switch, r))
        }
    }

    /// Whether `decode` may be called on `input` (it is not a reply).
    pub fn can_decode(input: &[u8]) -> (b: bool)
        ensures
            b == !decode_panics(input@),
    {
        if input.len() >= 8 {
            match read_be_u32(input, 4) {
                Ok((t, _)) => t != 1,
                Err(_) => true,
            }
        } else {
            true
        }
    }

    /// Decodes a buffer that holds one call.
    pub fn try_from(message: bytes::Bytes) -> (r: Result<RpcMessage, &'static str>)
        requires
            !decode_panics(bytes_view(message)),
        ensures
            match (r, spec_rpc_message(bytes_view(message))) {
                (Ok(m), Ok((m2, _))) => m@ == m2,
                (Err(_), Err(_)) => true,
                _ => false,
            },
    {
        match RpcMessage::decode(bytes_as_slice(&message)) {
            Ok((_input, m)) => Ok(m),
            Err(_) => Err("Failed decoding Bytes into RpcMessage"),
        }
    }
}

} // verus!

verus! {

// ---------------------------------------------------------------------------
// Replies

#[derive(Debug, PartialEq, Eq, Structural, Clone, Copy)]
pub enum RpcReplyState {
    Accepted,
}

#[derive(Debug, PartialEq, Eq, Structural, Clone, Copy)]
pub enum RpcAcceptState {
    Success,
}

#[derive(Debug, PartialEq, Eq, Structural, Clone, Copy)]
pub enum NfsStatus {
    NfsOk,
}

#[derive(Debug, PartialEq, Eq, Structural, Clone, Copy)]
pub enum FileType {
    File,
    Directory,
}

/// Permission bytes of a file.
#[derive(Debug, PartialEq, Eq, Structural, Clone, Copy)]
pub struct FileMode {
    pub name: u8,
    pub user: u8,
    pub group: u8,
    pub other: u8,
}

/// The attributes of a file. Times are seconds since the Unix epoch (zero
/// for a time before it).
#[derive(Debug, PartialEq, Eq, Structural, Clone, Copy)]
pub struct NfsFileAttributes {
    pub _type: FileType,
    pub mode: FileMode,
    pub nlink: u32,
    pub uid: u32,
    pub gid: u32,
    pub size: u32,
    pub blocksize: u32,
    pub rdev: u32,
    pub blocks: u32,
    pub fsid: u32,
    pub file_id: u32,
    pub atime: u64,
    pub mtime: u64,
    pub ctime: u64,
}

/// What the file system tells of a file, as plain values.
#[derive(Debug, PartialEq, Eq, Structural, Clone, Copy)]
pub struct FileStat {
    pub is_dir: bool,
    pub nlink: u64,
    pub uid: u32,
    pub gid: u32,
    pub size: u64,
    pub blksize: u64,
    pub rdev: u64,
    pub blocks: u64,
    pub accessed: u64,
    pub modified: u64,
    pub created: u64,
}

#[derive(Debug, PartialEq, Eq, Structural, Clone, Copy)]
pub struct PortmapGetportReply {
    pub port: u32,
}

#[derive(Debug, PartialEq, Eq)]
pub struct ExportListEntry {
    pub directory: String,
    pub groups: Vec<String>,
}

#[derive(Debug, PartialEq, Eq)]
pub struct MountExportReply {
    pub export_list_entries: Vec<ExportListEntry>,
}

#[derive(Debug, PartialEq, Eq)]
pub struct MountMntReply {
    pub status: u32,
    pub fhandle: FileHandle,
}

#[derive(Debug, PartialEq, Eq)]
pub struct NfsLookupReply {
    pub status: NfsStatus,
    pub fhandle: FileHandle,
    pub attributes: NfsFileAttributes,
}

#[derive(Debug, PartialEq, Eq)]
pub struct NfsGetAttrReply {
    pub status: NfsStatus,
    pub attributes: NfsFileAttributes,
}

#[derive(Debug, PartialEq, Eq)]
pub struct NfsDataWrapper {
    pub data: Vec<u8>,
}

#[derive(Debug, PartialEq, Eq)]
pub struct NfsReadReply {
    pub status: NfsStatus,
    pub attributes: NfsFileAttributes,
    pub data: NfsDataWrapper,
}

#[derive(Debug, PartialEq, Eq)]
pub enum RpcReplyMessage {
    PortmapGetport(PortmapGetportReply),
    MountExport(MountExportReply),
    MountMnt(MountMntReply),
    NfsLookup(NfsLookupReply),
    NfsGetAttr(NfsGetAttrReply),
    NfsRead(NfsReadReply),
}

#[derive(Debug, PartialEq, Eq)]
pub struct RpcReply {
    pub verifier: RpcAuth,
    pub reply_state: RpcReplyState,
    pub accept_state: RpcAcceptState,
    pub data: RpcReplyMessage,
}

pub const VALUE_FOLLOWS: [u8; 4] = [0x00, 0x00, 0x00, 0x01];
pub const NO_VALUE_FOLLOWS: [u8; 4] = [0x00, 0x00, 0x00, 0x00];
pub const OPAQUE_DATA: [u8; 2] = [0x00, 0x00];

// ---------------------------------------------------------------------------
// Encoding (specification)

pub open spec fn auth_bytes(a: RpcAuth) -> Seq<u8> {
    be32(
        match a {
            RpcAuth::Null => 0u32,
            _ => 16u32,
        },
    ) + be32(0)
}

pub open spec fn file_type_bytes(t: FileType) -> Seq<u8> {
    be32(
        match t {
            FileType::File => 1u32,
            FileType::Directory => 2u32,
        },
    )
}

pub open spec fn mode_bytes(m: FileMode) -> Seq<u8> {
    seq![m.name, m.user, m.group, m.other]
}

/// A time as RFC 1094 sends it: the low four bytes of the seconds, then zero
/// microseconds.
pub open spec fn time_bytes(secs: u64) -> Seq<u8> {
    be32((secs % 0x1_0000_0000) as u32) + be32(0)
}

pub open spec fn attributes_bytes(a: NfsFileAttributes) -> Seq<u8> {
    file_type_bytes(a._type) + mode_bytes(a.mode) + be32(a.nlink) + be32(a.uid) + be32(a.gid)
        + be32(a.size) + be32(a.blocksize) + be32(a.rdev) + be32(a.blocks) + be32(a.fsid) + be32(
        a.file_id,
    ) + time_bytes(a.atime) + time_bytes(a.mtime) + time_bytes(a.ctime)
}

/// A length as a `u32` (taken modulo 2^32).
pub open spec fn len32(n: nat) -> u32 {
    (n % 0x1_0000_0000) as u32
}

pub open spec fn group_bytes(g: Seq<char>) -> Seq<u8> {
    be32(len32(vstd::utf8::encode_utf8(g).len())) + vstd::utf8::encode_utf8(g) + seq![0u8, 0u8]
}

pub open spec fn groups_bytes(gs: Seq<Seq<char>>) -> Seq<u8>
    decreases gs.len(),
{
    if gs.len() == 0 {
        Seq::empty()
    } else {
        groups_bytes(gs.drop_last()) + group_bytes(gs.last())
    }
}

/// An export entry: the directory (UTF-16LE, with its byte length), two
/// fill bytes, the groups (if any, after a value-follows word), and the
/// no-value-follows word.
pub open spec fn entry_bytes(directory: Seq<char>, groups: Seq<Seq<char>>) -> Seq<u8> {
    be32(len32(utf16_le(directory).len())) + utf16_le(directory) + seq![0u8, 0u8] + (if groups.len()
        > 0 {
        be32(1) + groups_bytes(groups)
    } else {
        Seq::empty()
    }) + be32(0)
}

pub open spec fn entry_view(e: ExportListEntry) -> (Seq<char>, Seq<Seq<char>>) {
    (e.directory@, string_views(e.groups@))
}

pub open spec fn entries_bytes(es: Seq<(Seq<char>, Seq<Seq<char>>)>) -> Seq<u8>
    decreases es.len(),
{
    if es.len() == 0 {
        Seq::empty()
    } else {
        entries_bytes(es.drop_last()) + entry_bytes(es.last().0, es.last().1)
    }
}

pub open spec fn export_reply_bytes(es: Seq<(Seq<char>, Seq<Seq<char>>)>) -> Seq<u8> {
    (if es.len() > 0 {
        be32(1) + entries_bytes(es)
    } else {
        Seq::empty()
    }) + be32(0)
}

pub open spec fn reply_message_bytes(d: RpcReplyMessage) -> Seq<u8> {
    match d {
        RpcReplyMessage::PortmapGetport(r) => be32(r.port),
        RpcReplyMessage::MountExport(r) => export_reply_bytes(
            r.export_list_entries@.map_values(|e: ExportListEntry| entry_view(e)),
        ),
        RpcReplyMessage::MountMnt(r) => be32(r.status) + r.fhandle@,
        RpcReplyMessage::NfsLookup(r) => be32(0) + r.fhandle@ + attributes_bytes(r.attributes),
        RpcReplyMessage::NfsGetAttr(r) => be32(0) + attributes_bytes(r.attributes),
        RpcReplyMessage::NfsRead(r) => be32(0) + attributes_bytes(r.attributes) + be32(
            len32(r.data.data@.len()),
        ) + r.data.data@,
    }
}

/// A reply body: verifier, reply state, accept state, results.
pub open spec fn reply_bytes(r: RpcReply) -> Seq<u8> {
    auth_bytes(r.verifier) + be32(0) + be32(0) + reply_message_bytes(r.data)
}

/// A message on the wire: the transaction id, then for a reply the message
/// type 1 and the reply body (a call is not sent by this server and encodes
/// to nothing after the id).
pub open spec fn rpc_message_bytes(m: RpcMessage) -> Seq<u8> {
    be32(m.xid) + match m.message {
        RpcMessageType::Reply(r) => be32(1) + reply_bytes(r),
        RpcMessageType::Call(_) => Seq::empty(),
    }
}

} // verus!

verus! {

// ---------------------------------------------------------------------------
// Encoding (code)

impl RpcAuth {
    pub fn push_bytes(&self, out: &mut Vec<u8>)
        ensures
            final(out)@ == old(out)@ + auth_bytes(*self),
    {
        let flavor: u32 = match self {
            RpcAuth::Null => 0,
            _ => 16,
        };
        push_be32(out, flavor);
        push_be32(out, 0);
        assert(out@ =~= old(out)@ + auth_bytes(*self));
    }
}

fn push_time(out: &mut Vec<u8>, secs: u64)
    ensures
        final(out)@ == old(out)@ + time_bytes(secs),
{
    push_be32(out, (secs % 0x1_0000_0000) as u32);
    push_be32(out, 0);
    assert(out@ =~= old(out)@ + time_bytes(secs));
}

/// Appends a length as a big-endian word, taken modulo 2^32.
fn push_len32(out: &mut Vec<u8>, n: u128)
    ensures
        final(out)@ == old(out)@ + be32(len32(n as nat)),
{
    push_be32(out, (n % 0x1_0000_0000) as u32);
}

/// A directory with every count zero and every time `now`.
pub open spec fn default_attributes(now: u64) -> NfsFileAttributes {
    NfsFileAttributes {
        _type: FileType::Directory,
        mode: FileMode { name: 0, user: 0, group: 0, other: 0 },
        nlink: 0,
        uid: 0,
        gid: 0,
        size: 0,
        blocksize: 0,
        rdev: 0,
        blocks: 0,
        fsid: 0,
        file_id: 0,
        atime: now,
        mtime: now,
        ctime: now,
    }
}

impl NfsFileAttributes {
    /// The attributes that a file's status gives.
    pub open spec fn from_stat_spec(stat: FileStat) -> NfsFileAttributes {
        NfsFileAttributes {
            _type: if stat.is_dir {
                FileType::Directory
            } else {
                FileType::File
            },
            mode: FileMode { name: 0, user: 0, group: 81, other: 24 },
            nlink: stat.nlink as u32,
            uid: stat.uid,
            gid: stat.gid,
            size: stat.size as u32,
            blocksize: stat.blksize as u32,
            rdev: stat.rdev as u32,
            blocks: stat.blocks as u32,
            fsid: 0,
            file_id: 0,
            atime: stat.accessed,
            mtime: stat.modified,
            ctime: stat.created,
        }
    }

    /// The attributes that a file's status gives: its kind, a fixed mode
    /// (group 81, other 24), its counts and sizes (each taken modulo 2^32),
    /// file system and file id zero, and its three times.
    pub fn from_stat(stat: FileStat) -> (a: NfsFileAttributes)
        ensures
            a == NfsFileAttributes::from_stat_spec(stat),
            a._type == (if stat.is_dir { FileType::Directory } else { FileType::File }),
            a.mode == (FileMode { name: 0, user: 0, group: 81, other: 24 }),
            a.nlink == stat.nlink as u32,
            a.uid == stat.uid,
            a.gid == stat.gid,
            a.size == stat.size as u32,
            a.blocksize == stat.blksize as u32,
            a.rdev == stat.rdev as u32,
            a.blocks == stat.blocks as u32,
            a.fsid == 0,
            a.file_id == 0,
            a.atime == stat.accessed,
            a.mtime == stat.modified,
            a.ctime == stat.created,
    {
        NfsFileAttributes {
            _type: if stat.is_dir {
                FileType::Directory
            } else {
                FileType::File
            },
            mode: FileMode { name: 0x00, user: 0x00, group: 81, other: 24 },
            nlink: stat.nlink as u32,
            uid: stat.uid,
            gid: stat.gid,
            size: stat.size as u32,
            blocksize: stat.blksize as u32,
            rdev: stat.rdev as u32,
            blocks: stat.blocks as u32,
            fsid: 0,
            file_id: 0,
            atime: stat.accessed,
            mtime: stat.modified,
            ctime: stat.created,
        }
    }

    /// A directory with every count zero and every time `now`.
    pub fn default_at(now: u64) -> (a: NfsFileAttributes)
        ensures
            a == default_attributes(now),
    {
        NfsFileAttributes {
            _type: FileType::Directory,
            mode: FileMode { name: 0x00, user: 0x00, group: 0x00, other: 0x00 },
            nlink: 0,
            uid: 0,
            gid: 0,
            size: 0,
            blocksize: 0,
            rdev: 0,
            blocks: 0,
            fsid: 0,
            file_id: 0,
            atime: now,
            mtime: now,
            ctime: now,
        }
    }

    pub fn push_bytes(&self, out: &mut Vec<u8>)
        ensures
            final(out)@ == old(out)@ + attributes_bytes(*self),
    {
        let t: u32 = match self._type {
            FileType::File => 1,
            FileType::Directory => 2,
        };
        push_be32(out, t);
        out.push(self.mode.name);
        out.push(self.mode.user);
        out.push(self.mode.group);
        out.push(self.mode.other);
        push_be32(out, self.nlink);
        push_be32(out, self.uid);
        push_be32(out, self.gid);
        push_be32(out, self.size);
        push_be32(out, self.blocksize);
        push_be32(out, self.rdev);
        push_be32(out, self.blocks);
        push_be32(out, self.fsid);
        push_be32(out, self.file_id);
        push_time(out, self.atime);
        push_time(out, self.mtime);
        push_time(out, self.ctime);
        assert(out@ =~= old(out)@ + attributes_bytes(*self));
    }
}

/// Calls `u64::from_ne_bytes`, which std documents as reading the bytes in
/// the machine's own byte order: the result is their little-endian or their
/// big-endian value.
#[verifier::external_body]
fn u64_from_ne_bytes(b: [u8; 8]) -> (r: u64)
    ensures
        r == le64_of(b@) || r == be64_of(b@),
{
    u64::from_ne_bytes(b)
}

/// The little-endian value of eight bytes.
pub open spec fn le64_of(b: Seq<u8>) -> int {
    b[0] as int + b[1] as int * 0x100 + b[2] as int * 0x1_0000 + b[3] as int * 0x100_0000 + b[4] as int
        * 0x1_0000_0000 + b[5] as int * 0x100_0000_0000 + b[6] as int * 0x1_0000_0000_0000 + b[7] as int
        * 0x100_0000_0000_0000
}

/// The big-endian value of eight bytes.
pub open spec fn be64_of(b: Seq<u8>) -> int {
    b[7] as int + b[6] as int * 0x100 + b[5] as int * 0x1_0000 + b[4] as int * 0x100_0000 + b[3] as int
        * 0x1_0000_0000 + b[2] as int * 0x100_0000_0000 + b[1] as int * 0x1_0000_0000_0000 + b[0] as int
        * 0x100_0000_0000_0000
}

impl FileHandle {
    pub fn new(data: [u8; 32]) -> (f: FileHandle)
        ensures
            f@ == data@,
    {
        FileHandle { data: vstd::slice::slice_to_vec(&data) }
    }

    /// The inode that the first eight bytes hold, in the machine's byte
    /// order.
    pub fn ino(&self) -> (n: u64)
        requires
            self@.len() >= 8,
        ensures
            n == le64_of(self@.subrange(0, 8)) || n == be64_of(self@.subrange(0, 8)),
    {
        let d = &self.data;
        let b: [u8; 8] = [d[0], d[1], d[2], d[3], d[4], d[5], d[6], d[7]];
        assert(b@ =~= self@.subrange(0, 8));
        u64_from_ne_bytes(b)
    }

    pub fn push_bytes(&self, out: &mut Vec<u8>)
        ensures
            final(out)@ == old(out)@ + self@,
    {
        push_slice(out, self.data.as_slice());
    }
}

impl NfsLookup {
    pub fn filename(&self) -> (r: &String)
        ensures
            r@ == self.filename@,
    {
        &self.filename
    }
}

impl PortmapGetport {
    pub fn program(&self) -> (r: &RpcProgram)
        ensures
            *r == self.program,
    {
        &self.program
    }
}

impl NfsLookupReply {
    /// A successful lookup with a zero handle and directory attributes at
    /// time `now`.
    pub fn default_at(now: u64) -> (r: NfsLookupReply)
        ensures
            r.status == NfsStatus::NfsOk,
            r.fhandle@ == Seq::new(32, |i: int| 0u8),
            r.attributes == default_attributes(now),
    {
        let f = FileHandle::new([0u8; 32]);
        assert(f@ =~= Seq::new(32, |i: int| 0u8));
        NfsLookupReply {
            status: NfsStatus::NfsOk,
            fhandle: f,
            attributes: NfsFileAttributes::default_at(now),
        }
    }
}

impl ExportListEntry {
    pub fn new(directory: String, groups: Vec<String>) -> (e: ExportListEntry)
        ensures
            e.directory == directory,
            e.groups == groups,
    {
        ExportListEntry { directory, groups }
    }

    pub fn push_bytes(&self, out: &mut Vec<u8>)
        ensures
            final(out)@ == old(out)@ + entry_bytes(self.directory@, string_views(self.groups@)),
    {
        let units = crate::text::utf16_len(self.directory.as_str());
        proof {
            crate::text::lemma_units_le_len(crate::text::encode_utf16(self.directory@));
        }
        push_len32(out, units * 2);
        push_utf16_le(out, self.directory.as_str());
        out.push(0);
        out.push(0);
        let ghost head = out@;
        let ghost gs = string_views(self.groups@);
        if self.groups.len() > 0 {
            push_be32(out, 1);
            let mut i: usize = 0;
            while i < self.groups.len()
                invariant
                    i <= self.groups@.len(),
                    gs == string_views(self.groups@),
                    gs.len() > 0,
                    out@ == head + be32(1) + groups_bytes(gs.take(i as int)),
                decreases self.groups@.len() - i,
            {
                let g = self.groups[i].as_str();
                let b = g.as_bytes();
                push_len32(out, b.len() as u128);
                push_slice(out, b);
                out.push(0);
                out.push(0);
                proof {
                    assert(gs.take(i + 1).drop_last() =~= gs.take(i as int));
                    assert(gs.take(i + 1).last() == g@);
                }
                i = i + 1;
                assert(out@ =~= head + be32(1) + groups_bytes(gs.take(i as int)));
            }
            assert(gs.take(i as int) =~= gs);
        }
        push_be32(out, 0);
        assert(out@ =~= old(out)@ + entry_bytes(self.directory@, gs));
    }
}

impl MountExportReply {
    pub fn push_bytes(&self, out: &mut Vec<u8>)
        ensures
            final(out)@ == old(out)@ + export_reply_bytes(
                self.export_list_entries@.map_values(|e: ExportListEntry| entry_view(e)),
            ),
    {
        let ghost es = self.export_list_entries@.map_values(|e: ExportListEntry| entry_view(e));
        if self.export_list_entries.len() > 0 {
            push_be32(out, 1);
            let ghost head = out@;
            let mut i: usize = 0;
            while i < self.export_list_entries.len()
                invariant
                    i <= self.export_list_entries@.len(),
                    es == self.export_list_entries@.map_values(|e: ExportListEntry| entry_view(e)),
                    out@ == head + entries_bytes(es.take(i as int)),
                decreases self.export_list_entries@.len() - i,
            {
                self.export_list_entries[i].push_bytes(out);
                proof {
                    assert(es.take(i + 1).drop_last() =~= es.take(i as int));
                    assert(es.take(i + 1).last() == entry_view(self.export_list_entries@[i as int]));
                }
                i = i + 1;
                assert(out@ =~= head + entries_bytes(es.take(i as int)));
            }
            assert(es.take(i as int) =~= es);
        }
        push_be32(out, 0);
        assert(out@ =~= old(out)@ + export_reply_bytes(es));
    }
}

impl MountMntReply {
    pub fn new(status: u32, fhandle: FileHandle) -> (r: MountMntReply)
        ensures
            r.status == status,
            r.fhandle == fhandle,
    {
        MountMntReply { status, fhandle }
    }
}

impl RpcReplyMessage {
    pub fn push_bytes(&self, out: &mut Vec<u8>)
        ensures
            final(out)@ == old(out)@ + reply_message_bytes(*self),
    {
        match self {
            RpcReplyMessage::PortmapGetport(r) => push_be32(out, r.port),
            RpcReplyMessage::MountExport(r) => r.push_bytes(out),
            RpcReplyMessage::MountMnt(r) => {
                push_be32(out, r.status);
                r.fhandle.push_bytes(out);
            },
            RpcReplyMessage::NfsLookup(r) => {
                push_be32(out, 0);
                r.fhandle.push_bytes(out);
                r.attributes.push_bytes(out);
            },
            RpcReplyMessage::NfsGetAttr(r) => {
                push_be32(out, 0);
                r.attributes.push_bytes(out);
            },
            RpcReplyMessage::NfsRead(r) => {
                push_be32(out, 0);
                r.attributes.push_bytes(out);
                push_len32(out, r.data.data.len() as u128);
                push_slice(out, r.data.data.as_slice());
            },
        }
        assert(out@ =~= old(out)@ + reply_message_bytes(*self));
    }
}

impl RpcReply {
    pub fn push_bytes(&self, out: &mut Vec<u8>)
        ensures
            final(out)@ == old(out)@ + reply_bytes(*self),
    {
        self.verifier.push_bytes(out);
        push_be32(out, 0);
        push_be32(out, 0);
        self.data.push_bytes(out);
        assert(out@ =~= old(out)@ + reply_bytes(*self));
    }
}

impl RpcMessage {
    /// The wire form of this message.
    pub fn encode(&self) -> (v: Vec<u8>)
        ensures
            v@ == rpc_message_bytes(*self),
    {
        let mut out: Vec<u8> = Vec::new();
        push_be32(&mut out, self.xid);
        match &self.message {
            RpcMessageType::Reply(reply) => {
                push_be32(&mut out, 1);
                reply.push_bytes(&mut out);
            },
            RpcMessageType::Call(_) => {},
        }
        assert(out@ =~= rpc_message_bytes(*self));
        out
    }

    /// The wire form of this message as a buffer; encoding cannot fail.
    pub fn into_bytes(self) -> (r: Result<bytes::Bytes, Error>)
        ensures
            r matches Ok(b) && bytes_view(b) == rpc_message_bytes(self),
    {
        Ok(bytes_from_vec(self.encode()))
    }
}

} // verus!

verus! {

/// File attributes take 68 bytes on the wire.
pub proof fn lemma_attributes_len(a: NfsFileAttributes)
    ensures
        attributes_bytes(a).len() == 68,
{
}

/// A lookup reply with a 32-byte handle takes 104 bytes on the wire.
pub proof fn lemma_lookup_reply_len(r: NfsLookupReply)
    requires
        r.fhandle@.len() == 32,
    ensures
        reply_message_bytes(RpcReplyMessage::NfsLookup(r)).len() == 104,
{
}

/// The big-endian 32-bit word at bytes `4 * i .. 4 * i + 4` of `b`.
pub open spec fn word_at(b: Seq<u8>, i: int) -> u32 {
    crate::wire::be32_value(b[4 * i], b[4 * i + 1], b[4 * i + 2], b[4 * i + 3])
}

/// File attributes go on the wire in the RFC 1094 `fattr` layout: seventeen
/// big-endian words for type (1 file, 2 directory), mode (its four bytes),
/// nlink, uid, gid, size, blocksize, rdev, blocks, fsid, fileid, then atime,
/// mtime and ctime as seconds (low 32 bits) and zero microseconds. Reading
/// the words back gives the attributes.
pub proof fn lemma_attributes_layout(a: NfsFileAttributes)
    ensures
        attributes_bytes(a).len() == 68,
        word_at(attributes_bytes(a), 0) == (if a._type == FileType::File { 1u32 } else { 2u32 }),
        attributes_bytes(a)[4] == a.mode.name,
        attributes_bytes(a)[5] == a.mode.user,
        attributes_bytes(a)[6] == a.mode.group,
        attributes_bytes(a)[7] == a.mode.other,
        word_at(attributes_bytes(a), 2) == a.nlink,
        word_at(attributes_bytes(a), 3) == a.uid,
        word_at(attributes_bytes(a), 4) == a.gid,
        word_at(attributes_bytes(a), 5) == a.size,
        word_at(attributes_bytes(a), 6) == a.blocksize,
        word_at(attributes_bytes(a), 7) == a.rdev,
        word_at(attributes_bytes(a), 8) == a.blocks,
        word_at(attributes_bytes(a), 9) == a.fsid,
        word_at(attributes_bytes(a), 10) == a.file_id,
        word_at(attributes_bytes(a), 11) == a.atime % 0x1_0000_0000,
        word_at(attributes_bytes(a), 12) == 0,
        word_at(attributes_bytes(a), 13) == a.mtime % 0x1_0000_0000,
        word_at(attributes_bytes(a), 14) == 0,
        word_at(attributes_bytes(a), 15) == a.ctime % 0x1_0000_0000,
        word_at(attributes_bytes(a), 16) == 0,
{
    let b = attributes_bytes(a);
    let ty: u32 = if a._type == FileType::File { 1u32 } else { 2u32 };
    let words: Seq<u32> = seq![
        ty, 0, a.nlink, a.uid, a.gid, a.size, a.blocksize, a.rdev, a.blocks, a.fsid, a.file_id,
        (a.atime % 0x1_0000_0000) as u32, 0, (a.mtime % 0x1_0000_0000) as u32, 0,
        (a.ctime % 0x1_0000_0000) as u32, 0,
    ];
    assert(b =~= be32(ty) + mode_bytes(a.mode) + be32(a.nlink) + be32(a.uid) + be32(a.gid) + be32(
        a.size,
    ) + be32(a.blocksize) + be32(a.rdev) + be32(a.blocks) + be32(a.fsid) + be32(a.file_id) + be32(
        words[11],
    ) + be32(0) + be32(words[13]) + be32(0) + be32(words[15]) + be32(0));
    assert forall|i: int| 0 <= i < 17 && i != 1 implies b.subrange(4 * i, 4 * i + 4) == be32(
        #[trigger] words[i],
    ) by {
        assert(b.subrange(4 * i, 4 * i + 4) =~= be32(words[i]));
    }
    assert forall|i: int| 0 <= i < 17 && i != 1 implies #[trigger] word_at(b, i) == words[i] by {
        crate::wire::lemma_be32_roundtrip(words[i]);
        assert(b.subrange(4 * i, 4 * i + 4) == be32(words[i]));
        assert(b[4 * i] == be32(words[i])[0]);
        assert(b[4 * i + 1] == be32(words[i])[1]);
        assert(b[4 * i + 2] == be32(words[i])[2]);
        assert(b[4 * i + 3] == be32(words[i])[3]);
    }
    assert(word_at(b, 0) == words[0]);
    assert(word_at(b, 2) == words[2]);
    assert(word_at(b, 3) == words[3]);
    assert(word_at(b, 4) == words[4]);
    assert(word_at(b, 5) == words[5]);
    assert(word_at(b, 6) == words[6]);
    assert(word_at(b, 7) == words[7]);
    assert(word_at(b, 8) == words[8]);
    assert(word_at(b, 9) == words[9]);
    assert(word_at(b, 10) == words[10]);
    assert(word_at(b, 11) == words[11]);
    assert(word_at(b, 12) == words[12]);
    assert(word_at(b, 13) == words[13]);
    assert(word_at(b, 14) == words[14]);
    assert(word_at(b, 15) == words[15]);
    assert(word_at(b, 16) == words[16]);
}

/// An NFS READ call's arguments follow RFC 1094 `readargs`: the 32-byte file
/// handle, then the big-endian offset, count and total count. With all 44
/// bytes present the call decodes to exactly those, ending after them;
/// with fewer it fails.
pub proof fn lemma_nfs_read_layout(s: Seq<u8>, p: usize)
    requires
        s.len() <= usize::MAX,
    ensures
        p + 44 <= s.len() ==> spec_nfs_read(s, p) == Ok::<((Seq<u8>, u32, u32, u32), usize), ParseError>(
            (
                (
                    s.subrange(p as int, p + 32),
                    word_at(s.subrange(p + 32, p + 44), 0),
                    word_at(s.subrange(p + 32, p + 44), 1),
                    word_at(s.subrange(p + 32, p + 44), 2),
                ),
                (p + 44) as usize,
            ),
        ),
        p + 44 > s.len() ==> spec_nfs_read(s, p) is Err,
{
    if p + 44 <= s.len() {
        let w = s.subrange(p + 32, p + 44);
        assert(w[0] == s[p + 32] && w[1] == s[p + 33] && w[2] == s[p + 34] && w[3] == s[p + 35]);
        assert(w[4] == s[p + 36] && w[5] == s[p + 37] && w[6] == s[p + 38] && w[7] == s[p + 39]);
        assert(w[8] == s[p + 40] && w[9] == s[p + 41] && w[10] == s[p + 42] && w[11] == s[p + 43]);
    }
}

/// The program and procedure number that a procedure's arguments belong to:
/// portmap (100000) NULL 0, SET 1, UNSET 2, GETPORT 3, DUMP 4, CALLIT 5;
/// NFS (100003) GETATTR 1, LOOKUP 4, READ 6; mount (100005) NULL 0, MNT 1,
/// EXPORT 5.
pub open spec fn procedure_number(m: ProcedureModel) -> (u32, u32) {
    match m {
        ProcedureModel::PortmapNull => (100000, 0),
        ProcedureModel::PortmapSet => (100000, 1),
        ProcedureModel::PortmapUnset => (100000, 2),
        ProcedureModel::PortmapGetport(_) => (100000, 3),
        ProcedureModel::PortmapDump => (100000, 4),
        ProcedureModel::PortmapCallResult => (100000, 5),
        ProcedureModel::NfsNull => (100003, 0),
        ProcedureModel::NfsGetAttr(_) => (100003, 1),
        ProcedureModel::NfsLookup(_, _) => (100003, 4),
        ProcedureModel::NfsRead(_, _, _, _) => (100003, 6),
        ProcedureModel::MountNull => (100005, 0),
        ProcedureModel::MountMnt(_) => (100005, 1),
        ProcedureModel::MountExport => (100005, 5),
    }
}

/// The number of a program on the wire.
pub open spec fn program_number(p: RpcProgram) -> u32 {
    match p {
        RpcProgram::Portmap => 100000,
        RpcProgram::Nfs => 100003,
        RpcProgram::Mount => 100005,
    }
}

/// A call's arguments are read as those of the procedure it names: whatever
/// a call of procedure `procedure` of `program` decodes to belongs to that
/// very program and procedure number.
pub proof fn lemma_procedure_dispatch(s: Seq<u8>, p: usize, program: RpcProgram, procedure: u32)
    ensures
        spec_procedure(s, p, program, procedure) matches Ok((m, _q)) ==> procedure_number(m) == (
            program_number(program),
            procedure,
        ),
{
}

/// A GETPORT call's arguments follow RFC 1833 `mapping`: program, version,
/// protocol and port, four big-endian words. With 16 bytes present, a known
/// program and protocol 17 (UDP), the call decodes to exactly those and ends
/// after them; with fewer bytes it fails.
pub proof fn lemma_getport_layout(s: Seq<u8>, p: usize)
    requires
        s.len() <= usize::MAX,
    ensures
        p + 16 <= s.len() && (word_at(s.subrange(p as int, p + 16), 0) == 100000 || word_at(
            s.subrange(p as int, p + 16),
            0,
        ) == 100003 || word_at(s.subrange(p as int, p + 16), 0) == 100005) && word_at(
            s.subrange(p as int, p + 16),
            2,
        ) == 17 ==> (spec_getport(s, p) matches Ok((g, q)) && q == p + 16 && program_number(
            g.program,
        ) == word_at(s.subrange(p as int, p + 16), 0) && g.version == word_at(
            s.subrange(p as int, p + 16),
            1,
        ) && g.protocol == PortmapProtocol::Udp && g.port == word_at(s.subrange(p as int, p + 16), 3)),
        p + 16 > s.len() ==> spec_getport(s, p) is Err,
{
    if p + 16 <= s.len() {
        let w = s.subrange(p as int, p + 16);
        assert(w[0] == s[p + 0] && w[1] == s[p + 1] && w[2] == s[p + 2] && w[3] == s[p + 3]);
        assert(w[4] == s[p + 4] && w[5] == s[p + 5] && w[6] == s[p + 6] && w[7] == s[p + 7]);
        assert(w[8] == s[p + 8] && w[9] == s[p + 9] && w[10] == s[p + 10] && w[11] == s[p + 11]);
        assert(w[12] == s[p + 12] && w[13] == s[p + 13] && w[14] == s[p + 14] && w[15] == s[p + 15]);
    }
}

/// NFS replies follow RFC 1094: a GETATTR reply is the status word 0 and the
/// attributes; a LOOKUP reply is the status, the 32-byte handle, then the
/// attributes; a READ reply is the status, the attributes, the data length
/// and the data. A GETPORT reply is the port word.
pub proof fn lemma_nfs_reply_layout(d: RpcReplyMessage)
    ensures
        d matches RpcReplyMessage::PortmapGetport(r) ==> reply_message_bytes(d) == be32(r.port),
        d matches RpcReplyMessage::NfsGetAttr(r) ==> reply_message_bytes(d).len() == 72
            && word_at(reply_message_bytes(d), 0) == 0 && reply_message_bytes(d).subrange(4, 72)
            == attributes_bytes(r.attributes),
        d matches RpcReplyMessage::NfsLookup(r) ==> word_at(reply_message_bytes(d), 0) == 0
            && reply_message_bytes(d).subrange(4, 4 + r.fhandle@.len() as int) == r.fhandle@
            && reply_message_bytes(d).subrange(
            4 + r.fhandle@.len() as int,
            72 + r.fhandle@.len() as int,
        ) == attributes_bytes(r.attributes) && reply_message_bytes(d).len() == 72
            + r.fhandle@.len(),
        d matches RpcReplyMessage::NfsRead(r) ==> word_at(reply_message_bytes(d), 0) == 0
            && reply_message_bytes(d).subrange(4, 72) == attributes_bytes(r.attributes) && word_at(
            reply_message_bytes(d),
            18,
        ) == r.data.data@.len() % 0x1_0000_0000 && reply_message_bytes(d).subrange(
            76,
            reply_message_bytes(d).len() as int,
        ) == r.data.data@,
{
    crate::wire::lemma_be32_roundtrip(0);
    match d {
        RpcReplyMessage::NfsGetAttr(r) => {
            lemma_attributes_len(r.attributes);
            assert(reply_message_bytes(d).subrange(4, 72) =~= attributes_bytes(r.attributes));
        },
        RpcReplyMessage::NfsLookup(r) => {
            lemma_attributes_len(r.attributes);
            let n = r.fhandle@.len() as int;
            assert(reply_message_bytes(d).subrange(4, 4 + n) =~= r.fhandle@);
            assert(reply_message_bytes(d).subrange(4 + n, 72 + n) =~= attributes_bytes(r.attributes));
        },
        RpcReplyMessage::NfsRead(r) => {
            lemma_attributes_len(r.attributes);
            let b = reply_message_bytes(d);
            let l = len32(r.data.data@.len());
            crate::wire::lemma_be32_roundtrip(l);
            assert(b.subrange(4, 72) =~= attributes_bytes(r.attributes));
            assert(b.subrange(72, 76) =~= be32(l));
            assert(b[72] == be32(l)[0] && b[73] == be32(l)[1] && b[74] == be32(l)[2] && b[75]
                == be32(l)[3]);
            assert(b.subrange(76, b.len() as int) =~= r.data.data@);
        },
        _ => {},
    }
}

/// The start of a call body (RFC 5531): RPC version, program, program
/// version and procedure, four big-endian words. Whatever a call body at `p`
/// decodes to holds exactly those, and its arguments are those of the
/// procedure that the program and procedure words name.
pub proof fn lemma_call_layout(s: Seq<u8>, p: usize)
    requires
        s.len() <= usize::MAX,
    ensures
        spec_call(s, p) matches Ok((c, _q)) ==> {
            &&& p + 16 <= s.len()
            &&& c.version == word_at(s.subrange(p as int, p + 16), 0)
            &&& program_number(c.program) == word_at(s.subrange(p as int, p + 16), 1)
            &&& c.program_version == word_at(s.subrange(p as int, p + 16), 2)
            &&& procedure_number(c.procedure) == (
                word_at(s.subrange(p as int, p + 16), 1),
                word_at(s.subrange(p as int, p + 16), 3),
            )
        },
{
    if spec_call(s, p) is Ok {
        let w = s.subrange(p as int, p + 16);
        assert(w[0] == s[p + 0] && w[1] == s[p + 1] && w[2] == s[p + 2] && w[3] == s[p + 3]);
        assert(w[4] == s[p + 4] && w[5] == s[p + 5] && w[6] == s[p + 6] && w[7] == s[p + 7]);
        assert(w[8] == s[p + 8] && w[9] == s[p + 9] && w[10] == s[p + 10] && w[11] == s[p + 11]);
        assert(w[12] == s[p + 12] && w[13] == s[p + 13] && w[14] == s[p + 14] && w[15] == s[p + 15]);
        let (program, _version) = spec_program(s, (p + 4) as usize).unwrap().0;
        let procedure = word_at(w, 3);
        let q3 = (p + 16) as usize;
        let q4 = spec_credentials(s, q3).unwrap().1;
        let q5 = spec_auth(s, q4).unwrap().1;
        lemma_procedure_dispatch(s, q5, program, procedure);
    }
}

} // verus!
