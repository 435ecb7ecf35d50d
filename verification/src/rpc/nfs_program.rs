//! The NFS program's decisions: the directory that lookups walk, the
//! replies built from what the file system tells, and which procedures are
//! served. Reading the file system is left to the caller.

use vstd::prelude::*;
use vstd::string::StrSliceExecFns;
use crate::rpc::fs::encode_file_handler;
use crate::rpc::packets::{
    FileHandle, FileStat, NfsFileAttributes, NfsLookupReply, NfsGetAttrReply, NfsReadReply,
    NfsDataWrapper, NfsStatus, RpcCall, RpcProcedure, le64_of,
};

verus! {

#[derive(Debug, PartialEq, Eq, Structural, Clone, Copy)]
pub enum NfsProcedureError {
    FileDoesNotExist,
    StaleFileHandle,
    NotImplemented,
}

/// The procedures this program serves.
#[derive(Debug, PartialEq, Eq, Structural, Clone, Copy)]
pub enum NfsProcedureKind {
    Lookup,
    GetAttr,
    Read,
}

/// A path after pushing `name` onto `base` (as `PathBuf::push` does on
/// Unix): an absolute name replaces the path, otherwise it is joined with
/// one separator.
pub open spec fn pushed_path(base: Seq<char>, name: Seq<char>) -> Seq<char> {
    if name.len() > 0 && name[0] == '/' {
        name
    } else if base.len() == 0 || base.last() == '/' {
        base + name
    } else {
        base + seq!['/'] + name
    }
}

/// The directory that lookups walk: it starts at the root, descends with
/// each found directory, and returns to the root after a file or a miss.
pub struct RpcNfsProgramHandler {
    path: String,
}

impl RpcNfsProgramHandler {
    pub closed spec fn spec_path(&self) -> Seq<char> {
        self.path@
    }

    pub fn new() -> (h: RpcNfsProgramHandler)
        ensures
            h.spec_path() == seq!['/'],
    {
        proof {
            reveal_strlit("/");
        }
        let h = RpcNfsProgramHandler { path: "/".to_string() };
        assert(h.spec_path() =~= seq!['/']);
        h
    }

    pub fn path(&self) -> (p: &str)
        ensures
            p@ == self.spec_path(),
    {
        self.path.as_str()
    }

    fn reset_path(&mut self)
        ensures
            final(self).spec_path() == seq!['/'],
    {
        proof {
            reveal_strlit("/");
        }
        self.path = "/".to_string();
        assert(self.spec_path() =~= seq!['/']);
    }

    /// The path that a lookup of `filename` asks the file system about.
    pub fn lookup_path(&self, filename: &str) -> (p: String)
        ensures
            p@ == pushed_path(self.spec_path(), filename@),
    {
        let mut chars: Vec<char> = Vec::new();
        let base = self.path.as_str();
        let n = filename.unicode_len();
        let m = base.unicode_len();
        let absolute = n > 0 && filename.get_char(0) == '/';
        if !absolute {
            let mut i: usize = 0;
            while i < m
                invariant
                    m == base@.len(),
                    i <= m,
                    chars@ == base@.take(i as int),
                decreases m - i,
            {
                chars.push(base.get_char(i));
                i = i + 1;
                assert(chars@ =~= base@.take(i as int));
            }
            assert(base@.take(m as int) =~= base@);
            if !(m == 0 || base.get_char(m - 1) == '/') {
                chars.push('/');
            }
        }
        let ghost head = chars@;
        let mut j: usize = 0;
        while j < n
            invariant
                n == filename@.len(),
                j <= n,
                chars@ == head + filename@.take(j as int),
            decreases n - j,
        {
            chars.push(filename.get_char(j));
            j = j + 1;
            assert(chars@ =~= head + filename@.take(j as int));
        }
        assert(filename@.take(n as int) =~= filename@);
        proof {
            if absolute {
                assert(head =~= Seq::<char>::empty());
                assert(chars@ =~= filename@);
            } else if m == 0 || base@.last() == '/' {
                assert(head == base@);
            } else {
                assert(head == base@ + seq!['/']);
            }
        }
        crate::text::string_from_chars(&chars)
    }

    /// Records the outcome of a lookup of `path`: a directory that was found
    /// becomes the current one; after a file or a miss the walk returns to
    /// the root. `found` is whether the entry exists and whether it is a file.
    pub fn record_lookup(&mut self, path: String, found: Option<bool>)
        ensures
            found == Some(false) ==> final(self).spec_path() == path@,
            found != Some(false) ==> final(self).spec_path() == seq!['/'],
    {
        match found {
            Some(is_file) => {
                self.path = path;
                if is_file {
                    self.reset_path();
                }
            },
            None => self.reset_path(),
        }
    }
}

/// The reply to a lookup that found an entry with status `stat` and inode
/// `ino`: its attributes and its file handle.
pub fn lookup_reply(stat: FileStat, ino: u64) -> (r: NfsLookupReply)
    ensures
        r.status == NfsStatus::NfsOk,
        r.attributes == NfsFileAttributes::from_stat_spec(stat),
        le64_of(r.fhandle@.subrange(0, 8)) == ino,
        r.fhandle@.len() == 32,
        forall|i: int| 8 <= i < 32 ==> r.fhandle@[i] == 0,
{
    let encoded = encode_file_handler(ino);
    NfsLookupReply {
        attributes: NfsFileAttributes::from_stat(stat),
        fhandle: FileHandle::new(encoded),
        status: NfsStatus::NfsOk,
    }
}

/// The reply to a request for attributes.
pub fn getattr_reply(stat: FileStat) -> (r: NfsGetAttrReply)
    ensures
        r.status == NfsStatus::NfsOk,
        r.attributes == NfsFileAttributes::from_stat_spec(stat),
{
    NfsGetAttrReply { status: NfsStatus::NfsOk, attributes: NfsFileAttributes::from_stat(stat) }
}

/// The reply to a read: the file's attributes and the bytes read.
pub fn read_reply(stat: FileStat, data: Vec<u8>) -> (r: NfsReadReply)
    ensures
        r.status == NfsStatus::NfsOk,
        r.attributes == NfsFileAttributes::from_stat_spec(stat),
        r.data.data == data,
{
    NfsReadReply {
        status: NfsStatus::NfsOk,
        attributes: NfsFileAttributes::from_stat(stat),
        data: NfsDataWrapper { data },
    }
}

/// Which procedure a call asks for; only lookup, getattr and read are
/// served.
pub fn call_procedure(call: &RpcCall) -> (r: Result<NfsProcedureKind, NfsProcedureError>)
    ensures
        call.procedure is NfsLookup ==> r == Ok::<NfsProcedureKind, NfsProcedureError>(
            NfsProcedureKind::Lookup,
        ),
        call.procedure is NfsGetAttr ==> r == Ok::<NfsProcedureKind, NfsProcedureError>(
            NfsProcedureKind::GetAttr,
        ),
        call.procedure is NfsRead ==> r == Ok::<NfsProcedureKind, NfsProcedureError>(
            NfsProcedureKind::Read,
        ),
        !(call.procedure is NfsLookup || call.procedure is NfsGetAttr || call.procedure is NfsRead)
            ==> r == Err::<NfsProcedureKind, NfsProcedureError>(NfsProcedureError::NotImplemented),
{
    match call.procedure() {
        RpcProcedure::NfsLookup(_) => Ok(NfsProcedureKind::Lookup),
        RpcProcedure::NfsGetAttr(_) => Ok(NfsProcedureKind::GetAttr),
        RpcProcedure::NfsRead(_) => Ok(NfsProcedureKind::Read),
        _ => Err(NfsProcedureError::NotImplemented),
    }
}

} // verus!
