//! A fixed-layout reading of RPC calls: the 60-byte call header (transaction
//! id, message type, RPC version, program, program version, procedure,
//! credentials and verifier) is read by position, the rest is the
//! procedure's parameters.

use vstd::prelude::*;
use crate::wire::{be32, be32_value};

verus! {

#[derive(Debug, PartialEq, Eq, Structural, Clone, Copy)]
pub enum RPCProgram {
    Portmap,
    Mount,
    NFS,
    Unknown,
}

#[derive(Debug, PartialEq, Eq, Structural, Clone, Copy)]
pub enum RPCProcedure {
    Getport,
    Export,
    Mnt,
    Lookup,
    Read,
    Getattr,
    Unknown,
}

/// The header of a call, its words kept as read.
#[derive(Debug, PartialEq, Eq, Clone, Copy)]
pub struct RPCCall {
    pub transaction_id: [u8; 4],
    pub message_type: [u8; 4],
    pub rpc_version: [u8; 4],
    pub program: RPCProgram,
    pub program_version: [u8; 4],
    pub procedure: RPCProcedure,
}

/// The parameters of a portmap GETPORT call.
#[derive(Debug, PartialEq, Eq, Clone, Copy)]
pub struct PortmapParams {
    pub program: [u8; 4],
    pub version: [u8; 4],
    pub protocol: [u8; 4],
    pub port: [u8; 4],
}

/// Which program a GETPORT call asks the port of.
#[derive(Debug, PartialEq, Eq, Clone, Copy)]
pub enum PortmapProcedure {
    Mount(PortmapParams),
    NFS(PortmapParams),
    Unknown,
}

#[derive(Debug, PartialEq, Eq, Clone, Copy)]
pub enum PortmapProgram {
    Getport(PortmapProcedure),
    Unknown,
}

/// A call sorted by program.
#[derive(Debug, PartialEq, Eq, Clone, Copy)]
pub enum RPC {
    Portmap(RPCCall, PortmapProgram),
    Mount(RPCCall),
    NFS(RPCCall),
    Unknown,
}

/// The length of the call header.
pub const CALL_HEADER_LEN: usize = 60;

pub open spec fn word_at(s: Seq<u8>, i: int) -> Seq<u8> {
    s.subrange(i, i + 4)
}

pub open spec fn value_at(s: Seq<u8>, i: int) -> u32 {
    be32_value(s[i], s[i + 1], s[i + 2], s[i + 3])
}

pub open spec fn program_of(v: u32) -> RPCProgram {
    if v == 100000 {
        RPCProgram::Portmap
    } else if v == 100005 {
        RPCProgram::Mount
    } else if v == 100003 {
        RPCProgram::NFS
    } else {
        RPCProgram::Unknown
    }
}

pub open spec fn procedure_of(program: RPCProgram, v: u32) -> RPCProcedure {
    match program {
        RPCProgram::Portmap => if v == 3 {
            RPCProcedure::Getport
        } else {
            RPCProcedure::Unknown
        },
        RPCProgram::Mount => if v == 5 {
            RPCProcedure::Export
        } else if v == 1 {
            RPCProcedure::Mnt
        } else {
            RPCProcedure::Unknown
        },
        RPCProgram::NFS => if v == 4 {
            RPCProcedure::Lookup
        } else if v == 6 {
            RPCProcedure::Read
        } else if v == 1 {
            RPCProcedure::Getattr
        } else {
            RPCProcedure::Unknown
        },
        RPCProgram::Unknown => RPCProcedure::Unknown,
    }
}

/// Why a call header is refused, if it is.
pub open spec fn header_error(s: Seq<u8>) -> Option<&'static str> {
    if s.len() < 60 {
        Some("RPC message is too short")
    } else if value_at(s, 4) == 1 {
        Some("Server received a reply")
    } else if value_at(s, 8) != 2 {
        Some("Only RPC Version 2 is supported")
    } else {
        None
    }
}

/// The parameters hold the four words after the call header.
pub open spec fn params_match(x: PortmapParams, s: Seq<u8>) -> bool {
    &&& x.program@ == word_at(s, 60)
    &&& x.version@ == word_at(s, 64)
    &&& x.protocol@ == word_at(s, 68)
    &&& x.port@ == word_at(s, 72)
}

/// The GETPORT procedure read from a call: by the program asked for.
pub open spec fn getport_matches(p: PortmapProcedure, s: Seq<u8>) -> bool {
    let v = value_at(s, 60);
    if v == 100005 {
        p matches PortmapProcedure::Mount(x) && params_match(x, s)
    } else if v == 100003 {
        p matches PortmapProcedure::NFS(x) && params_match(x, s)
    } else {
        p == PortmapProcedure::Unknown
    }
}

fn word(s: &[u8], i: usize) -> (w: [u8; 4])
    requires
        i + 4 <= s@.len(),
    ensures
        w@ == word_at(s@, i as int),
{
    let w = [s[i], s[i + 1], s[i + 2], s[i + 3]];
    assert(w@ =~= word_at(s@, i as int));
    w
}

fn value(s: &[u8], i: usize) -> (v: u32)
    requires
        i + 4 <= s@.len(),
    ensures
        v == value_at(s@, i as int),
{
    (s[i] as u32) * 0x100_0000 + (s[i + 1] as u32) * 0x1_0000 + (s[i + 2] as u32) * 0x100 + (s[i
        + 3] as u32)
}

impl RPC {
    /// Reads the call header of `buffer`; answers it with the parameters
    /// that follow it, or why it is refused.
    pub fn unmarshall_message(buffer: &[u8]) -> (r: Result<(RPCCall, &[u8]), &'static str>)
        ensures
            match header_error(buffer@) {
                Some(e) => r == Err::<(RPCCall, &[u8]), &'static str>(e),
                None => r matches Ok((call, params)) && {
                    &&& call.transaction_id@ == word_at(buffer@, 0)
                    &&& call.message_type@ == word_at(buffer@, 4)
                    &&& call.rpc_version@ == word_at(buffer@, 8)
                    &&& call.program == program_of(value_at(buffer@, 12))
                    &&& call.program_version@ == word_at(buffer@, 16)
                    &&& call.procedure == procedure_of(call.program, value_at(buffer@, 20))
                    &&& params@ == buffer@.subrange(60, buffer@.len() as int)
                },
            },
    {
        if buffer.len() < CALL_HEADER_LEN {
            return Err("RPC message is too short");
        }
        if value(buffer, 4) == 1 {
            return Err("Server received a reply");
        }
        if value(buffer, 8) != 2 {
            return Err("Only RPC Version 2 is supported");
        }
        let program = match value(buffer, 12) {
            100000u32 => RPCProgram::Portmap,
            100005u32 => RPCProgram::Mount,
            100003u32 => RPCProgram::NFS,
            _ => RPCProgram::Unknown,
        };
        let p = value(buffer, 20);
        let procedure = match program {
            RPCProgram::Portmap => if p == 3 {
                RPCProcedure::Getport
            } else {
                RPCProcedure::Unknown
            },
            RPCProgram::Mount => if p == 5 {
                RPCProcedure::Export
            } else if p == 1 {
                RPCProcedure::Mnt
            } else {
                RPCProcedure::Unknown
            },
            RPCProgram::NFS => if p == 4 {
                RPCProcedure::Lookup
            } else if p == 6 {
                RPCProcedure::Read
            } else if p == 1 {
                RPCProcedure::Getattr
            } else {
                RPCProcedure::Unknown
            },
            RPCProgram::Unknown => RPCProcedure::Unknown,
        };
        let call = RPCCall {
            transaction_id: word(buffer, 0),
            message_type: word(buffer, 4),
            rpc_version: word(buffer, 8),
            program,
            program_version: word(buffer, 16),
            procedure,
        };
        Ok((call, vstd::slice::slice_subrange(buffer, CALL_HEADER_LEN, buffer.len())))
    }

    /// Reads a call and sorts it by program; a portmap GETPORT call also has
    /// its parameters read (the program asked for, its version, the protocol
    /// and the port). A refused or short call is `Unknown`.
    pub fn unmarshall(buffer: &[u8]) -> (r: RPC)
        ensures
            header_error(buffer@) is Some ==> r == RPC::Unknown,
            header_error(buffer@) is None ==> match program_of(value_at(buffer@, 12)) {
                RPCProgram::Portmap => r matches RPC::Portmap(call, program) && call.program
                    == RPCProgram::Portmap && call.procedure == procedure_of(
                    RPCProgram::Portmap,
                    value_at(buffer@, 20),
                ) && (if procedure_of(RPCProgram::Portmap, value_at(buffer@, 20))
                    == RPCProcedure::Getport && buffer@.len() >= 76 {
                    program matches PortmapProgram::Getport(p) && getport_matches(p, buffer@)
                } else {
                    program == PortmapProgram::Unknown
                }),
                RPCProgram::Mount => r matches RPC::Mount(call) && call.program == RPCProgram::Mount,
                RPCProgram::NFS => r matches RPC::NFS(call) && call.program == RPCProgram::NFS,
                RPCProgram::Unknown => r == RPC::Unknown,
            },
    {
        match RPC::unmarshall_message(buffer) {
            Err(_) => RPC::Unknown,
            Ok((call, params)) => match call.program {
                RPCProgram::Portmap => {
                    if call.procedure == RPCProcedure::Getport && params.len() >= 16 {
                        let portmap = PortmapParams {
                            program: word(params, 0),
                            version: word(params, 4),
                            protocol: word(params, 8),
                            port: word(params, 12),
                        };
                        proof {
                            assert(word_at(params@, 0) =~= word_at(buffer@, 60));
                            assert(word_at(params@, 4) =~= word_at(buffer@, 64));
                            assert(word_at(params@, 8) =~= word_at(buffer@, 68));
                            assert(word_at(params@, 12) =~= word_at(buffer@, 72));
                            assert(value_at(params@, 0) == value_at(buffer@, 60));
                        }
                        let asked = value(params, 0);
                        let procedure = if asked == 100005 {
                            PortmapProcedure::Mount(portmap)
                        } else if asked == 100003 {
                            PortmapProcedure::NFS(portmap)
                        } else {
                            PortmapProcedure::Unknown
                        };
                        RPC::Portmap(call, PortmapProgram::Getport(procedure))
                    } else {
                        RPC::Portmap(call, PortmapProgram::Unknown)
                    }
                },
                RPCProgram::Mount => RPC::Mount(call),
                RPCProgram::NFS => RPC::NFS(call),
                RPCProgram::Unknown => RPC::Unknown,
            },
        }
    }
}

} // verus!
