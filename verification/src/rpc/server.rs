//! The replies of the RPC servers: the portmap answer and the routing of a
//! program's calls to their handler.

use vstd::prelude::*;
use crate::rpc::packets::{
    RpcMessage, RpcMessageType, RpcReply, RpcReplyMessage, RpcAuth, RpcReplyState,
    RpcAcceptState, PortmapGetportReply,
};

verus! {

/// Why a request got no reply; a handler's failure carries its error.
#[derive(Debug, PartialEq, Eq, Clone, Copy)]
pub enum RpcServerError {
    ProgramNotImplemented,
    ReplyNotAllowed,
    IOError(&'static str),
}

/// An accepted, successful reply to transaction `xid` carrying `data`.
pub fn accepted_reply(xid: u32, data: RpcReplyMessage) -> (m: RpcMessage)
    ensures
        m.xid == xid,
        m.message == RpcMessageType::Reply(
            RpcReply {
                verifier: RpcAuth::Null,
                reply_state: RpcReplyState::Accepted,
                accept_state: RpcAcceptState::Success,
                data,
            },
        ),
{
    RpcMessage::new(
        xid,
        RpcMessageType::Reply(
            RpcReply {
                verifier: RpcAuth::Null,
                reply_state: RpcReplyState::Accepted,
                accept_state: RpcAcceptState::Success,
                data,
            },
        ),
    )
}

/// Routes a request: a reply is refused; a call is answered with what its
/// handler gave (`handled`): the reply data, a failure, or nothing when the
/// handler does not implement the procedure.
pub fn rpc_procedure_router(
    request: &RpcMessage,
    handled: Option<Result<RpcReplyMessage, &'static str>>,
) -> (r: Result<RpcMessage, RpcServerError>)
    ensures
        request.message is Reply ==> r == Err::<RpcMessage, RpcServerError>(
            RpcServerError::ReplyNotAllowed,
        ),
        request.message is Call ==> match handled {
            Some(Ok(data)) => r matches Ok(m) && m.xid == request.xid && m.message
                == RpcMessageType::Reply(
                RpcReply {
                    verifier: RpcAuth::Null,
                    reply_state: RpcReplyState::Accepted,
                    accept_state: RpcAcceptState::Success,
                    data,
                },
            ),
            Some(Err(e)) => r == Err::<RpcMessage, RpcServerError>(RpcServerError::IOError(e)),
            None => r == Err::<RpcMessage, RpcServerError>(RpcServerError::ProgramNotImplemented),
        },
{
    let transaction_id = request.xid;
    match request.message() {
        RpcMessageType::Call(_) => match handled {
            Some(Ok(reply)) => Ok(accepted_reply(transaction_id, reply)),
            Some(Err(e)) => Err(RpcServerError::IOError(e)),
            None => Err(RpcServerError::ProgramNotImplemented),
        },
        RpcMessageType::Reply(_) => Err(RpcServerError::ReplyNotAllowed),
    }
}

/// The portmap answer: the port of the socket allocated for the program.
pub fn portmap_reply(xid: u32, port: u16) -> (m: RpcMessage)
    ensures
        m.xid == xid,
        m.message == RpcMessageType::Reply(
            RpcReply {
                verifier: RpcAuth::Null,
                reply_state: RpcReplyState::Accepted,
                accept_state: RpcAcceptState::Success,
                data: RpcReplyMessage::PortmapGetport(PortmapGetportReply { port: port as u32 }),
            },
        ),
{
    accepted_reply(xid, RpcReplyMessage::PortmapGetport(PortmapGetportReply { port: port as u32 }))
}

} // verus!
