//! Interfaces for the point-to-point RPC operations between peers, and the
//! errors a transport can report. A concrete transport (sockets, channels)
//! lives in the embedding application; only the interface is stated here.

use vstd::prelude::*;

use crate::NodeId;

verus! {

/// The outbound half of a transport: one method per protocol message.
pub trait RpcSender {
    fn request_vote(&mut self, id: NodeId, last_log_idx: u64, last_log_term: u64) -> Result<
        (),
        RpcError,
    >;

    fn request_vote_reply(&mut self, id: NodeId, term: u64, vote_granted: bool) -> Result<
        (),
        RpcError,
    >;

    fn append_entries(
        &mut self,
        id: NodeId,
        term: u64,
        prev_log_idx: u64,
        prev_log_term: u64,
        logs: Vec<u8>,
    ) -> Result<(), RpcError>;

    fn append_entries_reply(
        &mut self,
        id: NodeId,
        prev_log_idx: u64,
        entry_count: u64,
        applied: bool,
    ) -> Result<(), RpcError>;
}

/// The inbound half of a transport: one callback per protocol message.
pub trait RpcHandler {
    fn on_request_vote(&self, id: NodeId, last_log_idx: u64, last_log_term: u64);

    fn on_request_vote_reply(&self, id: NodeId, term: u64, vote_granted: bool);

    fn on_append_entries(
        &self,
        id: NodeId,
        term: u64,
        prev_log_idx: u64,
        prev_log_term: u64,
        logs: Vec<u8>,
    );

    fn on_append_entries_reply(&self, id: NodeId, prev_log_idx: u64, entry_count: u64, applied: bool);
}

/// Error conditions of the transport layer. A failure is isolated to the
/// peer it concerns; it never halts the tick loop.
#[derive(PartialEq, Eq, Debug)]
pub enum RpcError {
    /// No endpoint is known or reachable for the peer.
    UnknownHost(NodeId),
    /// A frame failed envelope validation; the offending bytes are kept.
    InvalidMessage([u8; 8]),
    /// The underlying I/O layer failed; its description is kept.
    TransportError(String),
}

/// Checks that 8 header bytes carry a well-formed message envelope before
/// they go out on the wire; a frame that does not decode is rejected with
/// the offending bytes.
pub fn validate_message(buf: [u8; 8]) -> (r: Result<(), RpcError>)
    ensures
        crate::message::decode_spec(buf@) is Ok ==> r == Ok::<(), RpcError>(()),
        crate::message::decode_spec(buf@) is Err ==> r == Err::<(), RpcError>(
            RpcError::InvalidMessage(buf),
        ),
{
    match crate::message::Envelope::decode(&buf) {
        Ok(_) => Ok(()),
        Err(_) => Err(RpcError::InvalidMessage(buf)),
    }
}

} // verus!
