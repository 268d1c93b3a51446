//! RPC payloads exchanged between peers, and the 8-byte message envelope
//! that frames them on the wire:
//! `{ message_type: u8, flags: u8, size: u32 big-endian, reserved: 2 bytes }`.

use vstd::prelude::*;

use crate::Entry;
use crate::EntryId;
use crate::EntryView;
use crate::Index;
use crate::NodeId;
use crate::Term;

verus! {

/// Tells a client whether the entry it appended was committed.
#[derive(Clone, Copy, PartialEq, Eq, Structural, Debug)]
pub struct EntryResponse {
    pub term: Term,
    pub entry_id: EntryId,
    pub idx: Index,
}

/// A candidate's request for a vote in term `term`.
#[derive(Clone, Copy, PartialEq, Eq, Structural, Debug)]
pub struct VoteRequest {
    /// The candidate's (new) term.
    pub term: Term,
    /// The candidate asking for the vote.
    pub node_id: NodeId,
    /// Index of the candidate's last log entry.
    pub last_idx: Index,
    /// Term of the candidate's last log entry.
    pub last_term: Term,
}

/// The answer to a [`VoteRequest`].
#[derive(Clone, Copy, PartialEq, Eq, Structural, Debug)]
pub struct VoteResponse {
    /// The responder's current term, for the candidate to catch up on.
    pub term: Term,
    /// Whether the vote was granted.
    pub granted: bool,
}

/// A leader's replication (or heartbeat) message.
pub struct AppendEntriesRequest {
    /// The leader's term.
    pub term: Term,
    /// Index of the entry immediately before the ones carried.
    pub previous_idx: Index,
    /// Term of the entry at `previous_idx`.
    pub previous_term: Term,
    /// The leader's commit index.
    pub leader_commit: Index,
    /// How many entries are carried.
    pub entry_count: u8,
    /// The entries to replicate; empty for a pure heartbeat.
    pub entries: Vec<Entry>,
}

impl AppendEntriesRequest {
    /// The carried entries as their mathematical models.
    pub open spec fn entries_view(&self) -> Seq<EntryView> {
        crate::entries_model(self.entries@)
    }

    /// The count field matches the entries actually carried.
    pub open spec fn wf(&self) -> bool {
        self.entry_count as int == self.entries@.len()
    }
}

/// The answer to an [`AppendEntriesRequest`].
#[derive(Clone, Copy, PartialEq, Eq, Structural, Debug)]
pub struct AppendEntriesResponse {
    /// The responder's current term, for the leader to catch up on.
    pub term: Term,
    /// Whether the carried entries were accepted into the responder's log.
    pub committed: bool,
    /// The responder's last log index after handling the request.
    pub current_idx: Index,
    /// Index of the first entry the request carried.
    pub first_id: Index,
}

/// The kind of frame an envelope announces.
#[derive(Clone, Copy, PartialEq, Eq, Structural, Debug)]
pub enum MessageType {
    Vote,
    VoteReply,
    Append,
    AppendReply,
    Error,
}

/// The wire discriminant of each frame kind.
pub open spec fn type_byte(t: MessageType) -> u8 {
    match t {
        MessageType::Vote => 0,
        MessageType::VoteReply => 1,
        MessageType::Append => 10,
        MessageType::AppendReply => 11,
        MessageType::Error => 255,
    }
}

/// The frame kind a wire discriminant stands for, if any.
pub open spec fn type_of_byte(b: u8) -> Option<MessageType> {
    if b == 0 {
        Some(MessageType::Vote)
    } else if b == 1 {
        Some(MessageType::VoteReply)
    } else if b == 10 {
        Some(MessageType::Append)
    } else if b == 11 {
        Some(MessageType::AppendReply)
    } else if b == 255 {
        Some(MessageType::Error)
    } else {
        None
    }
}

/// A frame whose envelope carried a `message_type` byte no frame kind
/// stands for.
#[derive(Clone, Copy, PartialEq, Eq, Structural, Debug)]
pub enum DecodeError {
    InvalidMessageType(u8),
}

/// The logical message envelope: frame kind, flag bits, and the byte size
/// of the body that follows the header.
#[derive(Clone, Copy, PartialEq, Eq, Structural, Debug)]
pub struct Envelope {
    pub message_type: MessageType,
    pub flags: u8,
    pub size: u32,
}

/// The 8 header bytes an envelope encodes to: discriminant, flags, size in
/// big-endian order, and two reserved zero bytes.
pub open spec fn encode_spec(e: Envelope) -> Seq<u8> {
    seq![
        type_byte(e.message_type),
        e.flags,
        (e.size >> 24) as u8,
        (e.size >> 16) as u8,
        (e.size >> 8) as u8,
        e.size as u8,
        0u8,
        0u8,
    ]
}

/// The size field carried by header bytes `b2..b5`, big-endian.
pub open spec fn size_of_bytes(b2: u8, b3: u8, b4: u8, b5: u8) -> u32 {
    ((b2 as u32) << 24) | ((b3 as u32) << 16) | ((b4 as u32) << 8) | (b5 as u32)
}

/// The envelope 8 header bytes decode to, or the offending discriminant.
pub open spec fn decode_spec(buf: Seq<u8>) -> Result<Envelope, DecodeError>
    recommends
        buf.len() == 8,
{
    match type_of_byte(buf[0]) {
        Some(t) => Ok(
            Envelope {
                message_type: t,
                flags: buf[1],
                size: size_of_bytes(buf[2], buf[3], buf[4], buf[5]),
            },
        ),
        None => Err(DecodeError::InvalidMessageType(buf[0])),
    }
}

impl Envelope {
    /// Writes the envelope as its 8 header bytes.
    pub fn encode(&self) -> (r: [u8; 8])
        ensures
            r@ == encode_spec(*self),
    {
        let t: u8 = match self.message_type {
            MessageType::Vote => 0,
            MessageType::VoteReply => 1,
            MessageType::Append => 10,
            MessageType::AppendReply => 11,
            MessageType::Error => 255,
        };
        let r: [u8; 8] = [
            t,
            self.flags,
            (self.size >> 24) as u8,
            (self.size >> 16) as u8,
            (self.size >> 8) as u8,
            self.size as u8,
            0,
            0,
        ];
        proof {
            assert(r@ =~= encode_spec(*self));
        }
        r
    }

    /// Reads an envelope back out of 8 header bytes; an unrecognized
    /// discriminant is rejected as [`DecodeError::InvalidMessageType`].
    pub fn decode(buf: &[u8; 8]) -> (r: Result<Envelope, DecodeError>)
        ensures
            r == decode_spec(buf@),
    {
        let b0 = buf[0];
        let t: Option<MessageType> = if b0 == 0 {
            Some(MessageType::Vote)
        } else if b0 == 1 {
            Some(MessageType::VoteReply)
        } else if b0 == 10 {
            Some(MessageType::Append)
        } else if b0 == 11 {
            Some(MessageType::AppendReply)
        } else if b0 == 255 {
            Some(MessageType::Error)
        } else {
            None
        };
        match t {
            Some(message_type) => {
                let size: u32 = ((buf[2] as u32) << 24) | ((buf[3] as u32) << 16) | (
                (buf[4] as u32) << 8) | (buf[5] as u32);
                Ok(Envelope { message_type, flags: buf[1], size })
            },
            None => Err(DecodeError::InvalidMessageType(b0)),
        }
    }
}

/// Law: framing loses nothing. Decoding the bytes an envelope encodes to
/// reproduces the original `message_type`, `flags` and `size`.
pub proof fn lemma_envelope_round_trip(e: Envelope)
    ensures
        decode_spec(encode_spec(e)) == Ok::<Envelope, DecodeError>(e),
{
    let buf = encode_spec(e);
    assert(type_of_byte(buf[0]) == Some(e.message_type));
    let s = e.size;
    assert(size_of_bytes(
        (s >> 24) as u8,
        (s >> 16) as u8,
        (s >> 8) as u8,
        s as u8,
    ) == s) by (bit_vector);
}

} // verus!
