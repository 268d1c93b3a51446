//! Core state machine of the Raft consensus protocol for a single node:
//! term management, leader election, vote arbitration, log replication
//! bookkeeping, commit-index advancement and membership tracking.
//!
//! The engine itself is [`server::Server`]; it drives timing through elapsed
//! counters fed by an external tick loop, talks to peers and to durable
//! storage only through the [`server::ServerIO`] capability trait, and holds
//! one [`node::Node`] record per cluster member.

use vstd::prelude::*;

pub mod config;
pub mod message;
pub mod node;
pub mod rpc;
pub mod server;
pub mod timer;

verus! {

/// Monotonically increasing election epoch.
pub type Term = u64;

/// Stable identifier of a cluster member.
pub type NodeId = u8;

/// Position in the log. Entries are numbered from 1; an `Index` equally
/// serves as a count of entries, with 0 meaning "none".
pub type Index = usize;

/// A duration in milliseconds.
pub type Timeout = u64;

/// Client-chosen identifier of a log entry.
pub type EntryId = u8;

/// Errors returned by actions taken by a node.
#[derive(Clone, Copy, PartialEq, Eq, Structural, Debug)]
pub enum RaftErr {
    NotLeader,
    OneVotingChangeOnly,
    Shutdown,
    OutOfMemory,
    NeedsSnapshot,
    SnapshotInProgress,
    SnapshotAlreadyLoaded,
}

/// The role a node currently plays; exactly one at a time.
#[derive(Clone, Copy, PartialEq, Eq, Structural, Debug)]
pub enum State {
    /// The node is following a leader.
    Follower,
    /// The node is seeking election to become the leader.
    Candidate,
    /// Consensus has been reached that this node is the leader.
    Leader,
}

/// The kind of a log entry: a client command, or a membership change.
#[derive(Clone, Copy, PartialEq, Eq, Structural, Debug)]
pub enum LogType {
    Normal,
    AddNonvotingNode,
    AddNode,
    DemoteNode,
    RemoveNode,
}

/// Notification of a membership change, handed to the embedding application.
#[derive(Clone, Copy, PartialEq, Eq, Structural, Debug)]
pub enum MembershipEvent {
    ADD(NodeId),
    REMOVE(NodeId),
}

/// Read access to the role a value currently plays.
pub trait RaftState {
    fn get_state(&self) -> &State;
}

/// One log record.
pub struct Entry {
    pub term: Term,
    pub entry_id: EntryId,
    pub log_type: LogType,
    pub data: Vec<u8>,
}

/// Mathematical model of an [`Entry`].
pub struct EntryView {
    pub term: Term,
    pub entry_id: EntryId,
    pub log_type: LogType,
    pub data: Seq<u8>,
}

impl View for Entry {
    type V = EntryView;

    open spec fn view(&self) -> EntryView {
        EntryView {
            term: self.term,
            entry_id: self.entry_id,
            log_type: self.log_type,
            data: self.data@,
        }
    }
}

impl Clone for Entry {
    fn clone(&self) -> (r: Entry)
        ensures
            r@ == self@,
    {
        let data = self.data.clone();
        proof {
            assert(data@ =~= self.data@);
        }
        Entry { term: self.term, entry_id: self.entry_id, log_type: self.log_type, data }
    }
}

/// The mathematical model of a stretch of log entries.
pub open spec fn entries_model(l: Seq<Entry>) -> Seq<EntryView> {
    l.map_values(|e: Entry| e@)
}

impl EntryView {
    /// Whether an entry of this kind edits the membership or vote-eligibility
    /// of the cluster rather than carrying a client command.
    pub open spec fn is_voting_change(self) -> bool {
        self.log_type != LogType::Normal
    }
}

} // verus!
