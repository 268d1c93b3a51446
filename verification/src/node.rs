//! Per-peer replication and membership record.

use vstd::prelude::*;

use crate::Index;
use crate::NodeId;

verus! {

/// Orthogonal capability flags of a cluster member; a set, not a state
/// machine.
#[derive(Clone, Copy, PartialEq, Eq, Structural, Debug)]
pub struct Flags {
    /// The member granted this node a vote in the current term.
    pub voted_for_me: bool,
    /// The member takes part in elections and in commit majorities.
    pub voting: bool,
    /// The member's log has caught up far enough to be promoted.
    pub has_sufficient_log: bool,
    /// The member has been removed from the cluster.
    pub inactive: bool,
    /// The entry that made the member voting has been committed.
    pub voting_committed: bool,
    /// The entry that added the member has been committed.
    pub addition_committed: bool,
}

/// One cluster member as the local node tracks it: identity, capability
/// flags and the leader's replication cursors.
///
/// Well-formed records keep `match_idx < next_idx`: the next entry to send
/// always lies past the highest entry the member confirmed.
#[derive(Clone, Copy, PartialEq, Eq, Structural, Debug)]
pub struct Node {
    pub id: NodeId,
    pub flags: Flags,
    pub next_idx: Index,
    pub match_idx: Index,
}

impl Node {
    /// The replication-cursor invariant: `match_idx ≤ next_idx − 1`.
    pub open spec fn wf(self) -> bool {
        self.match_idx < self.next_idx
    }

    /// A fresh voting, active record with cursors at their initial values.
    pub fn new(id: NodeId) -> (r: Node)
        ensures
            r.id == id,
            r.flags == (Flags {
                voted_for_me: false,
                voting: true,
                has_sufficient_log: false,
                inactive: false,
                voting_committed: false,
                addition_committed: false,
            }),
            r.wf(),
            r.next_idx == 1,
            r.match_idx == 0,
    {
        Node {
            id,
            flags: Flags {
                voted_for_me: false,
                voting: true,
                has_sufficient_log: false,
                inactive: false,
                voting_committed: false,
                addition_committed: false,
            },
            next_idx: 1,
            match_idx: 0,
        }
    }

    /// Whether the member is still part of the cluster.
    pub fn is_active(&self) -> (r: bool)
        ensures
            r == !self.flags.inactive,
    {
        !self.flags.inactive
    }

    /// Whether the member takes part in elections and commit majorities.
    pub fn is_voting(&self) -> (r: bool)
        ensures
            r == self.flags.voting,
    {
        self.flags.voting
    }

    /// Index of the next entry the leader will send to this member.
    pub fn next_idx(&self) -> (r: &Index)
        ensures
            r == self.next_idx,
    {
        &self.next_idx
    }

    pub fn set_next_idx(&mut self, idx: Index)
        ensures
            *final(self) == (Node { next_idx: idx, ..*old(self) }),
    {
        self.next_idx = idx;
    }

    /// Highest entry index this member is known to have stored.
    pub fn match_idx(&self) -> (r: &Index)
        ensures
            r == self.match_idx,
    {
        &self.match_idx
    }

    pub fn set_match_idx(&mut self, idx: Index)
        ensures
            *final(self) == (Node { match_idx: idx, ..*old(self) }),
    {
        self.match_idx = idx;
    }
}

/// Whether a member counts toward election and commit majorities.
pub open spec fn counts_for_majority(n: Node) -> bool {
    n.flags.voting && !n.flags.inactive
}

} // verus!
