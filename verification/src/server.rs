//! The consensus engine: role state machine, term and vote bookkeeping,
//! replication cursors, commit-index advancement and election timing.
//!
//! A [`Server`] owns all consensus state directly; the embedding
//! application serializes access to it (one tick, RPC arrival or timer
//! firing at a time) and supplies the [`ServerIO`] capabilities for
//! sending RPCs and for durable persistence.
//!
//! Log positions are counted from 0; `commit_idx` and `last_applied_idx`
//! are exclusive bounds (the number of committed and applied entries), so
//! the entries at positions below `commit_idx` are immutable.

#![verifier::loop_isolation(false)]

use vstd::prelude::*;

use crate::Entry;
use crate::EntryView;
use crate::Index;
use crate::LogType;
use crate::MembershipEvent;
use crate::NodeId;
use crate::RaftErr;
use crate::RaftState;
use crate::State;
use crate::Term;
use crate::Timeout;
use crate::message::AppendEntriesRequest;
use crate::message::AppendEntriesResponse;
use crate::message::VoteRequest;
use crate::message::VoteResponse;
use crate::node::Node;
use crate::node::counts_for_majority;

verus! {

/// Capabilities the engine consumes, implemented by the embedding
/// application: sending RPCs to peers, durable persistence of term and
/// vote, and best-effort notification hooks.
///
/// `persist_term` and `persist_vote` must be durable (fsync-equivalent)
/// before they return success; the engine calls them, and checks success,
/// before it mutates its in-memory term or vote.
pub trait ServerIO {
    fn send_vote_request(&mut self, node: NodeId, msg: VoteRequest) -> Result<(), RaftErr>;

    fn send_append_entries_request(&mut self, node: NodeId, msg: AppendEntriesRequest) -> Result<
        (),
        RaftErr,
    >;

    fn send_snapshot(&mut self, node: NodeId) -> Result<(), RaftErr>;

    fn node_has_sufficient_logs(&mut self, node: NodeId) -> Result<(), RaftErr>;

    fn persist_vote(&mut self, vote: NodeId) -> Result<(), RaftErr>;

    fn persist_term(&mut self, term: Term, vote: Option<NodeId>) -> Result<(), RaftErr>;

    fn entry_event(&mut self, entry: &Entry, idx: Index) -> Result<(), RaftErr>;

    fn membership_event(&mut self, membership: MembershipEvent) -> Result<(), RaftErr>;
}

/// Mathematical model of a [`Server`]: every consensus-state field, with
/// the log as a sequence of entry models. The I/O capability is not part
/// of the model.
pub struct ServerView {
    pub id: NodeId,
    pub current_term: Term,
    pub voted_for: Option<NodeId>,
    pub log: Seq<EntryView>,
    pub commit_idx: Index,
    pub last_applied_idx: Index,
    pub state: State,
    pub timeout_elapsed: Timeout,
    pub nodes: Seq<Node>,
    pub election_timeout: Timeout,
    pub election_timeout_rand: Timeout,
    pub request_timeout: Timeout,
    pub current_leader: Option<NodeId>,
    pub connected: bool,
    pub snapshot_in_progress: bool,
    pub snapshot_last_idx: Index,
    pub snapshot_last_term: Term,
    pub voting_cfg_change_log_idx: Option<Index>,
}

/// The consensus engine of one cluster member.
pub struct Server<T: ServerIO> {
    /// This node's stable identifier.
    pub id: NodeId,
    // Persistent state (mirrored durably through `ServerIO`).
    current_term: Term,
    voted_for: Option<NodeId>,
    log: Vec<Entry>,
    // Volatile state.
    commit_idx: Index,
    last_applied_idx: Index,
    state: State,
    timeout_elapsed: Timeout,
    nodes: Vec<Node>,
    election_timeout: Timeout,
    election_timeout_rand: Timeout,
    request_timeout: Timeout,
    current_leader: Option<NodeId>,
    connected: bool,
    snapshot_in_progress: bool,
    snapshot_last_idx: Index,
    snapshot_last_term: Term,
    voting_cfg_change_log_idx: Option<Index>,
    // The injected transport and persistence capability.
    io: T,
}

impl<T: ServerIO> View for Server<T> {
    type V = ServerView;

    closed spec fn view(&self) -> ServerView {
        ServerView {
            id: self.id,
            current_term: self.current_term,
            voted_for: self.voted_for,
            log: crate::entries_model(self.log@),
            commit_idx: self.commit_idx,
            last_applied_idx: self.last_applied_idx,
            state: self.state,
            timeout_elapsed: self.timeout_elapsed,
            nodes: self.nodes@,
            election_timeout: self.election_timeout,
            election_timeout_rand: self.election_timeout_rand,
            request_timeout: self.request_timeout,
            current_leader: self.current_leader,
            connected: self.connected,
            snapshot_in_progress: self.snapshot_in_progress,
            snapshot_last_idx: self.snapshot_last_idx,
            snapshot_last_term: self.snapshot_last_term,
            voting_cfg_change_log_idx: self.voting_cfg_change_log_idx,
        }
    }
}

// Laws every mutation of the engine obeys. They appear in the `ensures`
// of each public operation that touches the state, so they hold of every
// sequence of calls.

/// Law: `current_term` never decreases.
pub open spec fn term_monotone(pre: ServerView, post: ServerView) -> bool {
    post.current_term >= pre.current_term
}

/// Law: within one term, a granted vote is never replaced by a vote for a
/// different candidate.
pub open spec fn vote_stable(pre: ServerView, post: ServerView) -> bool {
    (post.current_term == pre.current_term && pre.voted_for is Some) ==> post.voted_for
        == pre.voted_for
}

/// Law: an operation that increases `current_term` leaves `voted_for`
/// unset, unless that same operation grants this node its own candidacy
/// vote.
pub open spec fn fresh_term_clears_vote(pre: ServerView, post: ServerView) -> bool {
    post.current_term > pre.current_term ==> (post.voted_for is None || post.voted_for == Some(
        post.id,
    ))
}

/// The three laws above bundled; every mutating operation ensures this.
pub open spec fn vote_safety(pre: ServerView, post: ServerView) -> bool {
    &&& term_monotone(pre, post)
    &&& vote_stable(pre, post)
    &&& fresh_term_clears_vote(pre, post)
}

/// Law: a freshly randomized election timeout lies in
/// `[election_timeout, 2 × election_timeout)`.
pub open spec fn timeout_rand_in_window(v: ServerView) -> bool {
    v.election_timeout <= v.election_timeout_rand && (v.election_timeout_rand as int) < 2 * (
    v.election_timeout as int)
}

/// What the timing fields must offer before deadlines can be randomized:
/// a nonzero election timeout whose doubling cannot overflow.
pub open spec fn timing_wf(v: ServerView) -> bool {
    1 <= v.election_timeout && 2 * (v.election_timeout as int) <= u64::MAX as int
}

/// How many members count toward election and commit majorities.
pub open spec fn num_voting(s: Seq<Node>) -> int
    decreases s.len(),
{
    if s.len() == 0 {
        0int
    } else {
        num_voting(s.drop_last()) + if counts_for_majority(s.last()) {
            1int
        } else {
            0int
        }
    }
}

/// How many members counting toward majorities granted this node a vote.
pub open spec fn num_granted(s: Seq<Node>) -> int
    decreases s.len(),
{
    if s.len() == 0 {
        0int
    } else {
        num_granted(s.drop_last()) + if counts_for_majority(s.last()) && s.last().flags.voted_for_me {
            1int
        } else {
            0int
        }
    }
}

/// The strict majority threshold over `n` voting members.
pub open spec fn majority(n: int) -> int {
    n / 2 + 1
}

/// No two registry records carry the same member id.
pub open spec fn ids_unique(s: Seq<Node>) -> bool {
    forall|i: int, j: int| 0 <= i < s.len() && 0 <= j < s.len() && i != j ==> s[i].id != s[j].id
}

/// Some registry record carries the given member id.
pub open spec fn has_member(s: Seq<Node>, id: NodeId) -> bool {
    exists|i: int| 0 <= i < s.len() && s[i].id == id
}

/// The position of the record carrying the given id; meaningful when
/// `has_member` holds and ids are unique.
pub open spec fn member_idx(s: Seq<Node>, id: NodeId) -> int {
    choose|i: int| 0 <= i < s.len() && s[i].id == id
}

/// The record carrying the given id.
pub open spec fn the_member(s: Seq<Node>, id: NodeId) -> Node {
    s[member_idx(s, id)]
}

/// Every replication cursor pair is well formed (`match_idx < next_idx`).
pub open spec fn nodes_wf(v: ServerView) -> bool {
    forall|i: int| 0 <= i < v.nodes.len() ==> (#[trigger] v.nodes[i]).wf()
}

/// The log bookkeeping invariant: applied entries are committed, committed
/// entries exist.
pub open spec fn log_wf(v: ServerView) -> bool {
    v.last_applied_idx <= v.commit_idx && v.commit_idx <= v.log.len()
}

/// This node's own registry record exists and counts toward majorities.
pub open spec fn self_counts(v: ServerView) -> bool {
    has_member(v.nodes, v.id) && counts_for_majority(the_member(v.nodes, v.id))
}

/// A membership change is pending: logged but not yet committed.
pub open spec fn pending_change(v: ServerView) -> bool {
    match v.voting_cfg_change_log_idx {
        Some(m) => m >= v.commit_idx,
        None => false,
    }
}

/// The pending-change marker after truncation from `idx`: cleared when the
/// truncated range includes it.
pub open spec fn marker_after_truncate(m: Option<Index>, idx: Index) -> Option<Index> {
    match m {
        Some(i) => if idx <= i {
            None
        } else {
            Some(i)
        },
        None => None,
    }
}

/// The term of the last log entry, 0 for an empty log.
pub open spec fn last_log_term(v: ServerView) -> Term {
    if v.log.len() > 0 {
        v.log.last().term
    } else {
        0
    }
}

/// The registry after a candidacy: every grant cleared, then this node's
/// own vote recorded on its own record.
pub open spec fn candidate_nodes(s: Seq<Node>, id: NodeId) -> Seq<Node> {
    Seq::new(
        s.len(),
        |i: int|
            Node {
                flags: crate::node::Flags { voted_for_me: s[i].id == id, ..s[i].flags },
                ..s[i]
            },
    )
}

/// The candidacy transition: term incremented, self-vote granted and
/// recorded, role Candidate, no known leader, timers restarted with a
/// fresh deadline, all other state kept.
pub open spec fn candidacy_entered(pre: ServerView, post: ServerView) -> bool {
    &&& post == (ServerView {
        current_term: (pre.current_term + 1) as u64,
        voted_for: Some(pre.id),
        state: State::Candidate,
        current_leader: None,
        timeout_elapsed: 0,
        election_timeout_rand: post.election_timeout_rand,
        nodes: candidate_nodes(pre.nodes, pre.id),
        ..pre
    })
    &&& timeout_rand_in_window(post)
}

/// The leadership transition: role Leader, elapsed time cleared, and every
/// member's cursors reset — peers optimistically to
/// `(next_idx, match_idx) = (current_idx + 1, 0)`, this node's own record
/// to fully replicated.
pub open spec fn leader_view(pre: ServerView) -> ServerView {
    ServerView {
        state: State::Leader,
        timeout_elapsed: 0,
        nodes: Seq::new(
            pre.nodes.len(),
            |i: int|
                Node {
                    next_idx: (pre.log.len() + 1) as usize,
                    match_idx: if pre.nodes[i].id == pre.id {
                        pre.log.len() as usize
                    } else {
                        0usize
                    },
                    ..pre.nodes[i]
                },
        ),
        ..pre
    }
}

/// The state right after a tick advanced the elapsed counter.
pub open spec fn ticked(pre: ServerView, msec: u64) -> ServerView {
    ServerView { timeout_elapsed: (pre.timeout_elapsed + msec) as u64, ..pre }
}

/// A one-member cluster whose sole counting member is this node, not yet
/// leading: promoted directly, no election exchange.
pub open spec fn promo_guard(t: ServerView) -> bool {
    num_voting(t.nodes) == 1 && self_counts(t) && t.state != State::Leader
}

/// A leader due to re-broadcast its authority.
pub open spec fn leader_guard(t: ServerView) -> bool {
    t.state == State::Leader && t.request_timeout <= t.timeout_elapsed
}

/// A counting non-leader in a multi-member cluster whose election deadline
/// has passed, with no snapshot under way: starts an election.
pub open spec fn election_guard(t: ServerView) -> bool {
    &&& t.state != State::Leader
    &&& t.election_timeout_rand <= t.timeout_elapsed
    &&& !t.snapshot_in_progress
    &&& num_voting(t.nodes) != 1
    &&& self_counts(t)
}

/// The tail of every tick: newly committed entries applied in index order,
/// unless a snapshot is under way.
pub open spec fn after_apply(u: ServerView) -> ServerView {
    if u.last_applied_idx < u.commit_idx && !u.snapshot_in_progress {
        ServerView { last_applied_idx: u.commit_idx, ..u }
    } else {
        u
    }
}

/// Whether a candidate's log is at least as up-to-date as ours: a later
/// last term, or the same last term and at least as long a log.
pub open spec fn candidate_log_ok(v: ServerView, req: VoteRequest) -> bool {
    ||| req.last_term > last_log_term(v)
    ||| (req.last_term == last_log_term(v) && req.last_idx >= v.log.len())
}

/// The vote arbitration rule: the request speaks of our current term, no
/// vote was granted this term to anyone else, and the candidate's log is
/// at least as up-to-date as ours.
pub open spec fn vote_grantable(v: ServerView, req: VoteRequest) -> bool {
    &&& req.term == v.current_term
    &&& (v.voted_for is None || v.voted_for == Some(req.node_id))
    &&& candidate_log_ok(v, req)
}

/// The state after an RPC carrying term `t` was taken in: a strictly
/// higher term is adopted with the vote cleared, and a non-follower steps
/// down with a fresh election deadline; anything else is kept.
pub open spec fn term_step(pre: ServerView, t: Term, u: ServerView) -> bool {
    if t > pre.current_term {
        if pre.state == State::Follower {
            u == (ServerView { current_term: t, voted_for: None, ..pre })
        } else {
            follower_entered((ServerView { current_term: t, voted_for: None, ..pre }), u)
        }
    } else {
        u == pre
    }
}

/// Leader contact taken in: the sender acknowledged as current leader and
/// the election clock restarted. Adopting a higher term steps down with a
/// fresh deadline; so does a same-term candidate yielding to the leader.
pub open spec fn append_contact(pre: ServerView, term: Term, from: NodeId, u: ServerView) -> bool {
    if term > pre.current_term {
        &&& u == (ServerView {
            current_term: term,
            voted_for: None,
            state: State::Follower,
            current_leader: Some(from),
            timeout_elapsed: 0,
            election_timeout_rand: u.election_timeout_rand,
            ..pre
        })
        &&& timeout_rand_in_window(u)
    } else if pre.state == State::Candidate {
        &&& u == (ServerView {
            state: State::Follower,
            current_leader: Some(from),
            timeout_elapsed: 0,
            election_timeout_rand: u.election_timeout_rand,
            ..pre
        })
        &&& timeout_rand_in_window(u)
    } else {
        u == (ServerView { current_leader: Some(from), timeout_elapsed: 0, ..pre })
    }
}

/// The position of the first carried entry that conflicts — same position,
/// different term — with an entry already in the log.
pub open spec fn conflict_at(log: Seq<EntryView>, prev: int, ents: Seq<EntryView>) -> Option<int>
    decreases ents.len(),
{
    if ents.len() == 0 {
        None
    } else if prev >= log.len() {
        None
    } else if log[prev].term == ents[0].term {
        conflict_at(log, prev + 1, ents.drop_first())
    } else {
        Some(prev)
    }
}

/// The log after taking in entries carried at position `prev`: entries
/// already present with matching terms are kept, a conflict truncates from
/// the conflict point, and whatever the log does not yet hold is appended.
pub open spec fn merged_log(log: Seq<EntryView>, prev: int, ents: Seq<EntryView>) -> Seq<EntryView>
    decreases ents.len(),
{
    if ents.len() == 0 {
        log
    } else if prev >= log.len() {
        log + ents
    } else if log[prev].term == ents[0].term {
        merged_log(log, prev + 1, ents.drop_first())
    } else {
        log.take(prev) + ents
    }
}

/// Whether reconciliation would only ever truncate above the commit bound.
/// A conflict at or below it signals a protocol violation upstream and the
/// frame is rejected instead.
pub open spec fn merge_safe(
    log: Seq<EntryView>,
    prev: int,
    ents: Seq<EntryView>,
    commit: Index,
) -> bool {
    match conflict_at(log, prev, ents) {
        Some(p) => p > commit,
        None => true,
    }
}

/// Whether the log holds, at the position the carried entries follow, an
/// entry of the term the leader says it wrote there.
pub open spec fn log_matches(v: ServerView, previous_idx: Index, previous_term: Term) -> bool {
    &&& previous_idx <= v.log.len()
    &&& (previous_idx > 0 ==> v.log[previous_idx - 1].term == previous_term)
}

/// The log-reconciliation half of AppendEntries handling, after leader
/// contact was taken in: what is replied, and how log, commit index and
/// pending-change marker move.
pub open spec fn append_log_step(
    u: ServerView,
    prev: Index,
    pterm: Term,
    lc: Index,
    ents: Seq<EntryView>,
    post: ServerView,
    resp: AppendEntriesResponse,
) -> bool {
    if !log_matches(u, prev, pterm) || !merge_safe(u.log, prev as int, ents, u.commit_idx) {
        &&& post == u
        &&& resp == (AppendEntriesResponse {
            term: u.current_term,
            committed: false,
            current_idx: u.log.len() as usize,
            first_id: (prev + 1) as usize,
        })
    } else {
        let ml = merged_log(u.log, prev as int, ents);
        let nc = if lc > u.commit_idx {
            vstd::math::min(lc as int, ml.len() as int)
        } else {
            u.commit_idx as int
        };
        let marker = match conflict_at(u.log, prev as int, ents) {
            Some(p) => marker_after_truncate(u.voting_cfg_change_log_idx, p as usize),
            None => u.voting_cfg_change_log_idx,
        };
        &&& post == (ServerView {
            log: ml,
            commit_idx: nc as usize,
            voting_cfg_change_log_idx: marker,
            ..u
        })
        &&& resp == (AppendEntriesResponse {
            term: u.current_term,
            committed: true,
            current_idx: ml.len() as usize,
            first_id: (prev + 1) as usize,
        })
    }
}

/// How many members counting toward majorities, other than this node
/// itself, are known to have stored at least `n` entries.
pub open spec fn num_matched(s: Seq<Node>, self_id: NodeId, n: Index) -> int
    decreases s.len(),
{
    if s.len() == 0 {
        0int
    } else {
        num_matched(s.drop_last(), self_id, n) + if counts_for_majority(s.last()) && s.last().id
            != self_id && s.last().match_idx >= n {
            1int
        } else {
            0int
        }
    }
}

/// Whether the leader may advance its commit bound to `n`: the entry just
/// below `n` was written in its own term, and counting itself, a strict
/// majority of voting members stores at least `n` entries.
pub open spec fn can_commit(v: ServerView, n: Index) -> bool {
    &&& v.commit_idx < n
    &&& n <= v.log.len()
    &&& v.log[n - 1].term == v.current_term
    &&& 1 + num_matched(v.nodes, v.id, n) >= majority(num_voting(v.nodes))
}

/// Both election-deadline fields rolled anew, everything else kept.
pub open spec fn rand_rerolled(pre: ServerView, post: ServerView) -> bool {
    &&& post == (ServerView { election_timeout_rand: post.election_timeout_rand, ..pre })
    &&& timeout_rand_in_window(post)
}

/// The follower transition: role Follower, elapsed time cleared, election
/// deadline rolled anew, everything else kept.
pub open spec fn follower_entered(pre: ServerView, post: ServerView) -> bool {
    &&& post == (ServerView {
        state: State::Follower,
        timeout_elapsed: 0,
        election_timeout_rand: post.election_timeout_rand,
        ..pre
    })
    &&& timeout_rand_in_window(post)
}

proof fn lemma_num_voting_bounds(s: Seq<Node>)
    ensures
        0 <= num_voting(s) <= s.len(),
    decreases s.len(),
{
    if s.len() > 0 {
        lemma_num_voting_bounds(s.drop_last());
    }
}

proof fn lemma_num_voting_take_step(s: Seq<Node>, i: int)
    requires
        0 <= i < s.len(),
    ensures
        num_voting(s.take(i + 1)) == num_voting(s.take(i)) + if counts_for_majority(s[i]) {
            1int
        } else {
            0int
        },
{
    assert(s.take(i + 1).drop_last() =~= s.take(i));
    assert(s.take(i + 1).last() == s[i]);
}

proof fn lemma_num_granted_take_step(s: Seq<Node>, i: int)
    requires
        0 <= i < s.len(),
    ensures
        num_granted(s.take(i + 1)) == num_granted(s.take(i)) + if counts_for_majority(s[i])
            && s[i].flags.voted_for_me {
            1int
        } else {
            0int
        },
{
    assert(s.take(i + 1).drop_last() =~= s.take(i));
    assert(s.take(i + 1).last() == s[i]);
}

proof fn lemma_num_matched_take_step(s: Seq<Node>, self_id: NodeId, n: Index, i: int)
    requires
        0 <= i < s.len(),
    ensures
        num_matched(s.take(i + 1), self_id, n) == num_matched(s.take(i), self_id, n) + if counts_for_majority(
            s[i],
        ) && s[i].id != self_id && s[i].match_idx >= n {
            1int
        } else {
            0int
        },
{
    assert(s.take(i + 1).drop_last() =~= s.take(i));
    assert(s.take(i + 1).last() == s[i]);
}

/// Relies on rand::random: draws a value from the thread-local generator;
/// nothing can be promised of the result.
pub assume_specification<T>[ rand::random::<T> ]() -> (r: T)
    where
        rand::distr::StandardUniform: rand::distr::Distribution<T>,
;

impl<T: ServerIO> Server<T> {
    /// A fresh engine around the injected I/O capability: a follower with
    /// id 1, term 0, no vote, an empty log and an empty registry, all
    /// timing at zero.
    pub fn new(io: T) -> (r: Server<T>)
        ensures
            r@ == Server::<T>::new_view(),
    {
        let r = Server {
            id: 1,
            current_term: 0,
            voted_for: None,
            log: Vec::new(),
            commit_idx: 0,
            last_applied_idx: 0,
            state: State::Follower,
            timeout_elapsed: 0,
            nodes: Vec::new(),
            election_timeout: 0,
            election_timeout_rand: 0,
            request_timeout: 0,
            current_leader: None,
            connected: false,
            snapshot_in_progress: false,
            snapshot_last_idx: 0,
            snapshot_last_term: 0,
            voting_cfg_change_log_idx: None,
            io,
        };
        proof {
            assert(r@.log =~= Seq::<EntryView>::empty());
            assert(r@.nodes =~= Seq::<Node>::empty());
        }
        r
    }

    /// Rebuilds an engine after a restart, from the durably persisted
    /// `(current_term, voted_for)` pair and the durable log — exactly the
    /// state the persistence contract keeps. Everything volatile starts
    /// over as in [`Self::new`].
    pub fn restore(io: T, term: Term, voted_for: Option<NodeId>, log: Vec<Entry>) -> (r: Server<T>)
        ensures
            r@ == (ServerView {
                current_term: term,
                voted_for,
                log: crate::entries_model(log@),
                ..Server::<T>::new_view()
            }),
    {
        let mut r = Server::new(io);
        r.current_term = term;
        r.voted_for = voted_for;
        r.log = log;
        r
    }

    /// The model of a freshly constructed engine.
    pub open spec fn new_view() -> ServerView {
        ServerView {
            id: 1,
            current_term: 0,
            voted_for: None,
            log: Seq::<EntryView>::empty(),
            commit_idx: 0,
            last_applied_idx: 0,
            state: State::Follower,
            timeout_elapsed: 0,
            nodes: Seq::<Node>::empty(),
            election_timeout: 0,
            election_timeout_rand: 0,
            request_timeout: 0,
            current_leader: None,
            connected: false,
            snapshot_in_progress: false,
            snapshot_last_idx: 0,
            snapshot_last_term: 0,
            voting_cfg_change_log_idx: None,
        }
    }

    // Pure queries.

    /// The node's current role.
    pub fn state(&self) -> (r: &State)
        ensures
            r == self@.state,
    {
        &self.state
    }

    /// Whether this node currently believes itself the leader.
    pub fn is_leader(&self) -> (r: bool)
        ensures
            r == (self@.state == State::Leader),
    {
        match self.state {
            State::Leader => true,
            _ => false,
        }
    }

    /// Whether a snapshot transfer is under way, which gates elections and
    /// entry application.
    pub fn is_snapshot_in_progress(&self) -> (r: bool)
        ensures
            r == self@.snapshot_in_progress,
    {
        self.snapshot_in_progress
    }

    /// The index where the next entry will go; equally, how many entries
    /// the log holds.
    pub fn current_idx(&self) -> (r: Index)
        ensures
            r == self@.log.len(),
    {
        self.log.len()
    }

    /// How many entries are committed: replicated on a majority and safe
    /// to apply.
    pub fn commit_idx(&self) -> (r: Index)
        ensures
            r == self@.commit_idx,
    {
        self.commit_idx
    }

    /// How many committed entries have been applied.
    pub fn last_applied_idx(&self) -> (r: Index)
        ensures
            r == self@.last_applied_idx,
    {
        self.last_applied_idx
    }

    /// The current election epoch.
    pub fn current_term(&self) -> (r: Term)
        ensures
            r == self@.current_term,
    {
        self.current_term
    }

    /// Whom this node voted for in the current term, if anyone.
    pub fn voted_for(&self) -> (r: Option<NodeId>)
        ensures
            r == self@.voted_for,
    {
        self.voted_for
    }

    /// The peer this node believes is leader, if any.
    pub fn current_leader(&self) -> (r: Option<NodeId>)
        ensures
            r == self@.current_leader,
    {
        self.current_leader
    }

    /// Milliseconds accumulated since the last timeout reset.
    pub fn timeout_elapsed(&self) -> (r: Timeout)
        ensures
            r == self@.timeout_elapsed,
    {
        self.timeout_elapsed
    }

    /// The fixed lower bound of the election timeout window.
    pub fn election_timeout(&self) -> (r: Timeout)
        ensures
            r == self@.election_timeout,
    {
        self.election_timeout
    }

    /// The randomized election deadline currently in force.
    pub fn election_timeout_rand(&self) -> (r: Timeout)
        ensures
            r == self@.election_timeout_rand,
    {
        self.election_timeout_rand
    }

    /// The log entry at position `idx`, if the log reaches that far.
    pub fn get_entry(&self, idx: Index) -> (r: Option<&Entry>)
        ensures
            idx < self@.log.len() ==> (r is Some && r->0@ == self@.log[idx as int]),
            idx >= self@.log.len() ==> r is None,
    {
        if idx < self.log.len() {
            Some(&self.log[idx])
        } else {
            None
        }
    }

    /// The registry record of the member with the given id, if present.
    pub fn node(&self, id: NodeId) -> (r: Option<&Node>)
        ensures
            match r {
                Some(n) => exists|i: int|
                    0 <= i < self@.nodes.len() && self@.nodes[i] == *n && n.id == id,
                None => forall|i: int| 0 <= i < self@.nodes.len() ==> self@.nodes[i].id != id,
            },
    {
        let mut i: usize = 0;
        while i < self.nodes.len()
            invariant
                i <= self.nodes.len(),
                forall|j: int| 0 <= j < i ==> self@.nodes[j].id != id,
            decreases self.nodes.len() - i,
        {
            if self.nodes[i].id == id {
                proof {
                    assert((i as int) < self@.nodes.len() && self@.nodes[i as int].id == id);
                }
                return Some(&self.nodes[i]);
            }
            i = i + 1;
        }
        None
    }

    /// The injected I/O capability, for inspection by the embedding
    /// application.
    pub fn io(&self) -> &T {
        &self.io
    }

    /// Sets the node's role directly, with no guard evaluated.
    pub fn set_state(&mut self, state: State)
        ensures
            final(self)@ == (ServerView { state, ..old(self)@ }),
            vote_safety(old(self)@, final(self)@),
    {
        self.state = state;
    }

    /// Sets the timing configuration and rolls a first election deadline.
    /// The election timeout must be nonzero and small enough that the
    /// deadline window `[election_timeout, 2 × election_timeout)` fits the
    /// counter.
    pub fn set_timeouts(&mut self, election: Timeout, request: Timeout)
        requires
            1 <= election,
            2 * (election as int) <= u64::MAX as int,
        ensures
            final(self)@ == (ServerView {
                election_timeout: election,
                request_timeout: request,
                election_timeout_rand: final(self)@.election_timeout_rand,
                ..old(self)@
            }),
            timeout_rand_in_window(final(self)@),
            timing_wf(final(self)@),
            vote_safety(old(self)@, final(self)@),
    {
        self.election_timeout = election;
        self.request_timeout = request;
        self.randomize_election_timeout();
    }

    /// Rolls a fresh election deadline: the fixed timeout plus a random
    /// jitter below it, the standard Raft guard against repeated split
    /// votes.
    fn randomize_election_timeout(&mut self)
        requires
            timing_wf(old(self)@),
        ensures
            rand_rerolled(old(self)@, final(self)@),
    {
        let jitter = rand::random::<u64>();
        self.election_timeout_rand = self.election_timeout + jitter % self.election_timeout;
    }

    /// Adopts a higher term: a no-op unless `term > current_term`; when it
    /// fires, the new term is durably persisted with an unset vote before
    /// the in-memory pair is touched. A persistence failure aborts the
    /// adoption and leaves the state exactly as it was.
    pub fn set_current_term(&mut self, term: Term) -> (r: Result<(), RaftErr>)
        ensures
            vote_safety(old(self)@, final(self)@),
            term <= old(self)@.current_term ==> (r is Ok && final(self)@ == old(self)@),
            term > old(self)@.current_term && r is Ok ==> final(self)@ == (ServerView {
                current_term: term,
                voted_for: None,
                ..old(self)@
            }),
            r is Err ==> final(self)@ == old(self)@,
    {
        if self.current_term < term {
            match self.io.persist_term(term, None) {
                Ok(()) => {
                    self.current_term = term;
                    self.voted_for = None;
                    Ok(())
                },
                Err(e) => Err(e),
            }
        } else {
            Ok(())
        }
    }

    /// Grants this node's vote in the current term to `node_id`, durably
    /// persisting the grant before the in-memory record. The single-grant
    /// rule is the caller's to respect: a vote already granted to a
    /// different candidate in this term must stand.
    pub fn vote(&mut self, node_id: NodeId) -> (r: Result<(), RaftErr>)
        requires
            old(self)@.voted_for is None || old(self)@.voted_for == Some(node_id),
        ensures
            vote_safety(old(self)@, final(self)@),
            r is Ok ==> final(self)@ == (ServerView { voted_for: Some(node_id), ..old(self)@ }),
            r is Err ==> final(self)@ == old(self)@,
    {
        match self.io.persist_vote(node_id) {
            Ok(()) => {
                self.voted_for = Some(node_id);
                Ok(())
            },
            Err(e) => Err(e),
        }
    }

    /// Enters the follower role: elapsed time cleared and a fresh election
    /// deadline rolled. Term and vote are untouched.
    pub fn become_follower(&mut self) -> (r: Result<(), RaftErr>)
        requires
            timing_wf(old(self)@),
        ensures
            r is Ok,
            follower_entered(old(self)@, final(self)@),
            vote_safety(old(self)@, final(self)@),
    {
        self.state = State::Follower;
        self.randomize_election_timeout();
        self.timeout_elapsed = 0;
        Ok(())
    }

    /// How many members count toward election and commit majorities.
    pub fn count_voting_members(&self) -> (r: usize)
        ensures
            r as int == num_voting(self@.nodes),
    {
        let ghost s = self@.nodes;
        let mut count: usize = 0;
        let mut i: usize = 0;
        proof {
            assert(s.take(0) =~= Seq::<Node>::empty());
        }
        while i < self.nodes.len()
            invariant
                i <= self.nodes.len(),
                s == self@.nodes,
                count as int == num_voting(s.take(i as int)),
                count <= i,
            decreases self.nodes.len() - i,
        {
            proof {
                lemma_num_voting_take_step(s, i as int);
                lemma_num_voting_bounds(s.take(i as int));
            }
            let n = &self.nodes[i];
            if n.is_voting() && n.is_active() {
                count = count + 1;
            }
            i = i + 1;
        }
        proof {
            assert(s.take(self.nodes.len() as int) =~= s);
        }
        count
    }

    /// How many members counting toward majorities granted this node a
    /// vote in the current election.
    fn count_granted_votes(&self) -> (r: usize)
        ensures
            r as int == num_granted(self@.nodes),
    {
        let ghost s = self@.nodes;
        let mut count: usize = 0;
        let mut i: usize = 0;
        proof {
            assert(s.take(0) =~= Seq::<Node>::empty());
        }
        while i < self.nodes.len()
            invariant
                i <= self.nodes.len(),
                s == self@.nodes,
                count as int == num_granted(s.take(i as int)),
                count <= i,
            decreases self.nodes.len() - i,
        {
            proof {
                lemma_num_granted_take_step(s, i as int);
            }
            let n = &self.nodes[i];
            if n.is_voting() && n.is_active() && n.flags.voted_for_me {
                count = count + 1;
            }
            i = i + 1;
        }
        proof {
            assert(s.take(self.nodes.len() as int) =~= s);
        }
        count
    }

    /// Whether the cluster has exactly one member that counts toward
    /// majorities — such a cluster always has consensus by itself.
    pub fn is_single_node(&self) -> (r: bool)
        ensures
            r == (num_voting(self@.nodes) == 1),
    {
        self.count_voting_members() == 1
    }

    /// Adds a voting, active member. A record whose id is already present
    /// is never reassigned: the call then changes nothing and reports so.
    pub fn add_node(&mut self, id: NodeId) -> (r: bool)
        ensures
            r == !has_member(old(self)@.nodes, id),
            r ==> final(self)@ == (ServerView {
                nodes: old(self)@.nodes.push(
                    Node {
                        id,
                        flags: crate::node::Flags {
                            voted_for_me: false,
                            voting: true,
                            has_sufficient_log: false,
                            inactive: false,
                            voting_committed: false,
                            addition_committed: false,
                        },
                        next_idx: 1,
                        match_idx: 0,
                    },
                ),
                ..old(self)@
            }),
            !r ==> final(self)@ == old(self)@,
            ids_unique(old(self)@.nodes) ==> ids_unique(final(self)@.nodes),
            vote_safety(old(self)@, final(self)@),
    {
        self.add_member(id, true)
    }

    /// Adds an active member that does not take part in elections or
    /// commit majorities. As with [`Self::add_node`], an id already
    /// present is left alone.
    pub fn add_non_voting_node(&mut self, id: NodeId) -> (r: bool)
        ensures
            r == !has_member(old(self)@.nodes, id),
            r ==> final(self)@ == (ServerView {
                nodes: old(self)@.nodes.push(
                    Node {
                        id,
                        flags: crate::node::Flags {
                            voted_for_me: false,
                            voting: false,
                            has_sufficient_log: false,
                            inactive: false,
                            voting_committed: false,
                            addition_committed: false,
                        },
                        next_idx: 1,
                        match_idx: 0,
                    },
                ),
                ..old(self)@
            }),
            !r ==> final(self)@ == old(self)@,
            ids_unique(old(self)@.nodes) ==> ids_unique(final(self)@.nodes),
            vote_safety(old(self)@, final(self)@),
    {
        self.add_member(id, false)
    }

    fn add_member(&mut self, id: NodeId, voting: bool) -> (r: bool)
        ensures
            r == !has_member(old(self)@.nodes, id),
            r ==> final(self)@ == (ServerView {
                nodes: old(self)@.nodes.push(
                    Node {
                        id,
                        flags: crate::node::Flags {
                            voted_for_me: false,
                            voting,
                            has_sufficient_log: false,
                            inactive: false,
                            voting_committed: false,
                            addition_committed: false,
                        },
                        next_idx: 1,
                        match_idx: 0,
                    },
                ),
                ..old(self)@
            }),
            !r ==> final(self)@ == old(self)@,
            ids_unique(old(self)@.nodes) ==> ids_unique(final(self)@.nodes),
            vote_safety(old(self)@, final(self)@),
    {
        if self.node_pos(id).is_some() {
            return false;
        }
        let mut record = Node::new(id);
        record.flags.voting = voting;
        self.nodes.push(record);
        let _ = self.io.membership_event(MembershipEvent::ADD(id));
        true
    }

    /// Marks the member with the given id inactive (removed from the
    /// cluster); its record is kept and never reused for another peer.
    /// Reports whether a record with that id existed.
    pub fn remove_node(&mut self, id: NodeId) -> (r: bool)
        ensures
            r == has_member(old(self)@.nodes, id),
            r ==> exists|i: int|
                0 <= i < old(self)@.nodes.len() && old(self)@.nodes[i].id == id && final(self)@
                    == (ServerView {
                    nodes: old(self)@.nodes.update(
                        i,
                        Node {
                            flags: crate::node::Flags {
                                inactive: true,
                                ..old(self)@.nodes[i].flags
                            },
                            ..old(self)@.nodes[i]
                        },
                    ),
                    ..old(self)@
                }),
            !r ==> final(self)@ == old(self)@,
            ids_unique(old(self)@.nodes) ==> ids_unique(final(self)@.nodes),
            vote_safety(old(self)@, final(self)@),
    {
        match self.node_pos(id) {
            Some(i) => {
                let flags = self.nodes[i].flags;
                self.nodes[i].flags = crate::node::Flags { inactive: true, ..flags };
                let _ = self.io.membership_event(MembershipEvent::REMOVE(id));
                proof {
                    assert((i as int) < old(self)@.nodes.len() && old(self)@.nodes[i as int].id
                        == id);
                }
                true
            },
            None => false,
        }
    }

    /// The position of the first registry record carrying the given id.
    fn node_pos(&self, id: NodeId) -> (r: Option<usize>)
        ensures
            match r {
                Some(i) => i < self@.nodes.len() && self@.nodes[i as int].id == id,
                None => !has_member(self@.nodes, id),
            },
    {
        let mut i: usize = 0;
        while i < self.nodes.len()
            invariant
                i <= self.nodes.len(),
                forall|j: int| 0 <= j < i ==> self@.nodes[j].id != id,
            decreases self.nodes.len() - i,
        {
            if self.nodes[i].id == id {
                return Some(i);
            }
            i = i + 1;
        }
        None
    }

    /// Whether this node's own registry record exists and counts toward
    /// majorities. Meaningful only while member ids are unique.
    fn self_member_counts(&self) -> (r: bool)
        requires
            ids_unique(self@.nodes),
        ensures
            r == self_counts(self@),
    {
        match self.node_pos(self.id) {
            Some(i) => {
                proof {
                    assert(has_member(self@.nodes, self@.id)) by {
                        assert(self@.nodes[i as int].id == self@.id);
                    }
                    let m = member_idx(self@.nodes, self@.id);
                    assert(0 <= m < self@.nodes.len() && self@.nodes[m].id == self@.id);
                    assert(m == i as int);
                }
                let n = &self.nodes[i];
                n.is_voting() && n.is_active()
            },
            None => {
                proof {
                    assert(!self_counts(self@));
                }
                false
            },
        }
    }

    /// Starts an election: enters candidacy for the next term. Fails, with
    /// nothing changed in memory, if the new term or the self-vote cannot
    /// be durably persisted.
    pub fn start_election(&mut self) -> (r: Result<(), RaftErr>)
        requires
            timing_wf(old(self)@),
            old(self)@.current_term < u64::MAX,
        ensures
            vote_safety(old(self)@, final(self)@),
            r is Ok ==> candidacy_entered(old(self)@, final(self)@),
            r is Err ==> final(self)@ == old(self)@,
    {
        self.become_candidate()
    }

    /// Enters candidacy: durably persists the incremented term and the
    /// self-vote (in that order, before any in-memory change), records the
    /// vote on its own registry record and clears every other grant,
    /// forgets the current leader, restarts the election timer with a
    /// fresh deadline, and asks every counting peer for its vote. Send
    /// failures are per-peer and ignored; a persistence failure aborts the
    /// whole transition with the state unchanged.
    pub fn become_candidate(&mut self) -> (r: Result<(), RaftErr>)
        requires
            timing_wf(old(self)@),
            old(self)@.current_term < u64::MAX,
        ensures
            vote_safety(old(self)@, final(self)@),
            r is Ok ==> candidacy_entered(old(self)@, final(self)@),
            r is Err ==> final(self)@ == old(self)@,
    {
        let new_term = self.current_term + 1;
        match self.io.persist_term(new_term, None) {
            Ok(()) => (),
            Err(e) => {
                return Err(e);
            },
        }
        let own_id = self.id;
        match self.io.persist_vote(own_id) {
            Ok(()) => (),
            Err(e) => {
                return Err(e);
            },
        }
        self.current_term = new_term;
        self.voted_for = Some(own_id);
        let ghost mid = self@;
        let mut i: usize = 0;
        while i < self.nodes.len()
            invariant
                i <= self.nodes.len(),
                self@ == (ServerView { nodes: self@.nodes, ..mid }),
                self@.nodes.len() == mid.nodes.len(),
                self@.id == mid.id,
                forall|j: int|
                    0 <= j < i ==> self@.nodes[j] == candidate_nodes(mid.nodes, mid.id)[j],
                forall|j: int| i <= j < mid.nodes.len() ==> self@.nodes[j] == mid.nodes[j],
            decreases self.nodes.len() - i,
        {
            let nid = self.nodes[i].id;
            let f = self.nodes[i].flags;
            self.nodes[i].flags = crate::node::Flags { voted_for_me: nid == own_id, ..f };
            i = i + 1;
        }
        proof {
            assert(self@.nodes =~= candidate_nodes(mid.nodes, mid.id));
        }
        self.current_leader = None;
        self.state = State::Candidate;
        self.randomize_election_timeout();
        self.timeout_elapsed = 0;
        let msg = self.build_vote_request();
        let ghost done = self@;
        let mut k: usize = 0;
        while k < self.nodes.len()
            invariant
                self@ == done,
            decreases self.nodes.len() - k,
        {
            let n = self.nodes[k];
            if n.id != own_id && n.flags.voting && !n.flags.inactive {
                let _ = self.io.send_vote_request(n.id, msg);
            }
            k = k + 1;
        }
        Ok(())
    }

    /// Builds the vote request a candidacy broadcasts: the candidate's
    /// (new) term and id, and the index and term of its last log entry for
    /// the voters' up-to-dateness check.
    fn build_vote_request(&self) -> (r: VoteRequest)
        ensures
            r.term == self@.current_term,
            r.node_id == self@.id,
            r.last_idx == self@.log.len(),
            r.last_term == last_log_term(self@),
    {
        let last_idx = self.log.len();
        let last_term = if last_idx > 0 {
            self.log[last_idx - 1].term
        } else {
            0
        };
        VoteRequest { term: self.current_term, node_id: self.id, last_idx, last_term }
    }

    /// Enters leadership: clears the elapsed counter, resets every peer's
    /// replication cursors optimistically to the end of the log, marks its
    /// own record fully replicated, and immediately broadcasts
    /// AppendEntries, which doubles as the first heartbeat.
    pub fn become_leader(&mut self) -> (r: Result<(), RaftErr>)
        requires
            old(self)@.log.len() < usize::MAX,
        ensures
            r is Ok,
            vote_safety(old(self)@, final(self)@),
            final(self)@ == leader_view(old(self)@),
    {
        self.state = State::Leader;
        self.timeout_elapsed = 0;
        let current_idx = self.log.len();
        let own_id = self.id;
        let ghost mid = self@;
        let ghost target = leader_view(old(self)@);
        let mut i: usize = 0;
        while i < self.nodes.len()
            invariant
                i <= self.nodes.len(),
                self@ == (ServerView { nodes: self@.nodes, ..mid }),
                self@.nodes.len() == mid.nodes.len(),
                target.nodes.len() == mid.nodes.len(),
                current_idx as int == mid.log.len(),
                current_idx < usize::MAX,
                own_id == mid.id,
                forall|j: int| 0 <= j < i ==> self@.nodes[j] == target.nodes[j],
                forall|j: int| i <= j < mid.nodes.len() ==> self@.nodes[j] == mid.nodes[j],
            decreases self.nodes.len() - i,
        {
            self.nodes[i].next_idx = current_idx + 1;
            self.nodes[i].match_idx = if self.nodes[i].id == own_id {
                current_idx
            } else {
                0
            };
            i = i + 1;
        }
        proof {
            assert(self@.nodes =~= target.nodes);
            assert(nodes_wf(self@));
        }
        self.broadcast_append_entries_request();
        Ok(())
    }

    /// Sends AppendEntries to every peer, tailored to its replication
    /// cursor, and clears the elapsed counter; a leader's periodic
    /// assertion of authority. Send failures are per-peer and ignored.
    pub fn broadcast_append_entries_request(&mut self)
        requires
            nodes_wf(old(self)@),
        ensures
            vote_safety(old(self)@, final(self)@),
            final(self)@ == (ServerView { timeout_elapsed: 0, ..old(self)@ }),
    {
        self.timeout_elapsed = 0;
        let ghost done = self@;
        let own_id = self.id;
        let mut i: usize = 0;
        while i < self.nodes.len()
            invariant
                self@ == done,
                nodes_wf(self@),
                own_id == self@.id,
            decreases self.nodes.len() - i,
        {
            let n = self.nodes[i];
            if n.id != own_id {
                proof {
                    assert(self@.nodes[i as int].wf());
                }
                let msg = self.build_append_msg(n.next_idx);
                let _ = self.io.send_append_entries_request(n.id, msg);
            }
            i = i + 1;
        }
    }

    /// Builds the AppendEntries message for a peer whose next expected
    /// entry is `next_idx`: the entries from there on (at most 255 per
    /// message), preceded by the index and term they must follow.
    fn build_append_msg(&self, next_idx: Index) -> (r: AppendEntriesRequest)
        requires
            1 <= next_idx,
        ensures
            r.term == self@.current_term,
            r.leader_commit == self@.commit_idx,
            r.previous_idx == vstd::math::min((next_idx - 1) as int, self@.log.len() as int),
            r.previous_term == (if r.previous_idx > 0 {
                self@.log[r.previous_idx - 1].term
            } else {
                0
            }),
            r.entries_view() == self@.log.subrange(
                r.previous_idx as int,
                r.previous_idx + vstd::math::min(self@.log.len() - r.previous_idx, 255),
            ),
            r.wf(),
    {
        let len = self.log.len();
        let start = if next_idx - 1 <= len {
            next_idx - 1
        } else {
            len
        };
        let previous_term = if start > 0 {
            self.log[start - 1].term
        } else {
            0
        };
        let count = if len - start <= 255 {
            len - start
        } else {
            255
        };
        let mut entries: Vec<Entry> = Vec::new();
        proof {
            assert(crate::entries_model(entries@) =~= self@.log.subrange(
                start as int,
                start as int,
            ));
        }
        let mut k: usize = 0;
        while k < count
            invariant
                k <= count,
                count as int <= self@.log.len() - start,
                start + count <= self@.log.len(),
                crate::entries_model(entries@) =~= self@.log.subrange(
                    start as int,
                    start + k,
                ),
            decreases count - k,
        {
            entries.push(self.log[start + k].clone());
            proof {
                assert(crate::entries_model(entries@) =~= self@.log.subrange(
                    start as int,
                    start + k + 1,
                ));
            }
            k = k + 1;
        }
        AppendEntriesRequest {
            term: self.current_term,
            previous_idx: start,
            previous_term,
            leader_commit: self.commit_idx,
            entry_count: count as u8,
            entries,
        }
    }

    /// Advances time and drives every guard of the tick, in order: the
    /// one-member promotion, the leader's periodic broadcast, the election
    /// start, and the application of newly committed entries. A
    /// persistence failure while starting an election is returned with the
    /// transition rolled back; everything else succeeds.
    pub fn heartbeat(&mut self, msec_since_last_heartbeat: u64) -> (r: Result<(), RaftErr>)
        requires
            timing_wf(old(self)@),
            ids_unique(old(self)@.nodes),
            nodes_wf(old(self)@),
            log_wf(old(self)@),
            old(self)@.timeout_elapsed + msec_since_last_heartbeat <= u64::MAX,
            old(self)@.current_term < u64::MAX,
            old(self)@.log.len() < usize::MAX,
        ensures
            vote_safety(old(self)@, final(self)@),
            ({
                let t = ticked(old(self)@, msec_since_last_heartbeat);
                &&& (promo_guard(t) ==> r is Ok && final(self)@ == after_apply(leader_view(t)))
                &&& (!promo_guard(t) && leader_guard(t) ==> r is Ok && final(self)@ == after_apply(
                    (ServerView { timeout_elapsed: 0, ..t }),
                ))
                &&& (!promo_guard(t) && !leader_guard(t) && election_guard(t) ==> {
                    &&& (r is Ok ==> exists|u: ServerView|
                        #[trigger] candidacy_entered(t, u) && final(self)@ == after_apply(u))
                    &&& (r is Err ==> final(self)@ == t)
                })
                &&& (!promo_guard(t) && !leader_guard(t) && !election_guard(t) ==> r is Ok
                    && final(self)@ == after_apply(t))
            }),
    {
        self.timeout_elapsed = self.timeout_elapsed + msec_since_last_heartbeat;
        let ghost t = self@;
        let single = self.is_single_node();
        let me_counts = self.self_member_counts();
        if single && me_counts && !self.is_leader() {
            let _ = self.become_leader();
        } else if self.is_leader() {
            if self.request_timeout <= self.timeout_elapsed {
                self.broadcast_append_entries_request();
            }
        } else if self.election_timeout_rand <= self.timeout_elapsed
            && !self.is_snapshot_in_progress() {
            if !single && me_counts {
                match self.start_election() {
                    Ok(()) => {
                        proof {
                            assert(candidacy_entered(t, self@));
                        }
                    },
                    Err(e) => {
                        return Err(e);
                    },
                }
            }
        }
        let ghost u = self@;
        if self.last_applied_idx < self.commit_idx && !self.is_snapshot_in_progress() {
            match self.apply_all() {
                Ok(()) => (),
                Err(e) => {
                    return Err(e);
                },
            }
        }
        proof {
            assert(self@ == after_apply(u));
        }
        Ok(())
    }

    /// Applies every committed, not yet applied entry in index order: each
    /// is handed to the `entry_event` hook (best-effort; a hook failure is
    /// not fatal) and counted applied exactly once.
    pub fn apply_all(&mut self) -> (r: Result<(), RaftErr>)
        requires
            old(self)@.commit_idx <= old(self)@.log.len(),
        ensures
            r is Ok,
            vote_safety(old(self)@, final(self)@),
            final(self)@ == (ServerView {
                last_applied_idx: if old(self)@.last_applied_idx <= old(self)@.commit_idx {
                    old(self)@.commit_idx
                } else {
                    old(self)@.last_applied_idx
                },
                ..old(self)@
            }),
    {
        let ghost start = self@;
        while self.last_applied_idx < self.commit_idx
            invariant
                self@ == (ServerView { last_applied_idx: self@.last_applied_idx, ..start }),
                self@.commit_idx <= self@.log.len(),
                self@.last_applied_idx >= start.last_applied_idx,
                self@.last_applied_idx <= start.commit_idx || self@.last_applied_idx
                    == start.last_applied_idx,
            decreases self@.commit_idx - self@.last_applied_idx,
        {
            let idx = self.last_applied_idx;
            let _ = self.io.entry_event(&self.log[idx], idx);
            self.last_applied_idx = idx + 1;
        }
        Ok(())
    }

    /// Appends one entry under the leader's own term. Refused with
    /// `NotLeader` on any other role, and with `OneVotingChangeOnly` for a
    /// membership change while another is still uncommitted; an accepted
    /// membership change becomes the pending one.
    pub fn append_entry(&mut self, entry: Entry) -> (r: Result<Index, RaftErr>)
        requires
            old(self)@.log.len() < usize::MAX,
        ensures
            vote_safety(old(self)@, final(self)@),
            old(self)@.state != State::Leader ==> r == Err::<Index, RaftErr>(RaftErr::NotLeader)
                && final(self)@ == old(self)@,
            old(self)@.state == State::Leader && entry@.is_voting_change() && pending_change(
                old(self)@,
            ) ==> r == Err::<Index, RaftErr>(RaftErr::OneVotingChangeOnly) && final(self)@ == old(
                self,
            )@,
            old(self)@.state == State::Leader && !(entry@.is_voting_change() && pending_change(
                old(self)@,
            )) ==> r == Ok::<Index, RaftErr>(old(self)@.log.len() as usize) && final(self)@
                == (ServerView {
                log: old(self)@.log.push(
                    EntryView { term: old(self)@.current_term, ..entry@ },
                ),
                voting_cfg_change_log_idx: if entry@.is_voting_change() {
                    Some(old(self)@.log.len() as usize)
                } else {
                    old(self)@.voting_cfg_change_log_idx
                },
                ..old(self)@
            }),
    {
        if !self.is_leader() {
            return Err(RaftErr::NotLeader);
        }
        let is_change = match entry.log_type {
            LogType::Normal => false,
            _ => true,
        };
        if is_change {
            let pending = match self.voting_cfg_change_log_idx {
                Some(m) => m >= self.commit_idx,
                None => false,
            };
            if pending {
                return Err(RaftErr::OneVotingChangeOnly);
            }
        }
        let idx = self.log.len();
        let mut e = entry;
        e.term = self.current_term;
        self.log.push(e);
        if is_change {
            self.voting_cfg_change_log_idx = Some(idx);
        }
        proof {
            assert(self@.log =~= old(self)@.log.push(
                EntryView { term: old(self)@.current_term, ..entry@ },
            ));
        }
        Ok(idx)
    }

    /// Truncates the log from position `idx` to the end, leaving exactly
    /// `idx` entries, and returns the first removed entry. Committed
    /// entries are never rewritten: a truncation at or below the commit
    /// index is excluded outright. A pending membership change lying in
    /// the removed range is cleared.
    pub fn delete_entry_from_idx(&mut self, idx: Index) -> (r: Entry)
        requires
            old(self)@.commit_idx < idx,
            idx < old(self)@.log.len(),
        ensures
            vote_safety(old(self)@, final(self)@),
            r@ == old(self)@.log[idx as int],
            final(self)@ == (ServerView {
                log: old(self)@.log.take(idx as int),
                voting_cfg_change_log_idx: marker_after_truncate(
                    old(self)@.voting_cfg_change_log_idx,
                    idx,
                ),
                ..old(self)@
            }),
    {
        match self.voting_cfg_change_log_idx {
            Some(i) => if idx <= i {
                self.voting_cfg_change_log_idx = None;
            },
            None => (),
        }
        let e = self.log[idx].clone();
        self.log.truncate(idx);
        proof {
            assert(self@.log =~= old(self)@.log.take(idx as int));
        }
        e
    }

    /// Arbitrates a candidate's vote request. A strictly higher term is
    /// adopted first (durably, stepping down if not a follower); the vote
    /// is granted exactly by the single-grant rule and the up-to-dateness
    /// check, and durably persisted before being honored. On a persistence
    /// failure nothing in memory has changed.
    ///
    /// When a higher-term request is granted, the term increase and the
    /// grant to the requester land in one operation: the one arrival at
    /// which a fresh term leaves `voted_for` set to a peer.
    pub fn recv_vote_request(&mut self, req: VoteRequest) -> (r: Result<VoteResponse, RaftErr>)
        requires
            timing_wf(old(self)@),
        ensures
            term_monotone(old(self)@, final(self)@),
            vote_stable(old(self)@, final(self)@),
            final(self)@.current_term > old(self)@.current_term ==> (final(self)@.voted_for is None
                || final(self)@.voted_for == Some(req.node_id)),
            r is Err ==> final(self)@ == old(self)@,
            req.term < old(self)@.current_term || (req.term == old(self)@.current_term
                && !vote_grantable(old(self)@, req)) ==> r is Ok,
            r matches Ok(resp) ==> exists|u: ServerView|
                {
                    &&& #[trigger] term_step(old(self)@, req.term, u)
                    &&& resp.term == u.current_term
                    &&& resp.granted == vote_grantable(u, req)
                    &&& (vote_grantable(u, req) ==> final(self)@ == (ServerView {
                        voted_for: Some(req.node_id),
                        ..u
                    }))
                    &&& (!vote_grantable(u, req) ==> final(self)@ == u)
                },
    {
        let higher = req.term > self.current_term;
        if higher {
            match self.io.persist_term(req.term, None) {
                Ok(()) => (),
                Err(e) => {
                    return Err(e);
                },
            }
        }
        let term_after = if higher {
            req.term
        } else {
            self.current_term
        };
        let vote_after: Option<NodeId> = if higher {
            None
        } else {
            self.voted_for
        };
        let len = self.log.len();
        let my_last_term = if len > 0 {
            self.log[len - 1].term
        } else {
            0
        };
        let log_ok = req.last_term > my_last_term || (req.last_term == my_last_term && req.last_idx
            >= len);
        let vote_free = match vote_after {
            None => true,
            Some(v) => v == req.node_id,
        };
        let granted = req.term == term_after && vote_free && log_ok;
        if granted {
            match self.io.persist_vote(req.node_id) {
                Ok(()) => (),
                Err(e) => {
                    return Err(e);
                },
            }
        }
        if higher {
            self.current_term = req.term;
            self.voted_for = None;
            match self.state {
                State::Follower => (),
                _ => {
                    self.state = State::Follower;
                    self.randomize_election_timeout();
                    self.timeout_elapsed = 0;
                },
            }
        }
        let ghost u = self@;
        proof {
            assert(term_step(old(self)@, req.term, u));
            assert(vote_grantable(u, req) == granted);
        }
        if granted {
            self.voted_for = Some(req.node_id);
        }
        Ok(VoteResponse { term: self.current_term, granted })
    }

    /// Takes in a peer's answer to our vote request. A strictly higher
    /// term is adopted (durably) and this node steps down. A grant for the
    /// current candidacy is recorded on the peer's registry record; once
    /// the grants reach a strict majority of the voting members, this node
    /// becomes leader.
    pub fn recv_vote_response(&mut self, from: NodeId, resp: VoteResponse) -> (r: Result<
        (),
        RaftErr,
    >)
        requires
            timing_wf(old(self)@),
            ids_unique(old(self)@.nodes),
            old(self)@.log.len() < usize::MAX,
        ensures
            vote_safety(old(self)@, final(self)@),
            r is Err ==> final(self)@ == old(self)@,
            resp.term > old(self)@.current_term && r is Ok ==> term_step(
                old(self)@,
                resp.term,
                final(self)@,
            ),
            resp.term <= old(self)@.current_term ==> r is Ok && ({
                if old(self)@.state == State::Candidate && resp.term == old(self)@.current_term
                    && resp.granted && has_member(old(self)@.nodes, from) {
                    let i = member_idx(old(self)@.nodes, from);
                    let marked = ServerView {
                        nodes: old(self)@.nodes.update(
                            i,
                            Node {
                                flags: crate::node::Flags {
                                    voted_for_me: true,
                                    ..old(self)@.nodes[i].flags
                                },
                                ..old(self)@.nodes[i]
                            },
                        ),
                        ..old(self)@
                    };
                    if num_granted(marked.nodes) >= majority(num_voting(marked.nodes)) {
                        final(self)@ == leader_view(marked)
                    } else {
                        final(self)@ == marked
                    }
                } else {
                    final(self)@ == old(self)@
                }
            }),
    {
        if resp.term > self.current_term {
            match self.io.persist_term(resp.term, None) {
                Ok(()) => (),
                Err(e) => {
                    return Err(e);
                },
            }
            self.current_term = resp.term;
            self.voted_for = None;
            match self.state {
                State::Follower => (),
                _ => {
                    self.state = State::Follower;
                    self.randomize_election_timeout();
                    self.timeout_elapsed = 0;
                },
            }
            return Ok(());
        }
        let is_candidate = match self.state {
            State::Candidate => true,
            _ => false,
        };
        if is_candidate && resp.term == self.current_term && resp.granted {
            match self.node_pos(from) {
                Some(i) => {
                    proof {
                        assert(has_member(self@.nodes, from)) by {
                            assert(self@.nodes[i as int].id == from);
                        }
                        let m = member_idx(self@.nodes, from);
                        assert(0 <= m < self@.nodes.len() && self@.nodes[m].id == from);
                        assert(m == i as int);
                    }
                    let f = self.nodes[i].flags;
                    self.nodes[i].flags = crate::node::Flags { voted_for_me: true, ..f };
                    proof {
                        assert(self@.nodes =~= old(self)@.nodes.update(
                            i as int,
                            Node {
                                flags: crate::node::Flags {
                                    voted_for_me: true,
                                    ..old(self)@.nodes[i as int].flags
                                },
                                ..old(self)@.nodes[i as int]
                            },
                        ));
                    }
                    let votes = self.count_granted_votes();
                    let voting = self.count_voting_members();
                    if votes >= voting / 2 + 1 {
                        let _ = self.become_leader();
                    }
                },
                None => (),
            }
        }
        Ok(())
    }

    /// Takes in a leader's AppendEntries request: a stale term is refused
    /// outright; otherwise the sender is acknowledged as leader (adopting
    /// a strictly higher term durably first, and stepping down from
    /// candidacy), the carried entries are reconciled into the log —
    /// keeping what matches, truncating from a conflict, appending the
    /// rest — and the commit bound follows the leader's. On a persistence
    /// failure nothing in memory has changed.
    #[verifier::rlimit(60)]
    pub fn recv_append_entries_request(&mut self, from: NodeId, req: AppendEntriesRequest) -> (r:
        Result<AppendEntriesResponse, RaftErr>)
        requires
            timing_wf(old(self)@),
            log_wf(old(self)@),
            req.previous_idx + req.entries@.len() < usize::MAX,
        ensures
            vote_safety(old(self)@, final(self)@),
            r is Err ==> final(self)@ == old(self)@,
            req.term < old(self)@.current_term ==> final(self)@ == old(self)@ && r == Ok::<
                AppendEntriesResponse,
                RaftErr,
            >(
                AppendEntriesResponse {
                    term: old(self)@.current_term,
                    committed: false,
                    current_idx: old(self)@.log.len() as usize,
                    first_id: (req.previous_idx + 1) as usize,
                },
            ),
            req.term == old(self)@.current_term && old(self)@.state == State::Leader
                ==> final(self)@ == old(self)@ && r == Ok::<AppendEntriesResponse, RaftErr>(
                AppendEntriesResponse {
                    term: old(self)@.current_term,
                    committed: false,
                    current_idx: old(self)@.log.len() as usize,
                    first_id: (req.previous_idx + 1) as usize,
                },
            ),
            req.term == old(self)@.current_term && old(self)@.state != State::Leader ==> r is Ok,
            req.term >= old(self)@.current_term
                && !(req.term == old(self)@.current_term && old(self)@.state == State::Leader)
                && r is Ok ==> exists|u: ServerView|
                #[trigger] append_contact(old(self)@, req.term, from, u) && append_log_step(
                    u,
                    req.previous_idx,
                    req.previous_term,
                    req.leader_commit,
                    req.entries_view(),
                    final(self)@,
                    r->Ok_0,
                ),
    {
        if req.term < self.current_term {
            return Ok(
                AppendEntriesResponse {
                    term: self.current_term,
                    committed: false,
                    current_idx: self.log.len(),
                    first_id: req.previous_idx + 1,
                },
            );
        }
        if req.term == self.current_term && self.is_leader() {
            return Ok(
                AppendEntriesResponse {
                    term: self.current_term,
                    committed: false,
                    current_idx: self.log.len(),
                    first_id: req.previous_idx + 1,
                },
            );
        }
        if req.term > self.current_term {
            match self.io.persist_term(req.term, None) {
                Ok(()) => (),
                Err(e) => {
                    return Err(e);
                },
            }
            self.current_term = req.term;
            self.voted_for = None;
            self.state = State::Follower;
            self.randomize_election_timeout();
            self.timeout_elapsed = 0;
        } else {
            match self.state {
                State::Candidate => {
                    self.state = State::Follower;
                    self.randomize_election_timeout();
                    self.timeout_elapsed = 0;
                },
                _ => {
                    self.timeout_elapsed = 0;
                },
            }
        }
        self.current_leader = Some(from);
        let ghost u = self@;
        proof {
            assert(append_contact(old(self)@, req.term, from, u));
        }
        let prev = req.previous_idx;
        if prev > self.log.len() {
            return Ok(
                AppendEntriesResponse {
                    term: self.current_term,
                    committed: false,
                    current_idx: self.log.len(),
                    first_id: prev + 1,
                },
            );
        }
        if prev > 0 {
            if self.log[prev - 1].term != req.previous_term {
                return Ok(
                    AppendEntriesResponse {
                        term: self.current_term,
                        committed: false,
                        current_idx: self.log.len(),
                        first_id: prev + 1,
                    },
                );
            }
        }
        let ghost ents = req.entries_view();
        let mut k: usize = 0;
        proof {
            assert(ents.skip(0) =~= ents);
        }
        while k < req.entries.len() && prev + k < self.log.len()
            invariant
                k <= ents.len(),
                self@ == u,
                prev + k <= self@.log.len(),
                conflict_at(u.log, prev as int, ents) == conflict_at(
                    u.log,
                    prev + k,
                    ents.skip(k as int),
                ),
                merged_log(u.log, prev as int, ents) == merged_log(
                    u.log,
                    prev + k,
                    ents.skip(k as int),
                ),
            decreases ents.len() - k,
        {
            if self.log[prev + k].term != req.entries[k].term {
                break ;
            }
            proof {
                assert(ents.skip(k as int)[0] == ents[k as int]);
                assert(ents.skip(k as int).drop_first() =~= ents.skip(k as int + 1));
            }
            k = k + 1;
        }
        let conflicted = k < req.entries.len() && prev + k < self.log.len();
        if conflicted {
            let pos = prev + k;
            proof {
                assert(ents.skip(k as int)[0] == ents[k as int]);
                assert(conflict_at(u.log, prev as int, ents) == Some(pos as int));
            }
            if pos <= self.commit_idx {
                return Ok(
                    AppendEntriesResponse {
                        term: self.current_term,
                        committed: false,
                        current_idx: self.log.len(),
                        first_id: prev + 1,
                    },
                );
            }
            let _removed = self.delete_entry_from_idx(pos);
            proof {
                assert(ents.skip(k as int).drop_first() =~= ents.skip(k as int + 1));
                assert(merged_log(u.log, prev + k, ents.skip(k as int)) == u.log.take(
                    pos as int,
                ) + ents.skip(k as int));
            }
        } else {
            proof {
                assert(conflict_at(u.log, prev as int, ents) is None);
            }
        }
        let ghost u2 = self@;
        let ghost ml = merged_log(u.log, prev as int, ents);
        proof {
            if conflicted {
                assert(ml =~= self@.log + ents.skip(k as int));
            } else if k < ents.len() {
                assert(prev + k == self@.log.len());
                assert(ml == self@.log + ents.skip(k as int));
            } else {
                assert(ents.skip(k as int) =~= Seq::<EntryView>::empty());
                assert(ml == self@.log);
                assert(ml =~= self@.log + ents.skip(k as int));
            }
        }
        while k < req.entries.len()
            invariant
                k <= ents.len(),
                self@ == (ServerView { log: self@.log, ..u2 }),
                ml =~= self@.log + ents.skip(k as int),
            decreases ents.len() - k,
        {
            let ghost lpre = self@.log;
            self.log.push(req.entries[k].clone());
            proof {
                assert(self@.log =~= lpre.push(ents[k as int]));
                assert(ml =~= self@.log + ents.skip(k as int + 1));
            }
            k = k + 1;
        }
        proof {
            assert(ents.skip(k as int) =~= Seq::<EntryView>::empty());
            assert(self@.log =~= ml);
        }
        if req.leader_commit > self.commit_idx {
            let len2 = self.log.len();
            let nc = if req.leader_commit <= len2 {
                req.leader_commit
            } else {
                len2
            };
            self.commit_idx = nc;
        }
        Ok(
            AppendEntriesResponse {
                term: self.current_term,
                committed: true,
                current_idx: self.log.len(),
                first_id: prev + 1,
            },
        )
    }

    /// Takes in a follower's answer to our AppendEntries. A strictly
    /// higher term is adopted (durably) and this node steps down. For a
    /// current-term answer while leading: success moves the peer's cursors
    /// up to what it confirmed and advances the commit bound as far as a
    /// majority of voting members has stored entries of this term; a
    /// refusal backs the peer's cursor off by one, to retry earlier
    /// entries on a later tick.
    pub fn recv_append_entries_response(&mut self, from: NodeId, resp: AppendEntriesResponse) -> (r:
        Result<(), RaftErr>)
        requires
            timing_wf(old(self)@),
            ids_unique(old(self)@.nodes),
            log_wf(old(self)@),
            old(self)@.log.len() < usize::MAX,
        ensures
            vote_safety(old(self)@, final(self)@),
            r is Err ==> final(self)@ == old(self)@,
            resp.term > old(self)@.current_term && r is Ok ==> term_step(
                old(self)@,
                resp.term,
                final(self)@,
            ),
            resp.term <= old(self)@.current_term ==> r is Ok && ({
                if old(self)@.state == State::Leader && resp.term == old(self)@.current_term
                    && has_member(old(self)@.nodes, from) {
                    let i = member_idx(old(self)@.nodes, from);
                    if resp.committed {
                        let m = vstd::math::min(
                            resp.current_idx as int,
                            old(self)@.log.len() as int,
                        );
                        let u2 = ServerView {
                            nodes: old(self)@.nodes.update(
                                i,
                                Node {
                                    match_idx: m as usize,
                                    next_idx: (m + 1) as usize,
                                    ..old(self)@.nodes[i]
                                },
                            ),
                            ..old(self)@
                        };
                        if exists|n: Index| can_commit(u2, n) {
                            &&& can_commit(u2, final(self)@.commit_idx)
                            &&& final(self)@ == (ServerView {
                                commit_idx: final(self)@.commit_idx,
                                ..u2
                            })
                            &&& forall|n: Index|
                                n > final(self)@.commit_idx ==> !can_commit(u2, n)
                        } else {
                            final(self)@ == u2
                        }
                    } else {
                        final(self)@ == (ServerView {
                            nodes: old(self)@.nodes.update(
                                i,
                                Node {
                                    next_idx: if old(self)@.nodes[i].next_idx > 1 {
                                        (old(self)@.nodes[i].next_idx - 1) as usize
                                    } else {
                                        1usize
                                    },
                                    ..old(self)@.nodes[i]
                                },
                            ),
                            ..old(self)@
                        })
                    }
                } else {
                    final(self)@ == old(self)@
                }
            }),
    {
        if resp.term > self.current_term {
            match self.io.persist_term(resp.term, None) {
                Ok(()) => (),
                Err(e) => {
                    return Err(e);
                },
            }
            self.current_term = resp.term;
            self.voted_for = None;
            match self.state {
                State::Follower => (),
                _ => {
                    self.state = State::Follower;
                    self.randomize_election_timeout();
                    self.timeout_elapsed = 0;
                },
            }
            return Ok(());
        }
        if !self.is_leader() {
            return Ok(());
        }
        if resp.term < self.current_term {
            return Ok(());
        }
        match self.node_pos(from) {
            Some(i) => {
                proof {
                    assert(has_member(self@.nodes, from)) by {
                        assert(self@.nodes[i as int].id == from);
                    }
                    let m = member_idx(self@.nodes, from);
                    assert(0 <= m < self@.nodes.len() && self@.nodes[m].id == from);
                    assert(m == i as int);
                }
                if resp.committed {
                    let len = self.log.len();
                    let m = if resp.current_idx <= len {
                        resp.current_idx
                    } else {
                        len
                    };
                    self.nodes[i].match_idx = m;
                    self.nodes[i].next_idx = m + 1;
                    proof {
                        assert(self@.nodes =~= old(self)@.nodes.update(
                            i as int,
                            Node {
                                match_idx: m,
                                next_idx: (m + 1) as usize,
                                ..old(self)@.nodes[i as int]
                            },
                        ));
                    }
                    self.advance_commit();
                } else {
                    let next = self.nodes[i].next_idx;
                    self.nodes[i].next_idx = if next > 1 {
                        next - 1
                    } else {
                        1
                    };
                    proof {
                        assert(self@.nodes =~= old(self)@.nodes.update(
                            i as int,
                            Node {
                                next_idx: if old(self)@.nodes[i as int].next_idx > 1 {
                                    (old(self)@.nodes[i as int].next_idx - 1) as usize
                                } else {
                                    1usize
                                },
                                ..old(self)@.nodes[i as int]
                            },
                        ));
                    }
                }
                Ok(())
            },
            None => Ok(()),
        }
    }

    /// How many members counting toward majorities, other than this node,
    /// are known to have stored at least `n` entries.
    fn count_matched(&self, n: Index) -> (r: usize)
        ensures
            r as int == num_matched(self@.nodes, self@.id, n),
    {
        let ghost s = self@.nodes;
        let mut count: usize = 0;
        let mut i: usize = 0;
        proof {
            assert(s.take(0) =~= Seq::<Node>::empty());
        }
        while i < self.nodes.len()
            invariant
                i <= self.nodes.len(),
                count as int == num_matched(s.take(i as int), self@.id, n),
                count <= i,
            decreases self.nodes.len() - i,
        {
            proof {
                lemma_num_matched_take_step(s, self@.id, n, i as int);
            }
            let rec = self.nodes[i];
            if rec.flags.voting && !rec.flags.inactive && rec.id != self.id && rec.match_idx >= n {
                count = count + 1;
            }
            i = i + 1;
        }
        proof {
            assert(s.take(self.nodes.len() as int) =~= s);
        }
        count
    }

    /// Moves the commit bound up to the highest index a strict majority of
    /// voting members (this node included) is known to store, among
    /// entries written in the current term; a no-op when there is none.
    fn advance_commit(&mut self)
        requires
            log_wf(old(self)@),
        ensures
            vote_safety(old(self)@, final(self)@),
            (exists|n: Index| can_commit(old(self)@, n)) ==> can_commit(
                old(self)@,
                final(self)@.commit_idx,
            ) && final(self)@ == (ServerView {
                commit_idx: final(self)@.commit_idx,
                ..old(self)@
            }) && (forall|n: Index| n > final(self)@.commit_idx ==> !can_commit(old(self)@, n)),
            !(exists|n: Index| can_commit(old(self)@, n)) ==> final(self)@ == old(self)@,
    {
        let mut target = self.log.len();
        while target > self.commit_idx
            invariant
                self@ == old(self)@,
                target <= self@.log.len(),
                forall|n: Index| n > target ==> !can_commit(old(self)@, n),
            decreases target,
        {
            let matched = self.count_matched(target);
            let voting = self.count_voting_members();
            if self.log[target - 1].term == self.current_term && matched >= voting / 2 {
                proof {
                    assert(can_commit(old(self)@, target));
                }
                self.commit_idx = target;
                return ;
            }
            proof {
                assert(!can_commit(old(self)@, target));
            }
            target = target - 1;
        }
        proof {
            assert(forall|n: Index| #[trigger] can_commit(old(self)@, n) ==> n > target);
            assert(!(exists|n: Index| can_commit(old(self)@, n)));
        }
    }
}

/// Law: a cluster with exactly one counting member — this node — is taken
/// straight to leadership by the tick that observes it, with no election
/// exchange: the promotion path of [`Server::heartbeat`] ends in the
/// leader role.
pub proof fn lemma_single_member_tick_promotes(pre: ServerView, msec: u64)
    requires
        promo_guard(ticked(pre, msec)),
    ensures
        after_apply(leader_view(ticked(pre, msec))).state == State::Leader,
{
}

impl<T: ServerIO> RaftState for Server<T> {
    fn get_state(&self) -> &State {
        &self.state
    }
}

/// A transport and persistence capability that does nothing and always
/// succeeds, for embedding the engine where no real cluster is attached.
pub struct NoopIO {}

impl NoopIO {
    pub fn new() -> (r: NoopIO) {
        NoopIO {  }
    }
}

impl ServerIO for NoopIO {
    fn send_vote_request(&mut self, node: NodeId, msg: VoteRequest) -> Result<(), RaftErr> {
        Ok(())
    }

    fn send_append_entries_request(&mut self, node: NodeId, msg: AppendEntriesRequest) -> Result<
        (),
        RaftErr,
    > {
        Ok(())
    }

    fn send_snapshot(&mut self, node: NodeId) -> Result<(), RaftErr> {
        Ok(())
    }

    fn node_has_sufficient_logs(&mut self, node: NodeId) -> Result<(), RaftErr> {
        Ok(())
    }

    fn persist_vote(&mut self, vote: NodeId) -> Result<(), RaftErr> {
        Ok(())
    }

    fn persist_term(&mut self, term: Term, vote: Option<NodeId>) -> Result<(), RaftErr> {
        Ok(())
    }

    fn entry_event(&mut self, entry: &Entry, idx: Index) -> Result<(), RaftErr> {
        Ok(())
    }

    fn membership_event(&mut self, membership: MembershipEvent) -> Result<(), RaftErr> {
        Ok(())
    }
}

/// A transport and persistence capability that records every call for
/// later inspection and succeeds unless told to fail its durable steps —
/// the engine's test bench.
pub struct RecordingIO {
    /// Every `(peer, message)` handed to `send_vote_request`.
    pub vote_requests: Vec<(NodeId, VoteRequest)>,
    /// Every `(peer, message)` handed to `send_append_entries_request`.
    pub append_requests: Vec<(NodeId, AppendEntriesRequest)>,
    /// Every peer handed to `send_snapshot`.
    pub snapshots: Vec<NodeId>,
    /// Every peer reported as having a sufficient log.
    pub sufficient_logs: Vec<NodeId>,
    /// Every vote durably persisted, in order.
    pub persisted_votes: Vec<NodeId>,
    /// Every `(term, vote)` pair durably persisted, in order.
    pub persisted_terms: Vec<(Term, Option<NodeId>)>,
    /// The `(idx, entry_id)` of every entry applied.
    pub entry_events: Vec<(Index, crate::EntryId)>,
    /// Every membership notification.
    pub membership_events: Vec<MembershipEvent>,
    /// When set, the durable steps (`persist_vote`, `persist_term`) fail
    /// with `Shutdown` and record nothing.
    pub fail_persist: bool,
}

impl RecordingIO {
    pub fn new() -> (r: RecordingIO)
        ensures
            r.vote_requests@.len() == 0,
            r.append_requests@.len() == 0,
            r.persisted_votes@.len() == 0,
            r.persisted_terms@.len() == 0,
            r.entry_events@.len() == 0,
            r.membership_events@.len() == 0,
            !r.fail_persist,
    {
        RecordingIO {
            vote_requests: Vec::new(),
            append_requests: Vec::new(),
            snapshots: Vec::new(),
            sufficient_logs: Vec::new(),
            persisted_votes: Vec::new(),
            persisted_terms: Vec::new(),
            entry_events: Vec::new(),
            membership_events: Vec::new(),
            fail_persist: false,
        }
    }
}

impl ServerIO for RecordingIO {
    fn send_vote_request(&mut self, node: NodeId, msg: VoteRequest) -> Result<(), RaftErr> {
        self.vote_requests.push((node, msg));
        Ok(())
    }

    fn send_append_entries_request(&mut self, node: NodeId, msg: AppendEntriesRequest) -> Result<
        (),
        RaftErr,
    > {
        self.append_requests.push((node, msg));
        Ok(())
    }

    fn send_snapshot(&mut self, node: NodeId) -> Result<(), RaftErr> {
        self.snapshots.push(node);
        Ok(())
    }

    fn node_has_sufficient_logs(&mut self, node: NodeId) -> Result<(), RaftErr> {
        self.sufficient_logs.push(node);
        Ok(())
    }

    fn persist_vote(&mut self, vote: NodeId) -> Result<(), RaftErr> {
        if self.fail_persist {
            return Err(RaftErr::Shutdown);
        }
        self.persisted_votes.push(vote);
        Ok(())
    }

    fn persist_term(&mut self, term: Term, vote: Option<NodeId>) -> Result<(), RaftErr> {
        if self.fail_persist {
            return Err(RaftErr::Shutdown);
        }
        self.persisted_terms.push((term, vote));
        Ok(())
    }

    fn entry_event(&mut self, entry: &Entry, idx: Index) -> Result<(), RaftErr> {
        self.entry_events.push((idx, entry.entry_id));
        Ok(())
    }

    fn membership_event(&mut self, membership: MembershipEvent) -> Result<(), RaftErr> {
        self.membership_events.push(membership);
        Ok(())
    }
}

} // verus!
