use raft::LogType;
use raft::MembershipEvent;
use raft::Entry;
use raft::RaftErr;
use raft::RaftState;
use raft::State;
use raft::server::NoopIO;
use raft::server::RecordingIO;
use raft::server::Server;
use raft::message::AppendEntriesRequest;
use raft::message::AppendEntriesResponse;
use raft::message::VoteRequest;
use raft::message::VoteResponse;

fn entry(entry_id: u8, data: Vec<u8>) -> Entry {
    Entry { term: 0, entry_id, log_type: LogType::Normal, data }
}

#[test]
fn new() {
    let server = Server::new(NoopIO::new());
    let _ = server;
}

#[test]
fn set_state() {
    let mut server = Server::new(NoopIO::new());
    server.set_state(State::Leader);
    assert_eq!(&State::Leader, server.state());
}

#[test]
fn get_state_through_trait() {
    let server = Server::new(NoopIO::new());
    let role: &dyn RaftState = &server;
    assert_eq!(role.get_state(), &State::Follower);
}

#[test]
fn new_defaults() {
    let server = Server::new(NoopIO::new());
    assert_eq!(server.id, 1);
    assert_eq!(server.current_term(), 0);
    assert_eq!(server.voted_for(), None);
    assert_eq!(server.current_idx(), 0);
    assert_eq!(server.commit_idx(), 0);
    assert_eq!(server.last_applied_idx(), 0);
    assert_eq!(server.current_leader(), None);
    assert_eq!(server.timeout_elapsed(), 0);
    assert_eq!(&State::Follower, server.state());
    assert!(!server.is_leader());
    assert!(!server.is_snapshot_in_progress());
}

#[test]
fn set_current_term_persists_and_clears_vote() {
    let mut server = Server::new(RecordingIO::new());
    let r = server.set_current_term(5);
    assert_eq!(r, Ok(()));
    assert_eq!(server.current_term(), 5);
    assert_eq!(server.voted_for(), None);
    assert_eq!(server.io().persisted_terms, vec![(5, None)]);
    // Lower or equal terms are a no-op, not persisted again.
    let r = server.set_current_term(3);
    assert_eq!(r, Ok(()));
    assert_eq!(server.current_term(), 5);
    assert_eq!(server.io().persisted_terms.len(), 1);
}

#[test]
fn set_current_term_failure_leaves_state() {
    let mut io = RecordingIO::new();
    io.fail_persist = true;
    let mut server = Server::new(io);
    let r = server.set_current_term(5);
    assert_eq!(r, Err(RaftErr::Shutdown));
    assert_eq!(server.current_term(), 0);
    assert_eq!(server.voted_for(), None);
}

#[test]
fn election_timeout_rand_window() {
    let mut server = Server::new(NoopIO::new());
    for _ in 0..32 {
        server.set_timeouts(1000, 200);
        let rand = server.election_timeout_rand();
        assert!(1000 <= rand && rand < 2000);
        let r = server.become_follower();
        assert_eq!(r, Ok(()));
        let rand = server.election_timeout_rand();
        assert!(1000 <= rand && rand < 2000);
    }
}

#[test]
fn single_voting_node_promotes_on_first_heartbeat() {
    let mut server = Server::new(RecordingIO::new());
    assert!(server.add_node(1));
    server.set_timeouts(1000, 100);
    let r = server.heartbeat(1);
    assert_eq!(r, Ok(()));
    assert!(server.is_leader());
    // No election exchange took place: no vote requests, no new term.
    assert_eq!(server.current_term(), 0);
    assert!(server.io().vote_requests.is_empty());
    assert!(server.io().persisted_votes.is_empty());
}

#[test]
fn election_scenario_three_nodes() {
    // Three nodes 1, 2 and 3; node 1 (this engine) elapses past its
    // randomized timeout first.
    let mut server = Server::new(RecordingIO::new());
    assert!(server.add_node(1));
    assert!(server.add_node(2));
    assert!(server.add_node(3));
    server.set_timeouts(1000, 200);
    let r = server.heartbeat(2000);
    assert_eq!(r, Ok(()));
    // It increments the term, votes for itself, and asks 2 and 3.
    assert_eq!(&State::Candidate, server.state());
    assert_eq!(server.current_term(), 1);
    assert_eq!(server.voted_for(), Some(1));
    assert_eq!(server.current_leader(), None);
    assert_eq!(server.io().persisted_terms, vec![(1, None)]);
    assert_eq!(server.io().persisted_votes, vec![1]);
    let asked: Vec<u8> = server.io().vote_requests.iter().map(|r| r.0).collect();
    assert_eq!(asked, vec![2, 3]);
    for (_, req) in server.io().vote_requests.iter() {
        assert_eq!(req.term, 1);
        assert_eq!(req.node_id, 1);
        assert_eq!(req.last_idx, 0);
        assert_eq!(req.last_term, 0);
    }
    // Both reply granted; the first grant already makes a majority of 2.
    let r = server.recv_vote_response(2, VoteResponse { term: 1, granted: true });
    assert_eq!(r, Ok(()));
    assert!(server.is_leader());
    let r = server.recv_vote_response(3, VoteResponse { term: 1, granted: true });
    assert_eq!(r, Ok(()));
    assert!(server.is_leader());
    // Peers 2 and 3 were reset to next_idx = current_idx + 1, match_idx = 0.
    for id in [2u8, 3u8] {
        let n = server.node(id).expect("registry record");
        assert_eq!(*n.next_idx(), server.current_idx() + 1);
        assert_eq!(*n.match_idx(), 0);
    }
    // And AppendEntries went out immediately, tagged with the new term.
    let told: Vec<u8> = server.io().append_requests.iter().map(|r| r.0).collect();
    assert_eq!(told, vec![2, 3]);
    for (_, req) in server.io().append_requests.iter() {
        assert_eq!(req.term, 1);
        assert!(req.entries.is_empty());
    }
}

#[test]
fn candidate_steps_down_on_higher_term_append() {
    // A candidate at term 1 receives AppendEntries carrying term 2.
    let mut server = Server::new(RecordingIO::new());
    assert!(server.add_node(1));
    assert!(server.add_node(2));
    assert!(server.add_node(3));
    server.set_timeouts(1000, 200);
    assert_eq!(server.heartbeat(2000), Ok(()));
    assert_eq!(&State::Candidate, server.state());
    assert_eq!(server.current_term(), 1);

    let req = AppendEntriesRequest {
        term: 2,
        previous_idx: 0,
        previous_term: 0,
        leader_commit: 0,
        entry_count: 0,
        entries: Vec::new(),
    };
    let resp = server.recv_append_entries_request(2, req).expect("accepted");
    assert!(resp.committed);
    assert_eq!(resp.term, 2);
    // Term 2 was persisted with an unset vote, then the step-down.
    assert!(server.io().persisted_terms.contains(&(2, None)));
    assert_eq!(&State::Follower, server.state());
    assert_eq!(server.current_term(), 2);
    assert_eq!(server.voted_for(), None);
    assert_eq!(server.current_leader(), Some(2));
}

#[test]
fn candidacy_aborts_when_persistence_fails() {
    let mut io = RecordingIO::new();
    io.fail_persist = true;
    let mut server = Server::new(io);
    assert!(server.add_node(1));
    assert!(server.add_node(2));
    server.set_timeouts(1000, 200);
    let r = server.start_election();
    assert_eq!(r, Err(RaftErr::Shutdown));
    assert_eq!(server.current_term(), 0);
    assert_eq!(server.voted_for(), None);
    assert_eq!(&State::Follower, server.state());
}

#[test]
fn vote_arbitration_single_grant() {
    let mut server = Server::new(RecordingIO::new());
    server.set_timeouts(1000, 200);
    let resp = server
        .recv_vote_request(VoteRequest { term: 1, node_id: 2, last_idx: 0, last_term: 0 })
        .expect("handled");
    assert!(resp.granted);
    assert_eq!(resp.term, 1);
    assert_eq!(server.voted_for(), Some(2));
    assert_eq!(server.io().persisted_votes, vec![2]);
    // A different candidate in the same term is refused.
    let resp = server
        .recv_vote_request(VoteRequest { term: 1, node_id: 3, last_idx: 0, last_term: 0 })
        .expect("handled");
    assert!(!resp.granted);
    assert_eq!(server.voted_for(), Some(2));
    // The same candidate asking again is granted again.
    let resp = server
        .recv_vote_request(VoteRequest { term: 1, node_id: 2, last_idx: 5, last_term: 0 })
        .expect("handled");
    assert!(resp.granted);
    // A stale term is refused outright.
    let resp = server
        .recv_vote_request(VoteRequest { term: 0, node_id: 4, last_idx: 9, last_term: 9 })
        .expect("handled");
    assert!(!resp.granted);
}

#[test]
fn vote_refused_for_outdated_log() {
    let mut server = Server::new(RecordingIO::new());
    server.set_timeouts(1000, 200);
    // Hold two entries of term 1.
    let req = AppendEntriesRequest {
        term: 1,
        previous_idx: 0,
        previous_term: 0,
        leader_commit: 0,
        entry_count: 2,
        entries: vec![
            Entry { term: 1, entry_id: 1, log_type: LogType::Normal, data: vec![] },
            Entry { term: 1, entry_id: 2, log_type: LogType::Normal, data: vec![] },
        ],
    };
    let resp = server.recv_append_entries_request(9, req).expect("accepted");
    assert!(resp.committed);
    // A candidate with a shorter log of the same last term is refused.
    let resp = server
        .recv_vote_request(VoteRequest { term: 2, node_id: 2, last_idx: 1, last_term: 1 })
        .expect("handled");
    assert!(!resp.granted);
    // Its term was still adopted.
    assert_eq!(server.current_term(), 2);
    assert_eq!(server.voted_for(), None);
    // A candidate at least as up-to-date is granted.
    let resp = server
        .recv_vote_request(VoteRequest { term: 2, node_id: 3, last_idx: 2, last_term: 1 })
        .expect("handled");
    assert!(resp.granted);
}

#[test]
fn append_entry_not_leader() {
    let mut server = Server::new(NoopIO::new());
    let r = server.append_entry(entry(1, vec![1]));
    assert_eq!(r, Err(RaftErr::NotLeader));
}

#[test]
fn append_entry_one_voting_change_only() {
    let mut server = Server::new(RecordingIO::new());
    assert!(server.add_node(1));
    server.set_timeouts(1000, 100);
    assert_eq!(server.heartbeat(1), Ok(()));
    assert!(server.is_leader());
    let change = Entry { term: 0, entry_id: 7, log_type: LogType::AddNode, data: vec![2] };
    assert_eq!(server.append_entry(change), Ok(0));
    let second = Entry { term: 0, entry_id: 8, log_type: LogType::RemoveNode, data: vec![3] };
    let r = server.append_entry(second);
    assert_eq!(r, Err(RaftErr::OneVotingChangeOnly));
    // A plain entry is still accepted.
    assert_eq!(server.append_entry(entry(9, vec![])), Ok(1));
}

#[test]
fn delete_entry_from_idx_truncates() {
    let mut server = Server::new(RecordingIO::new());
    assert!(server.add_node(1));
    server.set_timeouts(1000, 100);
    assert_eq!(server.heartbeat(1), Ok(()));
    assert_eq!(server.append_entry(entry(10, vec![0])), Ok(0));
    assert_eq!(server.append_entry(entry(11, vec![1])), Ok(1));
    assert_eq!(server.append_entry(entry(12, vec![2])), Ok(2));
    assert_eq!(server.current_idx(), 3);
    let removed = server.delete_entry_from_idx(1);
    assert_eq!(removed.entry_id, 11);
    assert_eq!(server.current_idx(), 1);
    assert_eq!(server.get_entry(0).expect("kept").entry_id, 10);
    assert!(server.get_entry(1).is_none());
}

#[test]
fn delete_entry_clears_pending_change_marker() {
    let mut server = Server::new(RecordingIO::new());
    assert!(server.add_node(1));
    server.set_timeouts(1000, 100);
    assert_eq!(server.heartbeat(1), Ok(()));
    let change = Entry { term: 0, entry_id: 7, log_type: LogType::AddNode, data: vec![2] };
    assert_eq!(server.append_entry(change), Ok(0));
    let second = Entry { term: 0, entry_id: 8, log_type: LogType::AddNode, data: vec![3] };
    assert_eq!(server.append_entry(second), Err(RaftErr::OneVotingChangeOnly));
    // Truncating the pending change away clears the marker.
    let _ = server.delete_entry_from_idx(0);
    let third = Entry { term: 0, entry_id: 9, log_type: LogType::AddNode, data: vec![3] };
    assert_eq!(server.append_entry(third), Ok(0));
}

#[test]
fn replication_commits_and_applies() {
    let mut server = Server::new(RecordingIO::new());
    assert!(server.add_node(1));
    assert!(server.add_node(2));
    assert!(server.add_node(3));
    server.set_timeouts(1000, 200);
    assert_eq!(server.heartbeat(2000), Ok(()));
    assert_eq!(
        server.recv_vote_response(2, VoteResponse { term: 1, granted: true }),
        Ok(())
    );
    assert!(server.is_leader());
    assert_eq!(server.append_entry(entry(7, vec![1, 2, 3])), Ok(0));
    assert_eq!(server.commit_idx(), 0);
    // Node 2 confirms storing the entry: majority of 3 reached, commit moves.
    let ack = AppendEntriesResponse { term: 1, committed: true, current_idx: 1, first_id: 1 };
    assert_eq!(server.recv_append_entries_response(2, ack), Ok(()));
    assert_eq!(server.commit_idx(), 1);
    let n = server.node(2).expect("record");
    assert_eq!(*n.match_idx(), 1);
    assert_eq!(*n.next_idx(), 2);
    // The next tick applies the committed entry exactly once.
    assert_eq!(server.heartbeat(1), Ok(()));
    assert_eq!(server.last_applied_idx(), 1);
    assert_eq!(server.io().entry_events, vec![(0, 7)]);
    assert_eq!(server.heartbeat(1), Ok(()));
    assert_eq!(server.io().entry_events.len(), 1);
}

#[test]
fn append_entries_refusal_backs_off_cursor() {
    let mut server = Server::new(RecordingIO::new());
    assert!(server.add_node(1));
    assert!(server.add_node(2));
    assert!(server.add_node(3));
    server.set_timeouts(1000, 200);
    assert_eq!(server.heartbeat(2000), Ok(()));
    assert_eq!(
        server.recv_vote_response(2, VoteResponse { term: 1, granted: true }),
        Ok(())
    );
    assert_eq!(*server.node(3).expect("record").next_idx(), 1);
    let nack = AppendEntriesResponse { term: 1, committed: false, current_idx: 0, first_id: 1 };
    assert_eq!(server.recv_append_entries_response(3, nack), Ok(()));
    // Already at the floor of 1, the cursor stays there.
    assert_eq!(*server.node(3).expect("record").next_idx(), 1);
}

#[test]
fn follower_accepts_and_reconciles_entries() {
    let mut server = Server::new(RecordingIO::new());
    server.set_timeouts(1000, 200);
    let req = AppendEntriesRequest {
        term: 1,
        previous_idx: 0,
        previous_term: 0,
        leader_commit: 0,
        entry_count: 2,
        entries: vec![
            Entry { term: 1, entry_id: 1, log_type: LogType::Normal, data: vec![10] },
            Entry { term: 1, entry_id: 2, log_type: LogType::Normal, data: vec![20] },
        ],
    };
    let resp = server.recv_append_entries_request(9, req).expect("accepted");
    assert!(resp.committed);
    assert_eq!(resp.current_idx, 2);
    assert_eq!(resp.first_id, 1);
    assert_eq!(server.current_term(), 1);
    assert_eq!(server.current_leader(), Some(9));
    assert_eq!(server.get_entry(0).expect("stored").entry_id, 1);
    assert_eq!(server.get_entry(1).expect("stored").entry_id, 2);
    assert_eq!(server.commit_idx(), 0);

    // A new leader at term 2 overwrites the conflicting suffix.
    let req = AppendEntriesRequest {
        term: 2,
        previous_idx: 1,
        previous_term: 1,
        leader_commit: 1,
        entry_count: 1,
        entries: vec![Entry { term: 2, entry_id: 9, log_type: LogType::Normal, data: vec![] }],
    };
    let resp = server.recv_append_entries_request(10, req).expect("accepted");
    assert!(resp.committed);
    assert_eq!(resp.current_idx, 2);
    assert_eq!(server.get_entry(1).expect("stored").entry_id, 9);
    assert_eq!(server.get_entry(1).expect("stored").term, 2);
    assert_eq!(server.commit_idx(), 1);
    assert_eq!(server.current_leader(), Some(10));
}

#[test]
fn follower_refuses_gapped_or_mismatched_append() {
    let mut server = Server::new(RecordingIO::new());
    server.set_timeouts(1000, 200);
    // A request whose previous index lies past our log is refused.
    let req = AppendEntriesRequest {
        term: 1,
        previous_idx: 3,
        previous_term: 1,
        leader_commit: 0,
        entry_count: 1,
        entries: vec![entry(5, vec![])],
    };
    let resp = server.recv_append_entries_request(9, req).expect("handled");
    assert!(!resp.committed);
    assert_eq!(resp.current_idx, 0);
    // A stale term is refused without touching state.
    let stale = AppendEntriesRequest {
        term: 0,
        previous_idx: 0,
        previous_term: 0,
        leader_commit: 0,
        entry_count: 0,
        entries: Vec::new(),
    };
    assert_eq!(server.current_term(), 1);
    let resp = server.recv_append_entries_request(8, stale).expect("handled");
    assert!(!resp.committed);
    assert_eq!(resp.term, 1);
    assert_eq!(server.current_leader(), Some(9));
}

#[test]
fn terms_never_decrease_over_a_sequence_of_calls() {
    let mut server = Server::new(RecordingIO::new());
    assert!(server.add_node(1));
    assert!(server.add_node(2));
    server.set_timeouts(1000, 200);
    let mut last = server.current_term();
    assert_eq!(server.heartbeat(2000), Ok(()));
    assert!(server.current_term() >= last);
    last = server.current_term();
    let _ = server.recv_vote_request(VoteRequest { term: 9, node_id: 2, last_idx: 9, last_term: 9 });
    assert!(server.current_term() >= last);
    last = server.current_term();
    let _ = server.recv_vote_response(2, VoteResponse { term: 3, granted: false });
    assert!(server.current_term() >= last);
    last = server.current_term();
    assert_eq!(server.set_current_term(1), Ok(()));
    assert!(server.current_term() >= last);
}

#[test]
fn majority_is_floor_half_plus_one() {
    // Four voting members: majority is 4/2 + 1 = 3 grants, self included.
    let mut server = Server::new(RecordingIO::new());
    for id in 1..=4 {
        assert!(server.add_node(id));
    }
    server.set_timeouts(1000, 200);
    assert_eq!(server.heartbeat(2000), Ok(()));
    assert_eq!(&State::Candidate, server.state());
    assert_eq!(
        server.recv_vote_response(2, VoteResponse { term: 1, granted: true }),
        Ok(())
    );
    // Two grants (self and node 2) are not yet a majority of four.
    assert_eq!(&State::Candidate, server.state());
    assert_eq!(
        server.recv_vote_response(3, VoteResponse { term: 1, granted: true }),
        Ok(())
    );
    assert!(server.is_leader());
}

#[test]
fn candidate_restarts_election_with_new_term() {
    let mut server = Server::new(RecordingIO::new());
    assert!(server.add_node(1));
    assert!(server.add_node(2));
    assert!(server.add_node(3));
    server.set_timeouts(1000, 200);
    assert_eq!(server.heartbeat(2000), Ok(()));
    assert_eq!(&State::Candidate, server.state());
    assert_eq!(server.current_term(), 1);
    // The timeout elapses again without a majority: a new election with an
    // incremented term, never a resend of the old one.
    assert_eq!(server.heartbeat(2000), Ok(()));
    assert_eq!(&State::Candidate, server.state());
    assert_eq!(server.current_term(), 2);
    assert_eq!(server.voted_for(), Some(1));
    assert_eq!(server.io().persisted_terms, vec![(1, None), (2, None)]);
}

#[test]
fn restore_rebuilds_persistent_state() {
    let log = vec![
        Entry { term: 2, entry_id: 4, log_type: LogType::Normal, data: vec![1] },
        Entry { term: 3, entry_id: 5, log_type: LogType::Normal, data: vec![2] },
    ];
    let server = Server::new(NoopIO::new());
    assert_eq!(server.current_term(), 0);
    let server = Server::restore(NoopIO::new(), 3, Some(2), log);
    assert_eq!(server.current_term(), 3);
    assert_eq!(server.voted_for(), Some(2));
    assert_eq!(server.current_idx(), 2);
    assert_eq!(server.get_entry(1).expect("restored").entry_id, 5);
    // Volatile state starts over.
    assert_eq!(server.commit_idx(), 0);
    assert_eq!(&State::Follower, server.state());
}

#[test]
fn membership_registry() {
    let mut server = Server::new(RecordingIO::new());
    assert!(server.add_node(1));
    assert!(server.add_non_voting_node(2));
    assert!(!server.add_node(1));
    let n = server.node(2).expect("record");
    assert!(!n.is_voting());
    assert!(n.is_active());
    assert!(server.remove_node(2));
    assert!(!server.node(2).expect("record kept").is_active());
    assert!(!server.remove_node(9));
    assert_eq!(
        server.io().membership_events,
        vec![MembershipEvent::ADD(1), MembershipEvent::ADD(2), MembershipEvent::REMOVE(2)]
    );
    assert!(server.is_single_node());
}
