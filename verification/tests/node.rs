use raft::node::Node;

#[test]
fn node_new_is_fresh_voting_member() {
    let n = Node::new(4);
    assert_eq!(n.id, 4);
    assert!(n.is_voting());
    assert!(n.is_active());
    assert!(!n.flags.voted_for_me);
    assert!(!n.flags.has_sufficient_log);
    assert!(!n.flags.voting_committed);
    assert!(!n.flags.addition_committed);
    assert_eq!(*n.next_idx(), 1);
    assert_eq!(*n.match_idx(), 0);
}

#[test]
fn node_cursor_setters() {
    let mut n = Node::new(4);
    n.set_next_idx(12);
    assert_eq!(*n.next_idx(), 12);
    n.set_match_idx(11);
    assert_eq!(*n.match_idx(), 11);
    assert_eq!(n.id, 4);
}

#[test]
fn node_flag_queries() {
    let mut n = Node::new(4);
    n.flags.voting = false;
    assert!(!n.is_voting());
    n.flags.inactive = true;
    assert!(!n.is_active());
}
