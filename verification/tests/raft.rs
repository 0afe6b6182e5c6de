use raft_core::node::RaftNode;
use raft_core::types::{AppendEntriesArgs, LogEntry, Message, NodeState, SubmitError};

fn entry(term: u64, command: &str) -> LogEntry {
    LogEntry { term, command: command.as_bytes().to_vec() }
}

fn is_leader(n: &RaftNode) -> bool {
    matches!(n.role, NodeState::Leader { .. })
}

fn is_follower(n: &RaftNode) -> bool {
    matches!(n.role, NodeState::Follower { .. })
}

fn term_of(n: &RaftNode) -> u64 {
    match n.role {
        NodeState::Follower { term, .. } => term,
        NodeState::Candidate { term, .. } => term,
        NodeState::Leader { term, .. } => term,
    }
}

#[test]
fn three_node_election() {
    // Scenario: all start Follower at term 0 with empty logs; node 1's
    // election timer fires first.
    let mut a = RaftNode::new(1, vec![2, 3]);
    let mut b = RaftNode::new(2, vec![1, 3]);
    let mut c = RaftNode::new(3, vec![1, 2]);

    let out = a.election_timeout();
    assert!(matches!(a.role, NodeState::Candidate { term: 1, .. }));
    assert_eq!(out.messages.len(), 2);

    // Both peers grant the vote for term 1.
    let mut replies = Vec::new();
    for ob in out.messages {
        if ob.to == 2 {
            let r = b.handle_message(1, ob.msg);
            replies.extend(r.messages);
        } else {
            assert_eq!(ob.to, 3);
            let r = c.handle_message(1, ob.msg);
            replies.extend(r.messages);
        }
    }
    assert_eq!(replies.len(), 2);

    // The first granted vote plus the self-vote is already a majority of 3.
    let mut heartbeats = Vec::new();
    for (from, ob) in [(2u64, replies.remove(0)), (3u64, replies.remove(0))] {
        assert_eq!(ob.to, 1);
        let r = a.handle_message(from, ob.msg);
        heartbeats.extend(r.messages);
    }
    assert!(is_leader(&a));
    assert_eq!(term_of(&a), 1);
    // The new leader asserted authority with empty AppendEntries.
    assert_eq!(heartbeats.len(), 2);
    for hb in &heartbeats {
        match &hb.msg {
            Message::AppendEntries(args) => {
                assert_eq!(args.term, 1);
                assert_eq!(args.leader_id, 1);
                assert!(args.entries.is_empty());
            }
            _ => panic!("expected AppendEntries"),
        }
    }
    for hb in heartbeats {
        if hb.to == 2 {
            b.handle_message(1, hb.msg);
        } else {
            c.handle_message(1, hb.msg);
        }
    }
    // Both peers remain Follower and recognize term 1.
    assert!(is_follower(&b) && term_of(&b) == 1);
    assert!(is_follower(&c) && term_of(&c) == 1);
}

#[test]
fn append_single_entry_to_empty_follower() {
    // Scenario: a leader of term 1 replicates its single entry {1,1,"x"}
    // to an empty-log follower.
    let mut b = RaftNode::new(2, vec![1]);
    let args = AppendEntriesArgs {
        term: 1,
        leader_id: 1,
        prev_log_index: 0,
        prev_log_term: 0,
        entries: vec![entry(1, "x")],
        leader_commit: 0,
    };
    let out = b.handle_append_entries(1, args);
    assert_eq!(out.messages.len(), 1);
    match &out.messages[0].msg {
        Message::AppendEntriesResponse(r) => {
            assert!(r.success);
            assert_eq!(r.match_index, 1);
            assert_eq!(r.term, 1);
        }
        _ => panic!("expected AppendEntriesResponse"),
    }
    assert_eq!(b.log.last_index(), 1);
    let e = b.log.get(1).unwrap();
    assert_eq!(e.term, 1);
    assert_eq!(e.command, b"x".to_vec());
}

#[test]
fn split_vote_then_retry() {
    // Scenario: two candidates tie in a 4-node cluster; no majority, both
    // time out, and a higher term settles it.
    let mut a = RaftNode::new(1, vec![2, 3, 4]);
    let mut b = RaftNode::new(2, vec![1, 3, 4]);
    let mut c = RaftNode::new(3, vec![1, 2, 4]);
    let mut d = RaftNode::new(4, vec![1, 2, 3]);

    let out_a = a.election_timeout();
    let out_b = b.election_timeout();

    // Each candidate has voted for itself and denies the other; of the
    // granted replies, only node 3's reaches 1 and only node 4's reaches
    // 2 — the rest are lost in transit.
    for ob in out_a.messages {
        let reply = match ob.to {
            2 => b.handle_message(1, ob.msg),
            3 => c.handle_message(1, ob.msg),
            4 => d.handle_message(1, ob.msg),
            _ => unreachable!(),
        };
        if ob.to == 3 {
            for r in reply.messages {
                a.handle_message(3, r.msg);
            }
        }
    }
    for ob in out_b.messages {
        let reply = match ob.to {
            1 => a.handle_message(2, ob.msg),
            3 => c.handle_message(2, ob.msg),
            4 => d.handle_message(2, ob.msg),
            _ => unreachable!(),
        };
        if ob.to == 4 {
            for r in reply.messages {
                b.handle_message(4, r.msg);
            }
        }
    }
    // Two votes each out of four: no majority, no leader.
    assert!(!is_leader(&a) && !is_leader(&b) && !is_leader(&c) && !is_leader(&d));

    // Node 1 times out first in the next round and wins term 2.
    let out_a2 = a.election_timeout();
    assert_eq!(term_of(&a), 2);
    for ob in out_a2.messages {
        let reply = match ob.to {
            2 => b.handle_message(1, ob.msg),
            3 => c.handle_message(1, ob.msg),
            4 => d.handle_message(1, ob.msg),
            _ => unreachable!(),
        };
        for r in reply.messages {
            a.handle_message(ob.to, r.msg);
        }
    }
    // Every other node sees the greater term 2, reverts to Follower and
    // grants: node 1 reaches a majority within a single term.
    assert!(is_leader(&a));
    assert_eq!(term_of(&a), 2);
    assert!(!is_leader(&b) && !is_leader(&c) && !is_leader(&d));
}

#[test]
fn follower_truncates_conflicting_suffix() {
    // Scenario: the follower holds a conflicting entry at index 5 of term
    // 2; the leader's entries start at index 5 with term 3.
    let mut b = RaftNode::new(2, vec![1]);
    let fill = AppendEntriesArgs {
        term: 2,
        leader_id: 1,
        prev_log_index: 0,
        prev_log_term: 0,
        entries: vec![
            entry(2, "c1"),
            entry(2, "c2"),
            entry(2, "c3"),
            entry(2, "c4"),
            entry(2, "c5"),
        ],
        leader_commit: 0,
    };
    b.handle_append_entries(1, fill);
    assert_eq!(b.log.last_index(), 5);
    assert_eq!(b.log.get(5).unwrap().term, 2);

    let overwrite = AppendEntriesArgs {
        term: 3,
        leader_id: 3,
        prev_log_index: 4,
        prev_log_term: 2,
        entries: vec![entry(3, "n5")],
        leader_commit: 0,
    };
    let out = b.handle_append_entries(3, overwrite);
    match &out.messages[0].msg {
        Message::AppendEntriesResponse(r) => {
            assert!(r.success);
            assert_eq!(r.match_index, 5);
        }
        _ => panic!("expected AppendEntriesResponse"),
    }
    assert_eq!(b.log.last_index(), 5);
    let e = b.log.get(5).unwrap();
    assert_eq!(e.term, 3);
    assert_eq!(e.command, b"n5".to_vec());
    // The untouched prefix stayed.
    assert_eq!(b.log.get(4).unwrap().command, b"c4".to_vec());
}

#[test]
fn leader_commits_after_majority_ack() {
    let mut a = RaftNode::new(1, vec![2, 3]);
    let mut b = RaftNode::new(2, vec![1, 3]);

    // Elect node 1 with node 2's vote.
    let out = a.election_timeout();
    for ob in out.messages {
        if ob.to == 2 {
            let r = b.handle_message(1, ob.msg);
            for reply in r.messages {
                a.handle_message(2, reply.msg);
            }
        }
    }
    assert!(is_leader(&a));

    let idx = a.client_submit(b"set x".to_vec()).unwrap();
    assert_eq!(idx, 1);
    assert_eq!(a.commit_index, 0);

    // Replicate to node 2; its acknowledgement makes a majority (2 of 3).
    let tick = a.heartbeat_tick();
    assert!(tick.committed.is_empty());
    let mut committed = Vec::new();
    for ob in tick.messages {
        if ob.to == 2 {
            let r = b.handle_message(1, ob.msg);
            for reply in r.messages {
                let res = a.handle_message(2, reply.msg);
                committed.extend(res.committed);
            }
        }
    }
    assert_eq!(a.commit_index, 1);
    assert_eq!(committed.len(), 1);
    assert_eq!(committed[0].command, b"set x".to_vec());

    // Delivery happens exactly once: another tick commits nothing new.
    let tick2 = a.heartbeat_tick();
    assert!(tick2.committed.is_empty());
    assert_eq!(a.commit_index, 1);
}

#[test]
fn at_most_one_leader_per_term() {
    // Two candidates of the same term compete for node 3's single vote:
    // whoever asks first gets it, the other is denied, and only one can
    // ever assemble a majority of term 1.
    let mut a = RaftNode::new(1, vec![2, 3]);
    let mut b = RaftNode::new(2, vec![1, 3]);
    let mut c = RaftNode::new(3, vec![1, 2]);

    let out_a = a.election_timeout();
    let out_b = b.election_timeout();
    assert_eq!(term_of(&a), 1);
    assert_eq!(term_of(&b), 1);

    for ob in out_a.messages {
        if ob.to == 3 {
            let r = c.handle_message(1, ob.msg);
            for reply in r.messages {
                a.handle_message(3, reply.msg);
            }
        }
    }
    for ob in out_b.messages {
        if ob.to == 3 {
            let r = c.handle_message(2, ob.msg);
            for reply in r.messages {
                b.handle_message(3, reply.msg);
            }
        }
    }
    assert!(is_leader(&a));
    assert!(!is_leader(&b));
    assert_eq!(term_of(&a), term_of(&b));
}

#[test]
fn leader_log_survives_stale_messages() {
    // Leader append-only: nothing a stale message carries makes a leader
    // drop or change what it has appended.
    let mut a = RaftNode::new(1, vec![2, 3]);
    let mut b = RaftNode::new(2, vec![1, 3]);
    let out = a.election_timeout();
    for ob in out.messages {
        if ob.to == 2 {
            let r = b.handle_message(1, ob.msg);
            for reply in r.messages {
                a.handle_message(2, reply.msg);
            }
        }
    }
    assert!(is_leader(&a));
    a.client_submit(b"cmd".to_vec()).unwrap();
    assert_eq!(a.log.last_index(), 1);

    // A stale AppendEntries of term 0 is rejected without any change.
    let stale = AppendEntriesArgs {
        term: 0,
        leader_id: 9,
        prev_log_index: 0,
        prev_log_term: 0,
        entries: vec![entry(0, "junk")],
        leader_commit: 0,
    };
    let out = a.handle_append_entries(9, stale);
    match &out.messages[0].msg {
        Message::AppendEntriesResponse(r) => assert!(!r.success),
        _ => panic!("expected AppendEntriesResponse"),
    }
    assert!(is_leader(&a));
    assert_eq!(a.log.last_index(), 1);
    assert_eq!(a.log.get(1).unwrap().command, b"cmd".to_vec());
}

#[test]
fn commit_index_never_decreases() {
    let mut b = RaftNode::new(2, vec![1]);
    let fill = AppendEntriesArgs {
        term: 1,
        leader_id: 1,
        prev_log_index: 0,
        prev_log_term: 0,
        entries: vec![entry(1, "c1"), entry(1, "c2")],
        leader_commit: 2,
    };
    let out = b.handle_append_entries(1, fill);
    assert_eq!(b.commit_index, 2);
    assert_eq!(out.committed.len(), 2);

    // A later heartbeat with a smaller leader_commit does not regress it.
    let hb = AppendEntriesArgs {
        term: 1,
        leader_id: 1,
        prev_log_index: 2,
        prev_log_term: 1,
        entries: vec![],
        leader_commit: 1,
    };
    let out = b.handle_append_entries(1, hb);
    assert_eq!(b.commit_index, 2);
    assert!(out.committed.is_empty());
}

#[test]
fn submit_to_non_leader_fails() {
    let mut b = RaftNode::new(2, vec![1, 3]);
    let r = b.client_submit(b"cmd".to_vec());
    assert!(matches!(r, Err(SubmitError::NotLeader)));
    assert_eq!(b.log.last_index(), 0);
}

#[test]
fn stale_term_request_rejected_without_change() {
    let mut b = RaftNode::new(2, vec![1, 3]);
    // Bring the follower to term 5.
    let hb = AppendEntriesArgs {
        term: 5,
        leader_id: 1,
        prev_log_index: 0,
        prev_log_term: 0,
        entries: vec![],
        leader_commit: 0,
    };
    b.handle_append_entries(1, hb);
    assert_eq!(term_of(&b), 5);

    let old = AppendEntriesArgs {
        term: 3,
        leader_id: 3,
        prev_log_index: 0,
        prev_log_term: 0,
        entries: vec![entry(3, "old")],
        leader_commit: 0,
    };
    let out = b.handle_append_entries(3, old);
    match &out.messages[0].msg {
        Message::AppendEntriesResponse(r) => {
            assert!(!r.success);
            assert_eq!(r.term, 5);
        }
        _ => panic!("expected AppendEntriesResponse"),
    }
    assert_eq!(term_of(&b), 5);
    assert_eq!(b.log.last_index(), 0);
}

#[test]
fn conflict_hint_points_at_first_index_of_term() {
    let mut b = RaftNode::new(2, vec![1]);
    let fill = AppendEntriesArgs {
        term: 2,
        leader_id: 1,
        prev_log_index: 0,
        prev_log_term: 0,
        entries: vec![entry(1, "a"), entry(1, "b"), entry(2, "c"), entry(2, "d")],
        leader_commit: 0,
    };
    b.handle_append_entries(1, fill);

    // The leader probes at index 4 with the wrong term: the hint names
    // the first index of the conflicting term 2, which is 3.
    let probe = AppendEntriesArgs {
        term: 3,
        leader_id: 3,
        prev_log_index: 4,
        prev_log_term: 3,
        entries: vec![],
        leader_commit: 0,
    };
    let out = b.handle_append_entries(3, probe);
    match &out.messages[0].msg {
        Message::AppendEntriesResponse(r) => {
            assert!(!r.success);
            assert_eq!(r.match_index, 3);
        }
        _ => panic!("expected AppendEntriesResponse"),
    }

    // A probe past the end of the log hints one past the last index.
    let probe_far = AppendEntriesArgs {
        term: 3,
        leader_id: 3,
        prev_log_index: 10,
        prev_log_term: 3,
        entries: vec![],
        leader_commit: 0,
    };
    let out = b.handle_append_entries(3, probe_far);
    match &out.messages[0].msg {
        Message::AppendEntriesResponse(r) => {
            assert!(!r.success);
            assert_eq!(r.match_index, 5);
        }
        _ => panic!("expected AppendEntriesResponse"),
    }
}

#[test]
fn vote_denied_to_less_up_to_date_candidate() {
    let mut b = RaftNode::new(2, vec![1, 3]);
    let fill = AppendEntriesArgs {
        term: 2,
        leader_id: 1,
        prev_log_index: 0,
        prev_log_term: 0,
        entries: vec![entry(2, "x")],
        leader_commit: 0,
    };
    b.handle_append_entries(1, fill);

    // Candidate 3 of term 3 with an older last log term is denied.
    let ask = raft_core::types::RequestVoteArgs {
        term: 3,
        candidate_id: 3,
        last_log_index: 4,
        last_log_term: 1,
    };
    let out = b.handle_request_vote(3, ask);
    match &out.messages[0].msg {
        Message::RequestVoteResponse(r) => {
            assert!(!r.vote_granted);
            assert_eq!(r.term, 3);
        }
        _ => panic!("expected RequestVoteResponse"),
    }

    // One with an equal last term and at least as long a log is granted.
    let ask2 = raft_core::types::RequestVoteArgs {
        term: 4,
        candidate_id: 3,
        last_log_index: 1,
        last_log_term: 2,
    };
    let out = b.handle_request_vote(3, ask2);
    match &out.messages[0].msg {
        Message::RequestVoteResponse(r) => assert!(r.vote_granted),
        _ => panic!("expected RequestVoteResponse"),
    }
}

#[test]
fn one_vote_per_term() {
    let mut b = RaftNode::new(2, vec![1, 3]);
    let ask1 = raft_core::types::RequestVoteArgs {
        term: 1,
        candidate_id: 1,
        last_log_index: 0,
        last_log_term: 0,
    };
    let out = b.handle_request_vote(1, ask1);
    match &out.messages[0].msg {
        Message::RequestVoteResponse(r) => assert!(r.vote_granted),
        _ => panic!("expected RequestVoteResponse"),
    }

    // A different candidate in the same term is denied.
    let ask3 = raft_core::types::RequestVoteArgs {
        term: 1,
        candidate_id: 3,
        last_log_index: 0,
        last_log_term: 0,
    };
    let out = b.handle_request_vote(3, ask3);
    match &out.messages[0].msg {
        Message::RequestVoteResponse(r) => assert!(!r.vote_granted),
        _ => panic!("expected RequestVoteResponse"),
    }

    // The same candidate asking again is granted again (idempotent).
    let ask1b = raft_core::types::RequestVoteArgs {
        term: 1,
        candidate_id: 1,
        last_log_index: 0,
        last_log_term: 0,
    };
    let out = b.handle_request_vote(1, ask1b);
    match &out.messages[0].msg {
        Message::RequestVoteResponse(r) => assert!(r.vote_granted),
        _ => panic!("expected RequestVoteResponse"),
    }
}

#[test]
fn single_node_cluster_elects_and_commits_alone() {
    let mut a = RaftNode::new(1, vec![]);
    let out = a.election_timeout();
    assert!(is_leader(&a));
    assert_eq!(term_of(&a), 1);
    assert!(out.messages.is_empty());

    let idx = a.client_submit(b"solo".to_vec()).unwrap();
    assert_eq!(idx, 1);
    let tick = a.heartbeat_tick();
    assert!(tick.messages.is_empty());
    assert_eq!(tick.committed.len(), 1);
    assert_eq!(a.commit_index, 1);
}

#[test]
fn backoff_repairs_divergent_follower() {
    // Node 1 holds [term 1, term 1, term 2]; node 2 diverged with
    // [term 1, term 3]. After node 1 wins an election, its back-off walks
    // next_index to the point of agreement, node 2 truncates its stray
    // suffix, and both logs match. Entries of an older term are not
    // committed by counting replicas alone; the first entry of the
    // leader's own term commits everything below it.
    let mut a = RaftNode::new(1, vec![2, 3]);
    let mut b = RaftNode::new(2, vec![1, 3]);
    let mut c = RaftNode::new(3, vec![1, 2]);

    let seed_a = AppendEntriesArgs {
        term: 2,
        leader_id: 9,
        prev_log_index: 0,
        prev_log_term: 0,
        entries: vec![entry(1, "a1"), entry(1, "a2"), entry(2, "a3")],
        leader_commit: 0,
    };
    a.handle_append_entries(9, seed_a);
    let seed_b = AppendEntriesArgs {
        term: 3,
        leader_id: 8,
        prev_log_index: 0,
        prev_log_term: 0,
        entries: vec![entry(1, "a1"), entry(3, "b2")],
        leader_commit: 0,
    };
    b.handle_append_entries(8, seed_b);

    // Node 1 campaigns for term 3: node 2's log is more up-to-date (last
    // term 3 beats 2) so it denies, but node 3 grants — a majority.
    let out = a.election_timeout();
    for ob in out.messages {
        let replies = match ob.to {
            2 => b.handle_message(1, ob.msg),
            3 => c.handle_message(1, ob.msg),
            _ => unreachable!(),
        };
        for r in replies.messages {
            a.handle_message(ob.to, r.msg);
        }
    }
    assert!(is_leader(&a));
    assert_eq!(term_of(&a), 3);

    // Three rounds of replication to node 2: too short, then a term
    // conflict whose hint jumps to the first index of that term, then
    // agreement and repair.
    let mut rounds = 0;
    loop {
        let tick = a.heartbeat_tick();
        let mut acked = false;
        for ob in tick.messages {
            if ob.to == 2 {
                let replies = b.handle_message(1, ob.msg);
                for r in replies.messages {
                    if let Message::AppendEntriesResponse(resp) = &r.msg {
                        acked = resp.success;
                    }
                    a.handle_message(2, r.msg);
                }
            }
        }
        rounds += 1;
        if acked {
            break;
        }
        assert!(rounds < 4, "back-off should converge in three rounds");
    }
    assert_eq!(rounds, 3);
    assert_eq!(b.log.last_index(), 3);
    for i in 1..=3u64 {
        let ea = a.log.get(i).unwrap();
        let eb = b.log.get(i).unwrap();
        assert_eq!(ea.term, eb.term);
        assert_eq!(ea.command, eb.command);
    }

    // Everything replicated is of older terms: nothing commits yet.
    assert_eq!(a.commit_index, 0);

    // One command of the leader's own term commits, and with it the whole
    // prefix, in ascending order.
    let idx = a.client_submit(b"n4".to_vec()).unwrap();
    assert_eq!(idx, 4);
    let tick = a.heartbeat_tick();
    let mut committed = Vec::new();
    for ob in tick.messages {
        if ob.to == 2 {
            let replies = b.handle_message(1, ob.msg);
            for r in replies.messages {
                let res = a.handle_message(2, r.msg);
                committed.extend(res.committed);
            }
        }
    }
    assert_eq!(a.commit_index, 4);
    let commands: Vec<_> = committed.iter().map(|e| e.command.clone()).collect();
    assert_eq!(
        commands,
        vec![b"a1".to_vec(), b"a2".to_vec(), b"a3".to_vec(), b"n4".to_vec()]
    );
}

#[test]
fn append_refuses_to_truncate_committed_entries() {
    let mut b = RaftNode::new(2, vec![1]);
    let fill = AppendEntriesArgs {
        term: 1,
        leader_id: 1,
        prev_log_index: 0,
        prev_log_term: 0,
        entries: vec![entry(1, "a"), entry(1, "b")],
        leader_commit: 2,
    };
    b.handle_append_entries(1, fill);
    assert_eq!(b.commit_index, 2);

    // A message whose entries conflict below the commit index violates
    // the protocol and is refused whole, leaving the node untouched.
    let bad = AppendEntriesArgs {
        term: 2,
        leader_id: 3,
        prev_log_index: 0,
        prev_log_term: 0,
        entries: vec![entry(2, "x")],
        leader_commit: 0,
    };
    let out = b.handle_append_entries(3, bad);
    match &out.messages[0].msg {
        Message::AppendEntriesResponse(r) => assert!(!r.success),
        _ => panic!("expected AppendEntriesResponse"),
    }
    assert_eq!(b.commit_index, 2);
    assert_eq!(b.log.last_index(), 2);
    assert_eq!(b.log.get(1).unwrap().term, 1);
}

#[test]
fn votes_from_strangers_do_not_count() {
    let mut a = RaftNode::new(1, vec![2, 3]);
    a.election_timeout();

    let stray = raft_core::types::RequestVoteResponseArgs { term: 1, vote_granted: true };
    a.handle_message(99, Message::RequestVoteResponse(stray));
    assert!(matches!(a.role, NodeState::Candidate { .. }));

    let real = raft_core::types::RequestVoteResponseArgs { term: 1, vote_granted: true };
    a.handle_message(2, Message::RequestVoteResponse(real));
    assert!(matches!(a.role, NodeState::Leader { .. }));
}

#[test]
fn acknowledgement_beyond_log_is_ignored() {
    let mut a = RaftNode::new(1, vec![2, 3]);
    let mut b = RaftNode::new(2, vec![1, 3]);
    let out = a.election_timeout();
    for ob in out.messages {
        if ob.to == 2 {
            let r = b.handle_message(1, ob.msg);
            for reply in r.messages {
                a.handle_message(2, reply.msg);
            }
        }
    }
    assert!(matches!(a.role, NodeState::Leader { .. }));

    // An acknowledged index past the log's end is malformed: no progress
    // record changes, nothing commits.
    let bogus = raft_core::types::AppendEntriesResponseArgs {
        term: 1,
        success: true,
        match_index: 5,
    };
    let out = a.handle_append_entries_response(2, bogus);
    assert!(out.committed.is_empty());
    assert_eq!(a.commit_index, 0);
    let tick = a.heartbeat_tick();
    for ob in tick.messages {
        match ob.msg {
            Message::AppendEntries(args) => assert_eq!(args.prev_log_index, 0),
            _ => panic!("expected AppendEntries"),
        }
    }
}
