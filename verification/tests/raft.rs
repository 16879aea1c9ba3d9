use rraft::machine::Machine;
use rraft::msg::{LogEntry, Message};
use rraft::quorum::is_quorum;
use rraft::roles::{Leader, Role};
use rraft::sched::MessageQueue;

const HB: u64 = 20;

fn entry(term: u64, index: usize, command: u64) -> LogEntry {
    LogEntry { term, index, command }
}

fn is_leader(m: &Machine) -> bool {
    matches!(m.role, Role::Leader(_))
}

#[test]
fn quorum_thresholds() {
    // (cluster size, votes needed for a strict majority)
    let cases: [(usize, usize); 6] = [(1, 1), (2, 2), (3, 2), (4, 3), (5, 3), (7, 4)];
    for (n, need) in cases {
        assert!(is_quorum(need, n), "{} votes should win a cluster of {}", need, n);
        assert!(!is_quorum(need - 1, n), "{} votes should not win a cluster of {}", need - 1, n);
    }
}

#[test]
fn scenario_single_election_three_nodes() {
    let mut n0 = Machine::new(0, 3, 0, 150);
    let mut n1 = Machine::new(1, 3, 0, 200);
    let mut n2 = Machine::new(2, 3, 0, 250);
    assert!(matches!(n0.role, Role::Follower(_)));
    assert!(matches!(n1.role, Role::Follower(_)));
    assert!(matches!(n2.role, Role::Follower(_)));

    // node 0's election timeout elapses first; it stands for election
    let out = n0.tick(150, 150, HB);
    assert!(matches!(n0.role, Role::Candidate(_)));
    assert_eq!(n0.state.current_term, 1);
    assert_eq!(out.len(), 2);
    assert_eq!(out[0].to, 1);
    assert_eq!(out[1].to, 2);

    // the other two have quiet timers meanwhile
    assert!(n1.tick(150, 200, HB).is_empty());
    assert!(n2.tick(150, 250, HB).is_empty());

    // both grant their vote
    let r1 = n1.handle(out[0].msg.clone(), 151, 200);
    let r2 = n2.handle(out[1].msg.clone(), 151, 250);
    match &r1[0].msg {
        Message::RequestVoteResponse { vote_granted, term, .. } => {
            assert!(*vote_granted);
            assert_eq!(*term, 1);
        }
        _ => panic!("expected a vote response"),
    }

    // the first grant to arrive completes the majority: self plus one peer
    let hb = n0.handle(r1[0].msg.clone(), 152, 150);
    assert!(is_leader(&n0));
    assert_eq!(hb.len(), 2);

    // the late grant changes nothing for the elected leader
    let none = n0.handle(r2[0].msg.clone(), 153, 150);
    assert!(none.is_empty());
    assert!(is_leader(&n0));

    // heartbeats keep the other two followers
    let _ = n1.handle(hb[0].msg.clone(), 154, 200);
    let _ = n2.handle(hb[1].msg.clone(), 154, 250);
    assert!(matches!(n1.role, Role::Follower(_)));
    assert!(matches!(n2.role, Role::Follower(_)));

    // election safety: exactly one leader for this term
    let leaders = [&n0, &n1, &n2].iter().filter(|m| is_leader(m)).count();
    assert_eq!(leaders, 1);
}

#[test]
fn scenario_log_repair() {
    // Leader of term 5 whose log is [(1,t1),(2,t1),(3,t5)]
    let mut leader = Machine::new(0, 3, 0, 150);
    leader.state.current_term = 5;
    leader.state.log.entries = vec![entry(1, 1, 10), entry(1, 2, 20), entry(5, 3, 30)];
    leader.role = Role::Leader(Leader::new(&leader.state, 0));

    // Follower whose log diverged: [(1,t1),(2,t2)]
    let mut fol = Machine::new(1, 3, 0, 10_000);
    fol.state.current_term = 5;
    fol.state.log.entries = vec![entry(1, 1, 10), entry(2, 2, 99)];

    let mut now: u64 = 100;
    let mut accepted = false;
    let mut rounds = 0;
    while !accepted && rounds < 10 {
        let outs = leader.tick(now, 150, 0);
        let req = outs.iter().find(|e| e.to == 1).expect("a heartbeat for the follower").msg.clone();
        let resp = fol.handle(req, now, 10_000);
        let rmsg = resp[0].msg.clone();
        if let Message::AppendEntriesResponse { success, .. } = &rmsg {
            accepted = *success;
        }
        let _ = leader.handle(rmsg, now, 150);
        now += 10;
        rounds += 1;
    }

    // the leader backed nextIndex off until prevLogIndex matched, then the
    // follower truncated its conflicting entry and took the leader's suffix
    assert!(accepted);
    assert_eq!(
        fol.state.log.entries,
        vec![entry(1, 1, 10), entry(1, 2, 20), entry(5, 3, 30)]
    );
    // the confirmed replication put the entry of the leader's own term on a
    // majority, so the leader committed through its last index
    assert_eq!(leader.state.commit_index, 3);
}

#[test]
fn scenario_split_vote_retry() {
    let mut n0 = Machine::new(0, 3, 0, 150);
    let mut n1 = Machine::new(1, 3, 0, 150);
    // the third node is partitioned away: nothing is ever delivered to it

    // both time out at once and stand for the same term
    let out0 = n0.tick(150, 150, HB);
    let out1 = n1.tick(150, 160, HB);
    assert_eq!(n0.state.current_term, 1);
    assert_eq!(n1.state.current_term, 1);

    // each asks the other, but both already voted for themselves
    let req_to_1 = out0.iter().find(|e| e.to == 1).unwrap().msg.clone();
    let req_to_0 = out1.iter().find(|e| e.to == 0).unwrap().msg.clone();
    let resp_from_1 = n1.handle(req_to_1, 151, 160);
    let resp_from_0 = n0.handle(req_to_0, 151, 150);
    match &resp_from_1[0].msg {
        Message::RequestVoteResponse { vote_granted, .. } => assert!(!*vote_granted),
        _ => panic!("expected a vote response"),
    }
    match &resp_from_0[0].msg {
        Message::RequestVoteResponse { vote_granted, .. } => assert!(!*vote_granted),
        _ => panic!("expected a vote response"),
    }
    let _ = n0.handle(resp_from_1[0].msg.clone(), 152, 150);
    let _ = n1.handle(resp_from_0[0].msg.clone(), 152, 160);

    // 1-1 split: neither has a majority, both are still candidates
    assert!(matches!(n0.role, Role::Candidate(_)));
    assert!(matches!(n1.role, Role::Candidate(_)));

    // node 0's retry timer fires first; its fresh candidacy reaches node 1
    // before node 1's own deadline
    let out0b = n0.tick(301, 150, HB);
    assert_eq!(n0.state.current_term, 2);
    let req = out0b.iter().find(|e| e.to == 1).unwrap().msg.clone();
    let resp = n1.handle(req, 302, 160);
    match &resp[0].msg {
        Message::RequestVoteResponse { vote_granted, term, .. } => {
            assert!(*vote_granted);
            assert_eq!(*term, 2);
        }
        _ => panic!("expected a vote response"),
    }
    assert!(matches!(n1.role, Role::Follower(_)));
    assert_eq!(n1.state.current_term, 2);

    let _ = n0.handle(resp[0].msg.clone(), 303, 150);
    assert!(is_leader(&n0));
    assert_eq!(n0.state.current_term, 2);
}

#[test]
fn scenario_leader_steps_down_on_higher_term() {
    let mut m = Machine::new(0, 3, 0, 150);
    m.state.current_term = 5;
    m.role = Role::Leader(Leader::new(&m.state, 0));

    let resp = Message::AppendEntriesResponse { term: 7, success: false, from: 1, match_index: 0 };
    let out = m.handle(resp, 10, 150);

    // it adopts the newer term at once and discards its replication progress
    assert_eq!(m.state.current_term, 7);
    assert!(matches!(m.role, Role::Follower(_)));
    assert!(out.is_empty());
}

#[test]
fn single_node_cluster_elects_itself() {
    let mut m = Machine::new(0, 1, 0, 150);
    let out = m.tick(150, 150, HB);
    assert!(is_leader(&m));
    assert_eq!(m.state.current_term, 1);
    assert!(out.is_empty());
}

#[test]
fn five_node_candidate_needs_three_votes() {
    let mut m = Machine::new(0, 5, 0, 150);
    let _ = m.tick(150, 150, HB);
    assert!(matches!(m.role, Role::Candidate(_)));

    // self plus one grant: two of five is no majority
    let g1 = Message::RequestVoteResponse { term: 1, vote_granted: true, from: 1 };
    let _ = m.handle(g1.clone(), 151, 150);
    assert!(matches!(m.role, Role::Candidate(_)));

    // the same voter again does not count twice
    let _ = m.handle(g1, 152, 150);
    assert!(matches!(m.role, Role::Candidate(_)));

    // a refusal counts for nothing
    let refuse = Message::RequestVoteResponse { term: 1, vote_granted: false, from: 3 };
    let _ = m.handle(refuse, 153, 150);
    assert!(matches!(m.role, Role::Candidate(_)));

    // the third distinct grant is the strict majority
    let g2 = Message::RequestVoteResponse { term: 1, vote_granted: true, from: 2 };
    let _ = m.handle(g2, 154, 150);
    assert!(is_leader(&m));
}

#[test]
fn vote_granted_once_per_term() {
    let mut f = Machine::new(2, 3, 0, 500);
    let req_a = Message::RequestVoteRequest {
        term: 1,
        candidate_id: 0,
        last_log_index: 0,
        last_log_term: 0,
    };
    let r1 = f.handle(req_a.clone(), 10, 500);
    match &r1[0].msg {
        Message::RequestVoteResponse { vote_granted, .. } => assert!(*vote_granted),
        _ => panic!("expected a vote response"),
    }
    assert_eq!(f.state.voted_for, Some((1, 0)));

    // another candidate in the same term is refused, however fresh its log
    let req_b = Message::RequestVoteRequest {
        term: 1,
        candidate_id: 1,
        last_log_index: 5,
        last_log_term: 1,
    };
    let r2 = f.handle(req_b, 20, 500);
    match &r2[0].msg {
        Message::RequestVoteResponse { vote_granted, .. } => assert!(!*vote_granted),
        _ => panic!("expected a vote response"),
    }
    assert_eq!(f.state.voted_for, Some((1, 0)));

    // the candidate already voted for may ask again and is granted again
    let r3 = f.handle(req_a, 30, 500);
    match &r3[0].msg {
        Message::RequestVoteResponse { vote_granted, .. } => assert!(*vote_granted),
        _ => panic!("expected a vote response"),
    }
    assert_eq!(f.state.voted_for, Some((1, 0)));
}

#[test]
fn vote_refused_for_stale_log() {
    let mut f = Machine::new(2, 3, 0, 500);
    f.state.current_term = 2;
    f.state.log.entries = vec![entry(1, 1, 1), entry(2, 2, 2)];
    // candidate's last entry has an older term than ours
    let req = Message::RequestVoteRequest {
        term: 2,
        candidate_id: 0,
        last_log_index: 5,
        last_log_term: 1,
    };
    let r = f.handle(req, 10, 500);
    match &r[0].msg {
        Message::RequestVoteResponse { vote_granted, .. } => assert!(!*vote_granted),
        _ => panic!("expected a vote response"),
    }
    // equal last term but a shorter log is refused too
    let req2 = Message::RequestVoteRequest {
        term: 2,
        candidate_id: 0,
        last_log_index: 1,
        last_log_term: 2,
    };
    let r2 = f.handle(req2, 20, 500);
    match &r2[0].msg {
        Message::RequestVoteResponse { vote_granted, .. } => assert!(!*vote_granted),
        _ => panic!("expected a vote response"),
    }
    // equal last term and an equal-or-longer log is granted
    let req3 = Message::RequestVoteRequest {
        term: 2,
        candidate_id: 0,
        last_log_index: 2,
        last_log_term: 2,
    };
    let r3 = f.handle(req3, 30, 500);
    match &r3[0].msg {
        Message::RequestVoteResponse { vote_granted, .. } => assert!(*vote_granted),
        _ => panic!("expected a vote response"),
    }
}

#[test]
fn append_redelivery_is_idempotent() {
    let mut f = Machine::new(1, 3, 0, 500);
    let req = Message::AppendEntriesRequest {
        term: 1,
        leader_id: 0,
        prev_log_index: 0,
        prev_log_term: 0,
        entries: vec![entry(1, 1, 7), entry(1, 2, 8)],
        leader_commit: 1,
    };
    let r1 = f.handle(req.clone(), 10, 500);
    let log_after = f.state.log.entries.clone();
    let commit_after = f.state.commit_index;
    assert_eq!(commit_after, 1);

    let r2 = f.handle(req, 20, 500);
    assert_eq!(f.state.log.entries, log_after);
    assert_eq!(f.state.commit_index, commit_after);
    assert_eq!(r1[0].msg, r2[0].msg);
    match &r2[0].msg {
        Message::AppendEntriesResponse { success, match_index, .. } => {
            assert!(*success);
            assert_eq!(*match_index, 2);
        }
        _ => panic!("expected an append response"),
    }
}

#[test]
fn append_rejected_when_prev_entry_missing_or_mismatched() {
    let mut f = Machine::new(1, 3, 0, 500);
    f.state.current_term = 3;
    f.state.log.entries = vec![entry(1, 1, 1)];
    // prev index beyond the log
    let req = Message::AppendEntriesRequest {
        term: 3,
        leader_id: 0,
        prev_log_index: 5,
        prev_log_term: 1,
        entries: vec![],
        leader_commit: 0,
    };
    let r = f.handle(req, 10, 500);
    match &r[0].msg {
        Message::AppendEntriesResponse { success, .. } => assert!(!*success),
        _ => panic!("expected an append response"),
    }
    // prev term disagrees
    let req2 = Message::AppendEntriesRequest {
        term: 3,
        leader_id: 0,
        prev_log_index: 1,
        prev_log_term: 2,
        entries: vec![],
        leader_commit: 0,
    };
    let r2 = f.handle(req2, 20, 500);
    match &r2[0].msg {
        Message::AppendEntriesResponse { success, .. } => assert!(!*success),
        _ => panic!("expected an append response"),
    }
    // nothing changed on either rejection
    assert_eq!(f.state.log.entries, vec![entry(1, 1, 1)]);
    assert_eq!(f.state.commit_index, 0);
}

#[test]
fn merge_keeps_matching_entries_and_truncates_from_first_conflict() {
    let mut f = Machine::new(1, 3, 0, 500);
    f.state.current_term = 2;
    f.state.log.entries = vec![entry(1, 1, 1), entry(1, 2, 2), entry(2, 3, 3)];

    // incoming terms all match the local entries: the log is left untouched
    let req = Message::AppendEntriesRequest {
        term: 2,
        leader_id: 0,
        prev_log_index: 1,
        prev_log_term: 1,
        entries: vec![entry(1, 2, 99), entry(2, 3, 98)],
        leader_commit: 0,
    };
    let _ = f.handle(req, 10, 500);
    assert_eq!(
        f.state.log.entries,
        vec![entry(1, 1, 1), entry(1, 2, 2), entry(2, 3, 3)]
    );

    // a term conflict at index 2 truncates from there before appending
    let req2 = Message::AppendEntriesRequest {
        term: 2,
        leader_id: 0,
        prev_log_index: 1,
        prev_log_term: 1,
        entries: vec![entry(2, 2, 50)],
        leader_commit: 0,
    };
    let _ = f.handle(req2, 20, 500);
    assert_eq!(f.state.log.entries, vec![entry(1, 1, 1), entry(2, 2, 50)]);
}

#[test]
fn term_and_commit_never_decrease() {
    let mut f = Machine::new(1, 3, 0, 500);
    f.state.current_term = 3;

    // a stale message is dropped without any effect
    let stale = Message::AppendEntriesRequest {
        term: 1,
        leader_id: 0,
        prev_log_index: 0,
        prev_log_term: 0,
        entries: vec![entry(1, 1, 1)],
        leader_commit: 1,
    };
    let out = f.handle(stale, 10, 500);
    assert!(out.is_empty());
    assert_eq!(f.state.current_term, 3);
    assert_eq!(f.state.log.entries, vec![]);

    // an accepted append advances the commit index
    let req = Message::AppendEntriesRequest {
        term: 3,
        leader_id: 0,
        prev_log_index: 0,
        prev_log_term: 0,
        entries: vec![entry(3, 1, 1), entry(3, 2, 2)],
        leader_commit: 2,
    };
    let _ = f.handle(req, 20, 500);
    assert_eq!(f.state.commit_index, 2);

    // a later request with an older leaderCommit cannot pull it back
    let req2 = Message::AppendEntriesRequest {
        term: 3,
        leader_id: 0,
        prev_log_index: 2,
        prev_log_term: 3,
        entries: vec![],
        leader_commit: 0,
    };
    let _ = f.handle(req2, 30, 500);
    assert_eq!(f.state.commit_index, 2);
    assert_eq!(f.state.current_term, 3);
}

#[test]
fn simulation_elects_stable_leader() {
    // three nodes on a virtual clock, messages delayed by 5 time units;
    // distinct deterministic timeouts take the place of randomized ones
    let timeouts: [u64; 3] = [150, 200, 250];
    let mut nodes: Vec<Machine> = (0..3).map(|i| Machine::new(i, 3, 0, timeouts[i])).collect();
    let mut q = MessageQueue::new();
    let mut now: u64 = 0;
    while now < 1000 {
        while let Some(tm) = q.pop_due(now) {
            let to = tm.to;
            let outs = nodes[to].handle(tm.message, now, timeouts[to]);
            for e in outs {
                q.push(now + 5, to, e.to, e.msg);
            }
        }
        for i in 0..3 {
            let outs = nodes[i].tick(now, timeouts[i], 50);
            for e in outs {
                q.push(now + 5, i, e.to, e.msg);
            }
        }
        now += 10;
    }
    // the node with the shortest timeout won the one election of the run, and
    // its heartbeats kept every other timer quiet from then on
    let leaders: Vec<usize> = nodes.iter().filter(|m| is_leader(m)).map(|m| m.state.id).collect();
    assert_eq!(leaders, vec![0]);
    assert!(nodes.iter().all(|m| m.state.current_term == 1));
    assert!(matches!(nodes[1].role, Role::Follower(_)));
    assert!(matches!(nodes[2].role, Role::Follower(_)));
}

#[test]
fn leader_commits_only_entries_of_its_own_term() {
    // a leader of term 2 whose last entry is still of term 1
    let mut leader = Machine::new(0, 3, 0, 150);
    leader.state.current_term = 2;
    leader.state.log.entries = vec![entry(1, 1, 1)];
    leader.role = Role::Leader(Leader::new(&leader.state, 0));

    // a majority confirms the term-1 entry, but counting alone must not
    // commit an entry of an earlier term
    let ok = Message::AppendEntriesResponse { term: 2, success: true, from: 1, match_index: 1 };
    let _ = leader.handle(ok, 10, 150);
    assert_eq!(leader.state.commit_index, 0);
}
