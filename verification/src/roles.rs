//! The role state machine: Follower, Candidate and Leader, each owning its
//! role-specific ephemeral data and implementing the transition / handle /
//! tick protocol against the shared `NodeState`.

use vstd::prelude::*;
use crate::log::merged_log;
use crate::msg::Envelope;
use crate::msg::LogEntry;
use crate::msg::Message;
use crate::quorum::is_quorum;
use crate::quorum::is_quorum_spec;
use crate::state::NodeState;

verus! {

/// The peer addressed by the k-th envelope of a broadcast sent by `id`:
/// all cluster members except `id`, in ascending order.
pub open spec fn peer_of(id: int, k: int) -> int {
    if k < id {
        k
    } else {
        k + 1
    }
}

/// The consistency check of AppendEntries: the request's previous-entry
/// coordinates match the log — either the request starts at the very
/// beginning, or the log holds an entry at `prev` with term `prev_term`.
pub open spec fn accept_ok(log: Seq<LogEntry>, prev: int, prev_term: u64) -> bool {
    prev == 0 || (1 <= prev <= log.len() && log[prev - 1].term == prev_term)
}

/// The follower's new commit index after accepting an append: raised towards
/// the leader's commit index but never past the log's end, and never lowered
/// below what was already committed (unless the log itself ends below it).
pub open spec fn advanced_commit(old_commit: int, leader_commit: int, last: int) -> int {
    let clamped = if old_commit <= last {
        old_commit
    } else {
        last
    };
    let target = if leader_commit <= last {
        leader_commit
    } else {
        last
    };
    if target > clamped {
        target
    } else {
        clamped
    }
}

/// How many of the peers recorded in `match_index` (positions `0 <= p < upto`,
/// the slot `self_id` excluded) have replicated the log at least through `idx`.
pub open spec fn votes_for_index(match_index: Seq<usize>, self_id: int, upto: int, idx: int) -> int
    decreases upto,
{
    if upto <= 0 {
        0
    } else {
        votes_for_index(match_index, self_id, upto - 1, idx) + if upto - 1 != self_id
            && match_index[upto - 1] >= idx {
            1int
        } else {
            0int
        }
    }
}

/// Whether a leader with per-peer progress `match_index` may commit `idx`:
/// the entry exists, carries the leader's own term (an entry of an earlier
/// term is never committed directly by counting), and a strict majority —
/// the leader itself included — has replicated through `idx`.
pub open spec fn commit_ok(s: NodeState, match_index: Seq<usize>, idx: int) -> bool {
    &&& 1 <= idx <= s.log.last_index_spec()
    &&& s.log.term_at_spec(idx) == s.current_term
    &&& is_quorum_spec(
        1 + votes_for_index(match_index, s.id as int, match_index.len() as int, idx),
        s.cluster_size as int,
    )
}

proof fn lemma_votes_for_index_bound(match_index: Seq<usize>, self_id: int, upto: int, idx: int)
    requires
        upto >= 0,
    ensures
        0 <= votes_for_index(match_index, self_id, upto, idx) <= upto,
    decreases upto,
{
    if upto > 0 {
        lemma_votes_for_index_bound(match_index, self_id, upto - 1, idx);
    }
}

fn contains_id(v: &Vec<usize>, x: usize) -> (b: bool)
    ensures
        b == v@.contains(x),
{
    let mut i: usize = 0;
    while i < v.len()
        invariant
            0 <= i <= v@.len(),
            forall|j: int| 0 <= j < i ==> v@[j] != x,
        decreases v@.len() - i,
    {
        if v[i] == x {
            return true;
        }
        i = i + 1;
    }
    false
}

/// Follower: passively answers leaders and candidates and waits for
/// `election_deadline`; when it passes without contact, stands for election.
#[derive(Debug, Clone, PartialEq, Eq)]
pub struct Follower {
    pub election_deadline: u64,
}

/// Candidate: has voted for itself in `term_started` and collects the grants
/// in `votes_received` until a strict majority is reached or the deadline
/// forces a fresh election.
#[derive(Debug, Clone, PartialEq, Eq)]
pub struct Candidate {
    pub election_deadline: u64,
    pub votes_received: Vec<usize>,
    pub term_started: u64,
}

/// Leader: tracks per-peer replication progress. `next_index[p]` is the next
/// log index to send to peer p, `match_index[p]` the highest index known to
/// be replicated on p. The slots at the leader's own id are unused.
#[derive(Debug, Clone, PartialEq, Eq)]
pub struct Leader {
    pub next_index: Vec<usize>,
    pub match_index: Vec<usize>,
    pub last_heartbeat: u64,
}

/// Exactly one role is installed on a node at any instant.
#[derive(Debug, Clone, PartialEq, Eq)]
pub enum Role {
    Follower(Follower),
    Candidate(Candidate),
    Leader(Leader),
}

impl Candidate {
    pub open spec fn wf(self, s: NodeState) -> bool {
        &&& self.votes_received@.no_duplicates()
        &&& forall|i: int|
            0 <= i < self.votes_received@.len() ==> #[trigger] self.votes_received@[i]
                < s.cluster_size
        &&& self.votes_received@.contains(s.id)
        &&& self.term_started == s.current_term
        &&& !is_quorum_spec(self.votes_received@.len() as int, s.cluster_size as int)
        &&& s.voted_for == Some((s.current_term, s.id))
    }
}

impl Leader {
    pub open spec fn wf(self, s: NodeState) -> bool {
        &&& self.next_index@.len() == s.cluster_size
        &&& self.match_index@.len() == s.cluster_size
        &&& forall|p: int|
            0 <= p < s.cluster_size ==> 1 <= #[trigger] self.next_index@[p]
                <= s.log.last_index_spec() + 1
        &&& s.voted_for == Some((s.current_term, s.id))
    }

    /// The state a leader starts from: every peer is taken to be one entry
    /// behind the end of the log, nothing is known replicated, and the
    /// heartbeat timer starts now.
    pub open spec fn is_init_for(self, s: NodeState, now: u64) -> bool {
        &&& self.next_index@.len() == s.cluster_size
        &&& self.match_index@.len() == s.cluster_size
        &&& forall|p: int|
            0 <= p < s.cluster_size ==> #[trigger] self.next_index@[p] == s.log.last_index_spec()
                + 1
        &&& forall|p: int| 0 <= p < s.cluster_size ==> #[trigger] self.match_index@[p] == 0
        &&& self.last_heartbeat == now
    }
}

impl Role {
    pub open spec fn wf(self, s: NodeState) -> bool {
        match self {
            Role::Follower(_) => true,
            Role::Candidate(c) => c.wf(s),
            Role::Leader(l) => l.wf(s),
        }
    }
}

/// What entering an election does to the node: the term is bumped, the node
/// votes for itself, and it becomes a Candidate — or directly the Leader of
/// the new term when its own vote already is a strict majority (a cluster of
/// one).
pub open spec fn election_started(
    pre: NodeState,
    post: NodeState,
    r: Role,
    now: u64,
    timeout: u64,
) -> bool {
    &&& post.current_term == pre.current_term + 1
    &&& post.voted_for == Some((post.current_term, pre.id))
    &&& post.log == pre.log
    &&& post.commit_index == pre.commit_index
    &&& post.last_applied == pre.last_applied
    &&& post.id == pre.id
    &&& post.cluster_size == pre.cluster_size
    &&& if is_quorum_spec(1, pre.cluster_size as int) {
        r matches Role::Leader(l) && l.is_init_for(post, now)
    } else {
        r matches Role::Candidate(c) && c.term_started == post.current_term
            && c.votes_received@ == seq![pre.id] && c.election_deadline == now + timeout
    }
}

/// Start an election: increment the term, vote for self, and install the new
/// role. The caller broadcasts the vote requests (or the first heartbeats).
pub fn start_election(s: &mut NodeState, now: u64, timeout: u64) -> (r: Role)
    requires
        old(s).wf(),
        old(s).current_term < u64::MAX,
        now + timeout <= u64::MAX,
        old(s).log.entries@.len() < usize::MAX,
    ensures
        final(s).wf(),
        election_started(*old(s), *final(s), r, now, timeout),
        r.wf(*final(s)),
{
    s.current_term = s.current_term + 1;
    s.voted_for = Some((s.current_term, s.id));
    if is_quorum(1, s.cluster_size) {
        Role::Leader(Leader::new(s, now))
    } else {
        let mut votes: Vec<usize> = Vec::new();
        votes.push(s.id);
        proof {
            assert(votes@ =~= seq![s.id]);
            assert(votes@[0] == s.id);
        }
        Role::Candidate(
            Candidate {
                election_deadline: now + timeout,
                votes_received: votes,
                term_started: s.current_term,
            },
        )
    }
}

impl Follower {
    pub fn new(now: u64, timeout: u64) -> (f: Follower)
        requires
            now + timeout <= u64::MAX,
        ensures
            f.election_deadline == now + timeout,
    {
        Follower { election_deadline: now + timeout }
    }

    /// Handle an AppendEntriesRequest carried by the node's current term:
    /// reset the election deadline, run the consistency check, merge the
    /// entries and advance the commit index on acceptance, and always answer
    /// the leader with the outcome.
    pub fn handle_append(
        &mut self,
        s: &mut NodeState,
        leader_id: usize,
        prev_log_index: usize,
        prev_log_term: u64,
        entries: &Vec<LogEntry>,
        leader_commit: usize,
        now: u64,
        timeout: u64,
    ) -> (out: Vec<Envelope>)
        requires
            old(s).wf(),
            old(s).log.entries@.len() + entries@.len() <= usize::MAX,
            now + timeout <= u64::MAX,
        ensures
            final(s).wf(),
            final(self).election_deadline == now + timeout,
            final(s).id == old(s).id,
            final(s).cluster_size == old(s).cluster_size,
            final(s).current_term == old(s).current_term,
            final(s).voted_for == old(s).voted_for,
            accept_ok(old(s).log.entries@, prev_log_index as int, prev_log_term) ==> {
                &&& final(s).log.entries@ == merged_log(
                    old(s).log.entries@,
                    prev_log_index as int,
                    entries@,
                )
                &&& final(s).commit_index == advanced_commit(
                    old(s).commit_index as int,
                    leader_commit as int,
                    final(s).log.last_index_spec(),
                )
            },
            !accept_ok(old(s).log.entries@, prev_log_index as int, prev_log_term) ==> {
                &&& final(s).log == old(s).log
                &&& final(s).commit_index == old(s).commit_index
                &&& final(s).last_applied == old(s).last_applied
            },
            out@.len() == 1,
            out@[0].to == leader_id,
            (out@[0].msg matches Message::AppendEntriesResponse {
                term,
                success,
                from,
                match_index,
            } && term == old(s).current_term && from == old(s).id && success == accept_ok(
                old(s).log.entries@,
                prev_log_index as int,
                prev_log_term,
            ) && (success ==> match_index == prev_log_index + entries@.len()) && (!success
                ==> match_index == 0)),
    {
        self.election_deadline = now + timeout;
        let accept = prev_log_index == 0 || (prev_log_index <= s.log.last_index() && s.log.term_at(
            prev_log_index,
        ) == prev_log_term);
        let mut success: bool = false;
        let mut match_index: usize = 0;
        if accept {
            s.log.apply_append(prev_log_index, entries);
            let last = s.log.last_index();
            if s.commit_index > last {
                s.commit_index = last;
            }
            let target = if leader_commit <= last {
                leader_commit
            } else {
                last
            };
            if target > s.commit_index {
                s.commit_index = target;
            }
            if s.last_applied > s.commit_index {
                s.last_applied = s.commit_index;
            }
            success = true;
            match_index = prev_log_index + entries.len();
        }
        let resp = Message::AppendEntriesResponse {
            term: s.current_term,
            success,
            from: s.id,
            match_index,
        };
        let mut out: Vec<Envelope> = Vec::new();
        out.push(Envelope { to: leader_id, msg: resp });
        out
    }

    /// Handle a RequestVoteRequest carried by the node's current term: grant
    /// it exactly when the vote rule allows, and treat a granted vote as
    /// contact with a live participant by resetting the election deadline.
    pub fn handle_vote(
        &mut self,
        s: &mut NodeState,
        candidate_id: usize,
        last_log_index: usize,
        last_log_term: u64,
        now: u64,
        timeout: u64,
    ) -> (out: Vec<Envelope>)
        requires
            old(s).wf(),
            now + timeout <= u64::MAX,
        ensures
            final(s).wf(),
            final(s).id == old(s).id,
            final(s).cluster_size == old(s).cluster_size,
            final(s).current_term == old(s).current_term,
            final(s).log == old(s).log,
            final(s).commit_index == old(s).commit_index,
            final(s).last_applied == old(s).last_applied,
            ({
                let granted = old(s).vote_ok(
                    old(s).current_term,
                    candidate_id,
                    last_log_index as int,
                    last_log_term,
                );
                &&& (granted ==> final(s).voted_for == Some((old(s).current_term, candidate_id))
                    && final(self).election_deadline == now + timeout)
                &&& (!granted ==> final(s).voted_for == old(s).voted_for && *final(self) == *old(
                    self,
                ))
                &&& out@.len() == 1
                &&& out@[0].to == candidate_id
                &&& (out@[0].msg matches Message::RequestVoteResponse { term, vote_granted, from }
                    && term == old(s).current_term && vote_granted == granted && from == old(s).id)
            }),
    {
        let term = s.current_term;
        let granted = s.decide_vote(term, candidate_id, last_log_index, last_log_term);
        if granted {
            self.election_deadline = now + timeout;
        }
        let resp = Message::RequestVoteResponse { term, vote_granted: granted, from: s.id };
        let mut out: Vec<Envelope> = Vec::new();
        out.push(Envelope { to: candidate_id, msg: resp });
        out
    }

    /// Election timer: when the deadline has passed with no contact, start an
    /// election.
    pub fn tick_state(&self, s: &mut NodeState, now: u64, timeout: u64) -> (r: Option<Role>)
        requires
            old(s).wf(),
            old(s).current_term < u64::MAX,
            now + timeout <= u64::MAX,
            old(s).log.entries@.len() < usize::MAX,
        ensures
            final(s).wf(),
            now < self.election_deadline ==> r is None && *final(s) == *old(s),
            now >= self.election_deadline ==> (r matches Some(role) && election_started(
                *old(s),
                *final(s),
                role,
                now,
                timeout,
            ) && role.wf(*final(s))),
    {
        if now >= self.election_deadline {
            Some(start_election(s, now, timeout))
        } else {
            None
        }
    }

    /// A follower sends nothing of its own accord.
    pub fn tick_msg(&self, _now: u64) -> (out: Vec<Envelope>)
        ensures
            out@.len() == 0,
    {
        Vec::new()
    }
}

impl Candidate {
    /// Record a vote response. A grant for the term this candidacy was
    /// started for adds the voter to the tally; the candidacy turns into
    /// leadership exactly when the tally first exceeds half the cluster.
    pub fn handle_vote_response(
        &mut self,
        s: &NodeState,
        term: u64,
        vote_granted: bool,
        from: usize,
        now: u64,
    ) -> (promoted: Option<Leader>)
        requires
            s.wf(),
            old(self).wf(*s),
            s.log.entries@.len() < usize::MAX,
        ensures
            ({
                let counted = vote_granted && term == old(self).term_started && from
                    < s.cluster_size;
                let votes = if counted && !old(self).votes_received@.contains(from) {
                    old(self).votes_received@.push(from)
                } else {
                    old(self).votes_received@
                };
                &&& final(self).votes_received@ == votes
                &&& final(self).election_deadline == old(self).election_deadline
                &&& final(self).term_started == old(self).term_started
                &&& (promoted is Some <==> is_quorum_spec(
                    votes.len() as int,
                    s.cluster_size as int,
                ))
                &&& (promoted matches Some(l) ==> l.is_init_for(*s, now) && l.wf(*s))
                &&& (promoted is None ==> final(self).wf(*s))
            }),
    {
        if vote_granted && term == self.term_started && from < s.cluster_size {
            if !contains_id(&self.votes_received, from) {
                let ghost v0 = self.votes_received@;
                self.votes_received.push(from);
                proof {
                    let i = choose|i: int| 0 <= i < v0.len() && v0[i] == s.id;
                    assert(self.votes_received@[i] == s.id);
                    assert(self.votes_received@.contains(s.id));
                    assert forall|i: int, j: int|
                        0 <= i < self.votes_received@.len() && 0 <= j
                            < self.votes_received@.len() && i != j implies self.votes_received@[i]
                        != self.votes_received@[j] by {
                        if i == v0.len() {
                            assert(v0[j] != from);
                        } else if j == v0.len() {
                            assert(v0[i] != from);
                        }
                    }
                    assert(self.votes_received@.no_duplicates());
                }
            }
            if is_quorum(self.votes_received.len(), s.cluster_size) {
                return Some(Leader::new(s, now));
            }
        }
        None
    }

    /// The broadcast that opens (or re-opens) this candidacy: a vote request
    /// to every other cluster member, carrying the local log's last
    /// coordinates.
    pub fn request_votes(&self, s: &NodeState) -> (out: Vec<Envelope>)
        requires
            s.wf(),
        ensures
            out@.len() == s.cluster_size - 1,
            forall|k: int|
                0 <= k < out@.len() ==> (#[trigger] out@[k]).to == peer_of(s.id as int, k)
                    && (out@[k].msg matches Message::RequestVoteRequest {
                    term,
                    candidate_id,
                    last_log_index,
                    last_log_term,
                } && term == s.current_term && candidate_id == s.id && last_log_index
                    == s.log.last_index_spec() && last_log_term == s.log.term_at_spec(
                    s.log.last_index_spec(),
                )),
    {
        let mut out: Vec<Envelope> = Vec::new();
        let last_log_index = s.log.last_index();
        let last_log_term = s.log.last_term();
        let mut p: usize = 0;
        while p < s.cluster_size
            invariant
                0 <= p <= s.cluster_size,
                s.id < s.cluster_size,
                out@.len() == (if p <= s.id {
                    p as int
                } else {
                    p - 1
                }),
                last_log_index == s.log.last_index_spec(),
                last_log_term == s.log.term_at_spec(s.log.last_index_spec()),
                forall|k: int|
                    0 <= k < out@.len() ==> (#[trigger] out@[k]).to == peer_of(s.id as int, k)
                        && (out@[k].msg matches Message::RequestVoteRequest {
                        term,
                        candidate_id,
                        last_log_index: lli,
                        last_log_term: llt,
                    } && term == s.current_term && candidate_id == s.id && lli
                        == s.log.last_index_spec() && llt == s.log.term_at_spec(
                        s.log.last_index_spec(),
                    )),
            decreases s.cluster_size - p,
        {
            if p != s.id {
                let msg = Message::RequestVoteRequest {
                    term: s.current_term,
                    candidate_id: s.id,
                    last_log_index,
                    last_log_term,
                };
                out.push(Envelope { to: p, msg });
            }
            p = p + 1;
        }
        out
    }

    /// Election timer: an unresolved election is retried with a fresh term
    /// and a fresh randomized deadline, to break symmetric splits.
    pub fn tick_state(&self, s: &mut NodeState, now: u64, timeout: u64) -> (r: Option<Role>)
        requires
            old(s).wf(),
            old(s).current_term < u64::MAX,
            now + timeout <= u64::MAX,
            old(s).log.entries@.len() < usize::MAX,
        ensures
            final(s).wf(),
            now < self.election_deadline ==> r is None && *final(s) == *old(s),
            now >= self.election_deadline ==> (r matches Some(role) && election_started(
                *old(s),
                *final(s),
                role,
                now,
                timeout,
            ) && role.wf(*final(s))),
    {
        if now >= self.election_deadline {
            Some(start_election(s, now, timeout))
        } else {
            None
        }
    }

    /// A candidate's broadcast is produced on entry, not on the periodic tick.
    pub fn tick_msg(&self, _now: u64) -> (out: Vec<Envelope>)
        ensures
            out@.len() == 0,
    {
        Vec::new()
    }
}

/// The AppendEntriesRequest a leader sends to a peer whose next index is
/// `next_p`: everything from `next_p` through the log's end, preceded by the
/// coordinates of the entry just before `next_p`.
pub open spec fn append_request_ok(m: Message, s: NodeState, next_p: int) -> bool {
    m matches Message::AppendEntriesRequest {
        term,
        leader_id,
        prev_log_index,
        prev_log_term,
        entries,
        leader_commit,
    } && term == s.current_term && leader_id == s.id && prev_log_index == next_p - 1
        && prev_log_term == s.log.term_at_spec(next_p - 1) && entries@ == s.log.entries@.subrange(
        next_p - 1,
        s.log.last_index_spec(),
    ) && leader_commit == s.commit_index
}

impl Leader {
    /// A fresh leader for the current term: every peer's next index starts
    /// one past the end of the log, nothing is known replicated yet.
    pub fn new(s: &NodeState, now: u64) -> (l: Leader)
        requires
            s.wf(),
            s.log.entries@.len() < usize::MAX,
            s.voted_for == Some((s.current_term, s.id)),
        ensures
            l.is_init_for(*s, now),
            l.wf(*s),
    {
        let n = s.cluster_size;
        let start = s.log.last_index() + 1;
        let mut next_index: Vec<usize> = Vec::new();
        let mut match_index: Vec<usize> = Vec::new();
        let mut p: usize = 0;
        while p < n
            invariant
                0 <= p <= n,
                start == s.log.last_index_spec() + 1,
                next_index@.len() == p,
                match_index@.len() == p,
                forall|q: int| 0 <= q < p ==> #[trigger] next_index@[q] == start,
                forall|q: int| 0 <= q < p ==> #[trigger] match_index@[q] == 0,
            decreases n - p,
        {
            next_index.push(start);
            match_index.push(0);
            p = p + 1;
        }
        Leader { next_index, match_index, last_heartbeat: now }
    }

    /// One AppendEntries per peer, each tailored to that peer's next index;
    /// an empty entries list is the heartbeat.
    pub fn heartbeats(&self, s: &NodeState) -> (out: Vec<Envelope>)
        requires
            s.wf(),
            self.wf(*s),
        ensures
            out@.len() == s.cluster_size - 1,
            forall|k: int|
                0 <= k < out@.len() ==> (#[trigger] out@[k]).to == peer_of(s.id as int, k)
                    && append_request_ok(
                    out@[k].msg,
                    *s,
                    self.next_index@[peer_of(s.id as int, k)] as int,
                ),
    {
        let mut out: Vec<Envelope> = Vec::new();
        let last = s.log.last_index();
        let mut p: usize = 0;
        while p < s.cluster_size
            invariant
                0 <= p <= s.cluster_size,
                s.wf(),
                self.wf(*s),
                last == s.log.last_index_spec(),
                out@.len() == (if p <= s.id {
                    p as int
                } else {
                    p - 1
                }),
                forall|k: int|
                    0 <= k < out@.len() ==> (#[trigger] out@[k]).to == peer_of(s.id as int, k)
                        && append_request_ok(
                        out@[k].msg,
                        *s,
                        self.next_index@[peer_of(s.id as int, k)] as int,
                    ),
            decreases s.cluster_size - p,
        {
            if p != s.id {
                let next_p = self.next_index[p];
                let prev_log_index = next_p - 1;
                let prev_log_term = s.log.term_at(prev_log_index);
                let mut entries: Vec<LogEntry> = Vec::new();
                let mut i: usize = prev_log_index;
                while i < last
                    invariant
                        prev_log_index <= i <= last,
                        last == s.log.last_index_spec(),
                        entries@ == s.log.entries@.subrange(prev_log_index as int, i as int),
                    decreases last - i,
                {
                    let e = s.log.entries[i];
                    proof {
                        assert(s.log.entries@.subrange(prev_log_index as int, i as int).push(
                            s.log.entries@[i as int],
                        ) =~= s.log.entries@.subrange(prev_log_index as int, i + 1));
                    }
                    entries.push(e);
                    i = i + 1;
                }
                let msg = Message::AppendEntriesRequest {
                    term: s.current_term,
                    leader_id: s.id,
                    prev_log_index,
                    prev_log_term,
                    entries,
                    leader_commit: s.commit_index,
                };
                out.push(Envelope { to: p, msg });
            }
            p = p + 1;
        }
        out
    }

    /// Record a peer's answer. On success, its match and next indices move to
    /// what it confirmed, and the commit index is recomputed as the highest
    /// index of the leader's own term that a strict majority has replicated.
    /// On failure, the peer's next index backs off by one, to retry with an
    /// earlier prev entry at the next heartbeat.
    pub fn handle_append_response(
        &mut self,
        s: &mut NodeState,
        success: bool,
        from: usize,
        resp_match: usize,
    )
        requires
            old(s).wf(),
            old(self).wf(*old(s)),
            old(s).log.entries@.len() < usize::MAX,
        ensures
            final(s).wf(),
            final(self).wf(*final(s)),
            final(s).id == old(s).id,
            final(s).cluster_size == old(s).cluster_size,
            final(s).current_term == old(s).current_term,
            final(s).voted_for == old(s).voted_for,
            final(s).log == old(s).log,
            final(s).last_applied == old(s).last_applied,
            final(self).last_heartbeat == old(self).last_heartbeat,
            final(s).commit_index >= old(s).commit_index,
            (from >= old(s).cluster_size || from == old(s).id) ==> *final(self) == *old(self)
                && *final(s) == *old(s),
            (from < old(s).cluster_size && from != old(s).id && !success) ==> {
                &&& final(self).match_index@ == old(self).match_index@
                &&& final(self).next_index@ == old(self).next_index@.update(
                    from as int,
                    (if old(self).next_index@[from as int] > 1 {
                        (old(self).next_index@[from as int] - 1) as usize
                    } else {
                        1usize
                    }),
                )
                &&& final(s).commit_index == old(s).commit_index
            },
            (from < old(s).cluster_size && from != old(s).id && success) ==> {
                &&& final(self).match_index@ == old(self).match_index@.update(
                    from as int,
                    resp_match,
                )
                &&& final(self).next_index@ == old(self).next_index@.update(
                    from as int,
                    ((if resp_match as int <= old(s).log.last_index_spec() {
                        resp_match as int
                    } else {
                        old(s).log.last_index_spec()
                    }) + 1) as usize,
                )
                &&& (final(s).commit_index > old(s).commit_index ==> commit_ok(
                    *old(s),
                    final(self).match_index@,
                    final(s).commit_index as int,
                ))
                &&& forall|j: int|
                    final(s).commit_index < j <= old(s).log.last_index_spec() ==> !commit_ok(
                        *old(s),
                        final(self).match_index@,
                        j,
                    )
            },
    {
        if from >= s.cluster_size || from == s.id {
            return ;
        }
        let last = s.log.last_index();
        if !success {
            let cur = self.next_index[from];
            let backed = if cur > 1 {
                cur - 1
            } else {
                1
            };
            self.next_index[from] = backed;
            return ;
        }
        self.match_index[from] = resp_match;
        let clamped = if resp_match <= last {
            resp_match
        } else {
            last
        };
        self.next_index[from] = clamped + 1;
        let ghost s0 = *s;
        let old_commit = s.commit_index;
        let mut idx: usize = last;
        let mut done: bool = false;
        while idx > old_commit && !done
            invariant
                *s == s0,
                old_commit == s0.commit_index,
                s0.wf(),
                last == s0.log.last_index_spec(),
                old_commit <= idx <= last,
                self.match_index@.len() == s0.cluster_size,
                s0.cluster_size < usize::MAX,
                !done ==> forall|j: int|
                    idx < j <= last ==> !commit_ok(s0, self.match_index@, j),
                done ==> commit_ok(s0, self.match_index@, idx as int) && forall|j: int|
                    idx < j <= last ==> !commit_ok(s0, self.match_index@, j),
            decreases idx + (if done {
                0int
            } else {
                1int
            }),
        {
            let t = s.log.term_at(idx);
            let c = count_at_least(&self.match_index, s.id, idx);
            proof {
                lemma_votes_for_index_bound(
                    self.match_index@,
                    s0.id as int,
                    self.match_index@.len() as int,
                    idx as int,
                );
            }
            if t == s.current_term && is_quorum(1 + c, s.cluster_size) {
                done = true;
            } else {
                idx = idx - 1;
            }
        }
        if done {
            s.commit_index = idx;
        }
    }

    /// Heartbeat timer: when the interval has elapsed, re-send AppendEntries
    /// to every peer and re-arm. A leader has no election timeout.
    pub fn tick_msg(&mut self, s: &NodeState, now: u64, heartbeat_interval: u64) -> (out: Vec<
        Envelope,
    >)
        requires
            s.wf(),
            old(self).wf(*s),
        ensures
            final(self).wf(*s),
            final(self).next_index@ == old(self).next_index@,
            final(self).match_index@ == old(self).match_index@,
            ({
                let due = now >= old(self).last_heartbeat + heartbeat_interval;
                &&& (!due ==> out@.len() == 0 && *final(self) == *old(self))
                &&& (due ==> final(self).last_heartbeat == now && out@.len() == s.cluster_size - 1
                    && forall|k: int|
                    0 <= k < out@.len() ==> (#[trigger] out@[k]).to == peer_of(s.id as int, k)
                        && append_request_ok(
                        out@[k].msg,
                        *s,
                        old(self).next_index@[peer_of(s.id as int, k)] as int,
                    ))
            }),
    {
        let due = now >= self.last_heartbeat && now - self.last_heartbeat >= heartbeat_interval;
        if due {
            let out = self.heartbeats(s);
            self.last_heartbeat = now;
            out
        } else {
            Vec::new()
        }
    }
}

/// Redelivering an already-accepted AppendEntriesRequest (same match point,
/// same entries, same leader commit) changes nothing: the consistency check
/// passes again, the merge leaves the log as it is, and the commit index
/// stays where the first delivery put it — so the repeated response succeeds
/// with the same state behind it.
pub proof fn lemma_append_idempotent(
    log: Seq<LogEntry>,
    commit: int,
    prev: int,
    prev_term: u64,
    entries: Seq<LogEntry>,
    leader_commit: int,
)
    requires
        0 <= prev <= log.len(),
        accept_ok(log, prev, prev_term),
    ensures
        ({
            let log1 = merged_log(log, prev, entries);
            let commit1 = advanced_commit(commit, leader_commit, log1.len() as int);
            &&& accept_ok(log1, prev, prev_term)
            &&& merged_log(log1, prev, entries) == log1
            &&& advanced_commit(commit1, leader_commit, log1.len() as int) == commit1
        }),
{
    crate::log::lemma_merged_log(log, prev, entries);
    crate::log::lemma_merge_idempotent(log, prev, entries);
    crate::log::lemma_match_len(log, prev, entries);
    let log1 = merged_log(log, prev, entries);
    if prev >= 1 {
        assert(log1[prev - 1] == log[prev - 1]);
    }
}

fn count_at_least(match_index: &Vec<usize>, self_id: usize, idx: usize) -> (c: usize)
    ensures
        c == votes_for_index(match_index@, self_id as int, match_index@.len() as int, idx as int),
        c <= match_index@.len(),
{
    let mut c: usize = 0;
    let mut p: usize = 0;
    while p < match_index.len()
        invariant
            0 <= p <= match_index@.len(),
            c <= p,
            c == votes_for_index(match_index@, self_id as int, p as int, idx as int),
        decreases match_index@.len() - p,
    {
        if p != self_id && match_index[p] >= idx {
            c = c + 1;
        }
        p = p + 1;
    }
    c
}

} // verus!
