//! The node: one installed role plus the node state, driven through exactly
//! two entry points — `handle` for a delivered message and `tick` for the
//! periodic timer check.

use vstd::prelude::*;
use crate::msg::Envelope;
use crate::msg::Message;
use crate::roles::Follower;
use crate::roles::accept_ok;
use crate::roles::advanced_commit;
use crate::roles::append_request_ok;
use crate::roles::Role;
use crate::roles::election_started;
use crate::roles::peer_of;
use crate::roles::commit_ok;
use crate::quorum::is_quorum_spec;
use crate::log::merged_log;
use crate::state::NodeState;

verus! {

/// One simulated cluster participant.
#[derive(Debug, Clone, PartialEq, Eq)]
pub struct Machine {
    pub role: Role,
    pub state: NodeState,
}

impl Machine {
    pub open spec fn wf(self) -> bool {
        &&& self.state.wf()
        &&& self.role.wf(self.state)
    }

    /// The machine-limit bound `handle` needs for the one message kind that
    /// can grow the log.
    pub open spec fn fits(self, msg: Message) -> bool {
        msg matches Message::AppendEntriesRequest { entries, .. }
            ==> self.state.log.entries@.len() + entries@.len() <= usize::MAX
    }

    pub fn new(id: usize, cluster_size: usize, now: u64, timeout: u64) -> (m: Machine)
        requires
            cluster_size >= 1,
            cluster_size < usize::MAX,
            id < cluster_size,
            now + timeout <= u64::MAX,
        ensures
            m.wf(),
            m.state.id == id,
            m.state.cluster_size == cluster_size,
            m.state.current_term == 0,
            m.state.voted_for is None,
            m.state.log.entries@.len() == 0,
            m.state.commit_index == 0,
            m.state.last_applied == 0,
            m.role matches Role::Follower(f) && f.election_deadline == now + timeout,
    {
        Machine {
            role: Role::Follower(Follower::new(now, timeout)),
            state: NodeState::new(id, cluster_size),
        }
    }

    pub fn id(&self) -> (r: usize)
        ensures
            r == self.state.id,
    {
        self.state.id
    }

    /// Deliver one message. A message of a strictly older term is dropped
    /// without any effect; one of a strictly newer term makes the node adopt
    /// that term and step down to Follower before the message is handled; a
    /// candidate also steps down when a leader of its own term speaks. The
    /// surviving message is then handled by the installed role.
    pub fn handle(&mut self, msg: Message, now: u64, timeout: u64) -> (out: Vec<Envelope>)
        requires
            old(self).wf(),
            now + timeout <= u64::MAX,
            old(self).state.log.entries@.len() < usize::MAX,
            old(self).fits(msg),
        ensures
            final(self).wf(),
            final(self).state.id == old(self).state.id,
            final(self).state.cluster_size == old(self).state.cluster_size,
            // terms only ever rise, exactly to the message's term when that is newer
            final(self).state.current_term == (if msg.term_spec() > old(self).state.current_term {
                msg.term_spec()
            } else {
                old(self).state.current_term
            }),
            // a stale message has no effect at all
            msg.term_spec() < old(self).state.current_term ==> *final(self) == *old(self)
                && out@.len() == 0,
            // discovering a newer term forces a step-down to Follower
            msg.term_spec() > old(self).state.current_term ==> final(self).role is Follower,
            // a leader of the current term is never displaced by a message of that term
            (msg.term_spec() <= old(self).state.current_term && old(self).role is Leader)
                ==> final(self).role is Leader,
            // a candidate yields to a leader already elected for its term
            (msg.term_spec() == old(self).state.current_term && old(self).role is Candidate
                && msg matches Message::AppendEntriesRequest { .. }) ==> final(self).role is Follower,
            // a vote granted in a term is never re-granted to someone else
            (old(self).state.voted_for matches Some(v) && v.0 == final(self).state.current_term)
                ==> final(self).state.voted_for == old(self).state.voted_for,
            // the commit index never falls, except by clamping to a log that an
            // accepted append truncated below it
            final(self).state.commit_index >= old(self).state.commit_index || final(self).state.commit_index == final(self).state.log.last_index_spec(),
            // a surviving vote request is answered exactly by the vote rule,
            // judged in the adopted term
            msg matches Message::RequestVoteRequest { term, candidate_id, last_log_index, last_log_term }
                ==> term >= old(self).state.current_term ==> {
                &&& out@.len() == 1
                &&& out@[0].to == candidate_id
                &&& (out@[0].msg matches Message::RequestVoteResponse {
                    term: response_term,
                    vote_granted,
                    from,
                } && response_term == final(self).state.current_term && from == old(self).state.id
                    && vote_granted == old(self).state.vote_ok(
                    final(self).state.current_term,
                    candidate_id,
                    last_log_index as int,
                    last_log_term,
                ) && (vote_granted ==> final(self).state.voted_for == Some(
                    (final(self).state.current_term, candidate_id),
                )) && (!vote_granted ==> final(self).state.voted_for == old(self).state.voted_for))
                &&& final(self).state.log == old(self).state.log
                &&& final(self).state.commit_index == old(self).state.commit_index
                // a follower stays one, and treats a granted vote as contact
                // with a live participant by re-arming its election timer
                &&& ((old(self).role is Follower || term > old(self).state.current_term) ==> (
                final(self).role matches Role::Follower(f) && (old(self).state.vote_ok(
                    final(self).state.current_term,
                    candidate_id,
                    last_log_index as int,
                    last_log_term,
                ) ==> f.election_deadline == now + timeout)))
            },
            // a surviving append request (except to a leader of the same term,
            // which election safety rules out) is checked against the log,
            // merged on success, and always answered
            msg matches Message::AppendEntriesRequest {
                term,
                leader_id,
                prev_log_index,
                prev_log_term,
                entries,
                leader_commit,
            } ==> (term >= old(self).state.current_term && !(old(self).role is Leader && term
                == old(self).state.current_term)) ==> {
                &&& (final(self).role matches Role::Follower(f) && f.election_deadline == now
                    + timeout)
                &&& out@.len() == 1
                &&& out@[0].to == leader_id
                &&& (out@[0].msg matches Message::AppendEntriesResponse {
                    term: response_term,
                    success,
                    from,
                    match_index,
                } && response_term == final(self).state.current_term && from == old(self).state.id
                    && success == accept_ok(
                    old(self).state.log.entries@,
                    prev_log_index as int,
                    prev_log_term,
                ) && (success ==> final(self).state.log.entries@ == merged_log(
                    old(self).state.log.entries@,
                    prev_log_index as int,
                    entries@,
                ) && match_index == prev_log_index + entries@.len() && final(self).state.commit_index == advanced_commit(
                    old(self).state.commit_index as int,
                    leader_commit as int,
                    final(self).state.log.last_index_spec(),
                )) && (!success ==> final(self).state.log == old(self).state.log && final(self).state.commit_index == old(self).state.commit_index))
            },
            // a follower never leaves the role inside a delivery
            old(self).role is Follower ==> final(self).role is Follower,
            // a candidate is displaced only by a same-term leader's append,
            // by a newer term, or by the vote response that elects it
            (old(self).role is Candidate && msg.term_spec() == old(self).state.current_term && !(
            msg matches Message::AppendEntriesRequest { .. }) && !(
            msg matches Message::RequestVoteResponse { .. })) ==> final(self).role == old(self).role,
            // response messages never touch the log or the recorded vote, and
            // never take the commit index back
            msg matches Message::RequestVoteResponse { .. } ==> final(self).state.log == old(self).state.log && final(self).state.voted_for == old(self).state.voted_for && final(self).state.commit_index == old(self).state.commit_index && final(self).state.last_applied
                == old(self).state.last_applied,
            msg matches Message::AppendEntriesResponse { .. } ==> final(self).state.log == old(self).state.log && final(self).state.voted_for == old(self).state.voted_for && final(self).state.commit_index >= old(self).state.commit_index && final(self).state.last_applied
                == old(self).state.last_applied,
            // a candidate counts a current-term grant from a cluster member it
            // has not yet counted, and is elected exactly when the tally first
            // exceeds half the cluster
            old(self).role matches Role::Candidate(c)
                ==> msg matches Message::RequestVoteResponse { term, vote_granted, from } ==> term
                == old(self).state.current_term ==> {
                let counted = vote_granted && term == c.term_started && from < old(self).state.cluster_size;
                let votes = if counted && !c.votes_received@.contains(from) {
                    c.votes_received@.push(from)
                } else {
                    c.votes_received@
                };
                &&& (final(self).role is Leader <==> is_quorum_spec(
                    votes.len() as int,
                    old(self).state.cluster_size as int,
                ))
                &&& (final(self).role matches Role::Candidate(c2) ==> c2.votes_received@ == votes
                    && c2.term_started == c.term_started && c2.election_deadline
                    == c.election_deadline)
                &&& (final(self).role is Leader || final(self).role is Candidate)
                &&& (final(self).role matches Role::Leader(l) ==> l.is_init_for(
                    final(self).state,
                    now,
                ))
                &&& final(self).state == old(self).state
            },
            // a leader answered by a peer of its own term moves that peer's
            // match and next indices on success (backing next off by one on
            // failure) and re-commits: the new commit index is the highest
            // index of the leader's own term that a strict majority of the
            // cluster, the leader itself included, has replicated
            old(self).role matches Role::Leader(l)
                ==> msg matches Message::AppendEntriesResponse { term, success, from, match_index }
                ==> term == old(self).state.current_term ==> {
                let n = old(self).state.cluster_size;
                let id = old(self).state.id;
                let last = old(self).state.log.last_index_spec();
                &&& (final(self).role matches Role::Leader(l2) && {
                    &&& l2.last_heartbeat == l.last_heartbeat
                    &&& ((from >= n || from == id) ==> l2 == l && final(self).state.commit_index
                        == old(self).state.commit_index)
                    &&& ((from < n && from != id && !success) ==> l2.match_index@ == l.match_index@
                        && l2.next_index@ == l.next_index@.update(
                        from as int,
                        (if l.next_index@[from as int] > 1 {
                            (l.next_index@[from as int] - 1) as usize
                        } else {
                            1usize
                        }),
                    ) && final(self).state.commit_index == old(self).state.commit_index)
                    &&& ((from < n && from != id && success) ==> l2.match_index@
                        == l.match_index@.update(from as int, match_index) && l2.next_index@
                        == l.next_index@.update(
                        from as int,
                        ((if match_index as int <= last {
                            match_index as int
                        } else {
                            last
                        }) + 1) as usize,
                    ) && (final(self).state.commit_index > old(self).state.commit_index
                        ==> commit_ok(
                        old(self).state,
                        l2.match_index@,
                        final(self).state.commit_index as int,
                    )) && (forall|j: int|
                        final(self).state.commit_index < j <= last ==> !commit_ok(
                            old(self).state,
                            l2.match_index@,
                            j,
                        )))
                })
            },
            // responses draw no reply; the only broadcast a response can cause
            // is the elected leader's first round of heartbeats
            msg matches Message::AppendEntriesResponse { .. } ==> out@.len() == 0,
            msg matches Message::RequestVoteResponse { .. } ==> ((old(self).role is Candidate
                && final(self).role is Leader) || out@.len() == 0),
            (old(self).role is Candidate && final(self).role is Leader) ==> out@.len() == final(self).state.cluster_size - 1 && forall|k: int|
                0 <= k < out@.len() ==> (#[trigger] out@[k]).to == peer_of(
                    final(self).state.id as int,
                    k,
                ) && append_request_ok(
                    out@[k].msg,
                    final(self).state,
                    final(self).state.log.last_index_spec() + 1,
                ),
    {
        let mterm = msg.term();
        if mterm < self.state.current_term {
            return Vec::new();
        }
        if mterm > self.state.current_term {
            self.state.current_term = mterm;
            self.role = Role::Follower(Follower::new(now, timeout));
        }
        let candidate_hears_leader = match (&self.role, &msg) {
            (Role::Candidate(_), Message::AppendEntriesRequest { .. }) => true,
            _ => false,
        };
        if candidate_hears_leader {
            self.role = Role::Follower(Follower::new(now, timeout));
        }
        let mut new_role: Option<Role> = None;
        let mut out: Vec<Envelope> = Vec::new();
        match (&mut self.role, msg) {
            (
                Role::Follower(f),
                Message::AppendEntriesRequest {
                    leader_id,
                    prev_log_index,
                    prev_log_term,
                    entries,
                    leader_commit,
                    ..
                },
            ) => {
                out = f.handle_append(
                    &mut self.state,
                    leader_id,
                    prev_log_index,
                    prev_log_term,
                    &entries,
                    leader_commit,
                    now,
                    timeout,
                );
            },
            (
                Role::Follower(f),
                Message::RequestVoteRequest { candidate_id, last_log_index, last_log_term, .. },
            ) => {
                out = f.handle_vote(
                    &mut self.state,
                    candidate_id,
                    last_log_index,
                    last_log_term,
                    now,
                    timeout,
                );
            },
            (Role::Candidate(c), Message::RequestVoteResponse { term, vote_granted, from }) => {
                if let Some(l) = c.handle_vote_response(&self.state, term, vote_granted, from, now)
                    {
                    new_role = Some(Role::Leader(l));
                }
            },
            (
                Role::Candidate(_),
                Message::RequestVoteRequest { candidate_id, last_log_index, last_log_term, .. },
            ) => {
                let term = self.state.current_term;
                let granted = self.state.decide_vote(
                    term,
                    candidate_id,
                    last_log_index,
                    last_log_term,
                );
                out.push(
                    Envelope {
                        to: candidate_id,
                        msg: Message::RequestVoteResponse {
                            term,
                            vote_granted: granted,
                            from: self.state.id,
                        },
                    },
                );
            },
            (
                Role::Leader(_),
                Message::RequestVoteRequest { candidate_id, last_log_index, last_log_term, .. },
            ) => {
                let term = self.state.current_term;
                let granted = self.state.decide_vote(
                    term,
                    candidate_id,
                    last_log_index,
                    last_log_term,
                );
                out.push(
                    Envelope {
                        to: candidate_id,
                        msg: Message::RequestVoteResponse {
                            term,
                            vote_granted: granted,
                            from: self.state.id,
                        },
                    },
                );
            },
            (Role::Leader(l), Message::AppendEntriesResponse { success, from, match_index, .. }) => {
                l.handle_append_response(&mut self.state, success, from, match_index);
            },
            _ => {},
        }
        if let Some(r) = new_role {
            self.role = r;
            if let Role::Leader(l) = &self.role {
                out = l.heartbeats(&self.state);
            }
        }
        out
    }

    /// Advance simulated time: a follower or candidate whose election
    /// deadline has passed starts an election (broadcasting vote requests, or
    /// immediately leading a cluster of one); a leader re-sends AppendEntries
    /// once its heartbeat interval has elapsed.
    pub fn tick(&mut self, now: u64, timeout: u64, heartbeat_interval: u64) -> (out: Vec<Envelope>)
        requires
            old(self).wf(),
            old(self).state.current_term < u64::MAX,
            now + timeout <= u64::MAX,
            old(self).state.log.entries@.len() < usize::MAX,
        ensures
            final(self).wf(),
            final(self).state.id == old(self).state.id,
            final(self).state.cluster_size == old(self).state.cluster_size,
            final(self).state.log == old(self).state.log,
            final(self).state.commit_index == old(self).state.commit_index,
            final(self).state.current_term == old(self).state.current_term || final(self).state.current_term == old(self).state.current_term + 1,
            // a leader only ever heartbeats; its state is untouched
            old(self).role is Leader ==> final(self).state == old(self).state && final(self).role is Leader,
            // on an elapsed heartbeat interval it re-sends AppendEntries to
            // every peer, tailored to that peer's next index; earlier, nothing
            old(self).role matches Role::Leader(l) ==> (now < l.last_heartbeat
                + heartbeat_interval ==> *final(self) == *old(self) && out@.len() == 0),
            old(self).role matches Role::Leader(l) ==> (now >= l.last_heartbeat
                + heartbeat_interval ==> out@.len() == old(self).state.cluster_size - 1 && forall|
                k: int,
            |
                0 <= k < out@.len() ==> (#[trigger] out@[k]).to == peer_of(
                    old(self).state.id as int,
                    k,
                ) && append_request_ok(
                    out@[k].msg,
                    old(self).state,
                    l.next_index@[peer_of(old(self).state.id as int, k)] as int,
                )),
            // a follower or candidate whose deadline has not passed is untouched
            (old(self).role matches Role::Follower(f) && now < f.election_deadline) ==> *final(self) == *old(self) && out@.len() == 0,
            (old(self).role matches Role::Candidate(c) && now < c.election_deadline) ==> *final(self) == *old(self) && out@.len() == 0,
            // a passed deadline starts an election
            (old(self).role matches Role::Follower(f) && now >= f.election_deadline)
                ==> election_started(
                old(self).state,
                final(self).state,
                final(self).role,
                now,
                timeout,
            ),
            (old(self).role matches Role::Candidate(c) && now >= c.election_deadline)
                ==> election_started(
                old(self).state,
                final(self).state,
                final(self).role,
                now,
                timeout,
            ),
            // an election that immediately yields a leader (a cluster of one)
            // returns that leader's first heartbeat broadcast — to no one
            (final(self).state.current_term == old(self).state.current_term + 1 && final(self).role is Leader) ==> out@.len() == final(self).state.cluster_size - 1 && forall|
                k: int,
            |
                0 <= k < out@.len() ==> (#[trigger] out@[k]).to == peer_of(
                    final(self).state.id as int,
                    k,
                ) && append_request_ok(
                    out@[k].msg,
                    final(self).state,
                    final(self).state.log.last_index_spec() + 1,
                ),
            // a fresh candidate asks every other member for its vote
            (final(self).state.current_term == old(self).state.current_term + 1 && final(self).role matches Role::Candidate(c)) ==> out@.len() == final(self).state.cluster_size - 1
                && forall|k: int|
                0 <= k < out@.len() ==> (#[trigger] out@[k]).to == peer_of(
                    final(self).state.id as int,
                    k,
                ) && (out@[k].msg matches Message::RequestVoteRequest {
                    term,
                    candidate_id,
                    last_log_index,
                    last_log_term,
                } && term == final(self).state.current_term && candidate_id == final(self).state.id && last_log_index == final(self).state.log.last_index_spec()
                    && last_log_term == final(self).state.log.term_at_spec(
                    final(self).state.log.last_index_spec(),
                )),
    {
        let mut new_role: Option<Role> = None;
        let mut out: Vec<Envelope> = Vec::new();
        match &mut self.role {
            Role::Follower(f) => {
                new_role = f.tick_state(&mut self.state, now, timeout);
            },
            Role::Candidate(c) => {
                new_role = c.tick_state(&mut self.state, now, timeout);
            },
            Role::Leader(l) => {
                out = l.tick_msg(&self.state, now, heartbeat_interval);
            },
        }
        if let Some(r) = new_role {
            self.role = r;
            match &self.role {
                Role::Candidate(c) => {
                    out = c.request_votes(&self.state);
                },
                Role::Leader(l) => {
                    out = l.heartbeats(&self.state);
                },
                Role::Follower(_) => {},
            }
        }
        out
    }
}

} // verus!
