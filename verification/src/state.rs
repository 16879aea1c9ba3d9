//! Per-node state that outlives every role transition: the persistent term,
//! vote and log, and the volatile commit bookkeeping.

use vstd::prelude::*;
use crate::log::Log;

verus! {

/// State owned by one node. `voted_for` records at most one granted vote per
/// term, as the pair (term, candidate). `commit_index` is the highest log
/// index known to be replicated on a majority; `last_applied` trails it.
#[derive(Debug, Clone, PartialEq, Eq)]
pub struct NodeState {
    pub id: usize,
    pub cluster_size: usize,
    pub current_term: u64,
    pub voted_for: Option<(u64, usize)>,
    pub log: Log,
    pub commit_index: usize,
    pub last_applied: usize,
}

impl NodeState {
    pub open spec fn wf(self) -> bool {
        &&& self.cluster_size >= 1
        &&& self.cluster_size < usize::MAX
        &&& self.id < self.cluster_size
        &&& self.log.wf()
        &&& self.commit_index <= self.log.last_index_spec()
        &&& self.last_applied <= self.commit_index
        &&& (self.voted_for matches Some(v) ==> v.0 <= self.current_term)
    }

    /// Whether a vote request at `term` (the node's current term) from
    /// `candidate` with the given last-entry coordinates must be granted:
    /// no different vote already granted in this term, and the candidate's
    /// log at least as up-to-date as the local one.
    pub open spec fn vote_ok(
        self,
        term: u64,
        candidate: usize,
        last_log_index: int,
        last_log_term: u64,
    ) -> bool {
        let own_last_term = self.log.term_at_spec(self.log.last_index_spec());
        &&& match self.voted_for {
            None => true,
            Some(v) => v.0 < term || (v.0 == term && v.1 == candidate),
        }
        &&& (last_log_term > own_last_term || (last_log_term == own_last_term && last_log_index
            >= self.log.last_index_spec()))
    }

    pub fn new(id: usize, cluster_size: usize) -> (s: NodeState)
        requires
            cluster_size >= 1,
            cluster_size < usize::MAX,
            id < cluster_size,
        ensures
            s.wf(),
            s.id == id,
            s.cluster_size == cluster_size,
            s.current_term == 0,
            s.voted_for is None,
            s.log.entries@.len() == 0,
            s.commit_index == 0,
            s.last_applied == 0,
    {
        NodeState {
            id,
            cluster_size,
            current_term: 0,
            voted_for: None,
            log: Log::new(),
            commit_index: 0,
            last_applied: 0,
        }
    }

    /// Decide a vote request carried by the node's current term: grant it
    /// exactly when `vote_ok` holds, recording the vote; otherwise leave the
    /// vote untouched. Nothing else of the state changes.
    pub fn decide_vote(
        &mut self,
        term: u64,
        candidate_id: usize,
        last_log_index: usize,
        last_log_term: u64,
    ) -> (granted: bool)
        requires
            old(self).wf(),
            term == old(self).current_term,
        ensures
            final(self).wf(),
            granted == old(self).vote_ok(term, candidate_id, last_log_index as int, last_log_term),
            granted ==> final(self).voted_for == Some((term, candidate_id)),
            !granted ==> final(self).voted_for == old(self).voted_for,
            final(self).id == old(self).id,
            final(self).cluster_size == old(self).cluster_size,
            final(self).current_term == old(self).current_term,
            final(self).log == old(self).log,
            final(self).commit_index == old(self).commit_index,
            final(self).last_applied == old(self).last_applied,
    {
        let vote_free = match self.voted_for {
            None => true,
            Some((t, c)) => t < term || (t == term && c == candidate_id),
        };
        let own_last_index = self.log.last_index();
        let own_last_term = self.log.last_term();
        let up_to_date = last_log_term > own_last_term || (last_log_term == own_last_term
            && last_log_index >= own_last_index);
        if vote_free && up_to_date {
            self.voted_for = Some((term, candidate_id));
            true
        } else {
            false
        }
    }
}

/// Vote uniqueness: once a node has granted its vote for a term, a request
/// from any other candidate in the same term is refused, and the recorded
/// vote can only be overwritten by a request of a strictly higher term.
pub proof fn lemma_vote_unique(s: NodeState, t: u64, c1: usize, c2: usize, li: int, lt: u64)
    requires
        s.wf(),
        s.voted_for == Some((t, c1)),
        c2 != c1,
    ensures
        !s.vote_ok(t, c2, li, lt),
{
}

} // verus!
