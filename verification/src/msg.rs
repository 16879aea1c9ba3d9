//! Message and log-entry value types exchanged between nodes.

use vstd::prelude::*;

verus! {

/// One entry of the replicated log. `index` is the entry's 1-based position
/// in the log that holds it; `command` is an opaque payload.
#[derive(Debug, Clone, Copy, PartialEq, Eq)]
pub struct LogEntry {
    pub term: u64,
    pub index: usize,
    pub command: u64,
}

/// The messages of the protocol: vote requests and responses, append-entries
/// requests and responses. Messages are immutable values; each one is created
/// by a role and consumed exactly once by the addressed node.
#[derive(Debug, Clone, PartialEq, Eq)]
pub enum Message {
    RequestVoteRequest {
        term: u64,
        candidate_id: usize,
        last_log_index: usize,
        last_log_term: u64,
    },
    RequestVoteResponse { term: u64, vote_granted: bool, from: usize },
    AppendEntriesRequest {
        term: u64,
        leader_id: usize,
        prev_log_index: usize,
        prev_log_term: u64,
        entries: Vec<LogEntry>,
        leader_commit: usize,
    },
    AppendEntriesResponse { term: u64, success: bool, from: usize, match_index: usize },
}

impl Message {
    /// The term the message carries, whatever its variant.
    pub open spec fn term_spec(self) -> u64 {
        match self {
            Message::RequestVoteRequest { term, .. } => term,
            Message::RequestVoteResponse { term, .. } => term,
            Message::AppendEntriesRequest { term, .. } => term,
            Message::AppendEntriesResponse { term, .. } => term,
        }
    }

    pub fn term(&self) -> (t: u64)
        ensures
            t == self.term_spec(),
    {
        match self {
            Message::RequestVoteRequest { term, .. } => *term,
            Message::RequestVoteResponse { term, .. } => *term,
            Message::AppendEntriesRequest { term, .. } => *term,
            Message::AppendEntriesResponse { term, .. } => *term,
        }
    }
}

/// An outgoing message together with its addressee. The scheduler assigns the
/// delivery time and routes the message to `to`.
#[derive(Debug, Clone, PartialEq, Eq)]
pub struct Envelope {
    pub to: usize,
    pub msg: Message,
}

} // verus!
