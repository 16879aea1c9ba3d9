//! The replicated log: an ordered, 1-indexed sequence of entries whose only
//! structural edits are the truncate-and-append performed by a follower that
//! accepts a leader's append-entries instruction.

use vstd::prelude::*;
use crate::msg::LogEntry;

verus! {

/// Number of leading entries of `entries` that agree, term by term, with the
/// entries of `log` at positions `prev`, `prev + 1`, ... (0-based positions).
pub open spec fn match_len(log: Seq<LogEntry>, prev: int, entries: Seq<LogEntry>) -> int
    decreases entries.len(),
{
    if entries.len() > 0 && 0 <= prev < log.len() && log[prev].term == entries[0].term {
        1 + match_len(log, prev + 1, entries.skip(1))
    } else {
        0
    }
}

/// `entries` rewritten so that the entry at position j carries the 1-based
/// log index `base + j + 1`.
pub open spec fn reindexed(entries: Seq<LogEntry>, base: int) -> Seq<LogEntry> {
    Seq::new(
        entries.len(),
        |j: int|
            LogEntry {
                term: entries[j].term,
                index: (base + j + 1) as usize,
                command: entries[j].command,
            },
    )
}

/// The log that results from accepting AppendEntries with match point `prev`:
/// entries that already agree are kept, the suffix from the first term
/// conflict (or from the end of the log) is dropped, and the remaining
/// incoming entries are appended. When every incoming entry already agrees,
/// the log is left untouched, longer suffixes included.
pub open spec fn merged_log(log: Seq<LogEntry>, prev: int, entries: Seq<LogEntry>) -> Seq<
    LogEntry,
> {
    let k = match_len(log, prev, entries);
    if k == entries.len() {
        log
    } else {
        log.take(prev + k) + reindexed(entries.skip(k), prev + k)
    }
}

/// Basic bounds and meaning of `match_len`: it counts agreeing entries and
/// stops exactly at the first disagreement or at the end of either sequence.
pub proof fn lemma_match_len(log: Seq<LogEntry>, prev: int, entries: Seq<LogEntry>)
    requires
        0 <= prev <= log.len(),
    ensures
        0 <= match_len(log, prev, entries) <= entries.len(),
        prev + match_len(log, prev, entries) <= log.len(),
        forall|j: int|
            0 <= j < match_len(log, prev, entries) ==> log[prev + j].term == (
            #[trigger] entries[j]).term,
        match_len(log, prev, entries) < entries.len() ==> (prev + match_len(log, prev, entries)
            == log.len() || log[prev + match_len(log, prev, entries)].term != entries[match_len(
            log,
            prev,
            entries,
        )].term),
    decreases entries.len(),
{
    if entries.len() > 0 && prev < log.len() && log[prev].term == entries[0].term {
        lemma_match_len(log, prev + 1, entries.skip(1));
        let k = match_len(log, prev, entries);
        assert forall|j: int| 0 <= j < k implies log[prev + j].term == (
        #[trigger] entries[j]).term by {
            if j > 0 {
                assert(entries.skip(1)[j - 1] == entries[j]);
            }
        }
        if k < entries.len() {
            assert(entries.skip(1)[k - 1] == entries[k]);
        }
    }
}

/// One unfolding step: when the first `c` entries all agree, the match length
/// is `c` plus the match length of the remainder.
pub proof fn lemma_match_len_step(log: Seq<LogEntry>, prev: int, entries: Seq<LogEntry>)
    requires
        0 <= prev < log.len(),
        entries.len() > 0,
        log[prev].term == entries[0].term,
    ensures
        match_len(log, prev, entries) == 1 + match_len(log, prev + 1, entries.skip(1)),
{
}

/// When every incoming entry agrees with the log, the match length is the
/// whole of `entries`.
pub proof fn lemma_match_len_full(log: Seq<LogEntry>, prev: int, entries: Seq<LogEntry>)
    requires
        0 <= prev,
        prev + entries.len() <= log.len(),
        forall|j: int| 0 <= j < entries.len() ==> log[prev + j].term == (#[trigger] entries[j]).term,
    ensures
        match_len(log, prev, entries) == entries.len(),
    decreases entries.len(),
{
    if entries.len() > 0 {
        assert(log[prev].term == entries[0].term);
        assert forall|j: int| 0 <= j < entries.skip(1).len() implies log[prev + 1 + j].term == (
        #[trigger] entries.skip(1)[j]).term by {
            assert(entries.skip(1)[j] == entries[j + 1]);
            assert(log[prev + (j + 1)].term == entries[j + 1].term);
        }
        lemma_match_len_full(log, prev + 1, entries.skip(1));
    }
}

/// What the merge produces: the old log is kept up to the match point, the
/// merged log carries exactly the incoming terms over the whole appended
/// range, and it is at least `prev + entries.len()` long.
pub proof fn lemma_merged_log(log: Seq<LogEntry>, prev: int, entries: Seq<LogEntry>)
    requires
        0 <= prev <= log.len(),
    ensures
        merged_log(log, prev, entries).len() >= prev + entries.len(),
        match_len(log, prev, entries) == entries.len() ==> merged_log(log, prev, entries) == log,
        match_len(log, prev, entries) < entries.len() ==> merged_log(log, prev, entries).len()
            == prev + entries.len(),
        forall|i: int|
            0 <= i < prev + match_len(log, prev, entries) ==> #[trigger] merged_log(
                log,
                prev,
                entries,
            )[i] == log[i],
        forall|j: int|
            0 <= j < entries.len() ==> merged_log(log, prev, entries)[prev + j].term == (
            #[trigger] entries[j]).term,
{
    let k = match_len(log, prev, entries);
    lemma_match_len(log, prev, entries);
    let m = merged_log(log, prev, entries);
    if k == entries.len() {
    } else {
        assert(m.len() == prev + k + (entries.len() - k));
        assert forall|j: int| 0 <= j < entries.len() implies m[prev + j].term == (
        #[trigger] entries[j]).term by {
            if j < k {
                assert(m[prev + j] == log.take(prev + k)[prev + j]);
            } else {
                assert(m[prev + j] == reindexed(entries.skip(k), prev + k)[j - k]);
                assert(entries.skip(k)[j - k] == entries[j]);
            }
        }
    }
}

/// The replication step of the log-matching property: when a follower whose
/// log already agrees with the sender's below the match point accepts the
/// sender's whole suffix from there, its log afterwards carries the sender's
/// terms at every index the sender has, and the shared prefix is untouched —
/// entries at the same index with the same term keep identical histories
/// below them.
pub proof fn lemma_accept_preserves_matching(
    leader_log: Seq<LogEntry>,
    follower_log: Seq<LogEntry>,
    prev: int,
)
    requires
        0 <= prev <= follower_log.len(),
        prev <= leader_log.len(),
        forall|i: int| 0 <= i < prev ==> follower_log[i] == leader_log[i],
    ensures
        ({
            let sent = leader_log.subrange(prev, leader_log.len() as int);
            let m = merged_log(follower_log, prev, sent);
            &&& m.len() >= leader_log.len()
            &&& forall|i: int| 0 <= i < prev ==> #[trigger] m[i] == leader_log[i]
            &&& forall|i: int|
                prev <= i < leader_log.len() ==> (#[trigger] m[i]).term == leader_log[i].term
        }),
{
    let sent = leader_log.subrange(prev, leader_log.len() as int);
    lemma_match_len(follower_log, prev, sent);
    lemma_merged_log(follower_log, prev, sent);
    let m = merged_log(follower_log, prev, sent);
    assert forall|i: int| prev <= i < leader_log.len() implies (#[trigger] m[i]).term
        == leader_log[i].term by {
        assert(m[prev + (i - prev)].term == sent[i - prev].term);
        assert(sent[i - prev] == leader_log[i]);
    }
}

/// Redelivering an already-accepted append is a no-op: merging the same
/// entries at the same match point a second time leaves the log unchanged.
pub proof fn lemma_merge_idempotent(log: Seq<LogEntry>, prev: int, entries: Seq<LogEntry>)
    requires
        0 <= prev <= log.len(),
    ensures
        merged_log(merged_log(log, prev, entries), prev, entries) == merged_log(
            log,
            prev,
            entries,
        ),
{
    let m = merged_log(log, prev, entries);
    lemma_merged_log(log, prev, entries);
    assert forall|j: int| 0 <= j < entries.len() implies m[prev + j].term == (
    #[trigger] entries[j]).term by {}
    lemma_match_len_full(m, prev, entries);
    assert(match_len(m, prev, entries) == entries.len());
}

/// The replicated log. Entries are contiguous and 1-indexed; the conceptual
/// entry at index 0 is a sentinel with term 0, used for prev-log matching at
/// the start of the log.
#[derive(Debug, Clone, PartialEq, Eq)]
pub struct Log {
    pub entries: Vec<LogEntry>,
}

impl Log {
    /// The entry stored at 0-based position i carries the 1-based index i + 1.
    pub open spec fn wf(self) -> bool {
        forall|i: int|
            0 <= i < self.entries@.len() ==> (#[trigger] self.entries@[i]).index == i + 1
    }

    /// 1-based index of the last entry; 0 when the log is empty.
    pub open spec fn last_index_spec(self) -> int {
        self.entries@.len() as int
    }

    /// Term of the entry at 1-based index i; the sentinel index 0 and indices
    /// past the end have term 0.
    pub open spec fn term_at_spec(self, i: int) -> u64 {
        if 1 <= i <= self.entries@.len() {
            self.entries@[i - 1].term
        } else {
            0
        }
    }

    pub fn new() -> (r: Log)
        ensures
            r.wf(),
            r.entries@.len() == 0,
    {
        Log { entries: Vec::new() }
    }

    pub fn last_index(&self) -> (r: usize)
        ensures
            r == self.last_index_spec(),
    {
        self.entries.len()
    }

    pub fn last_term(&self) -> (t: u64)
        ensures
            t == self.term_at_spec(self.last_index_spec()),
    {
        let n = self.entries.len();
        if n == 0 {
            0
        } else {
            self.entries[n - 1].term
        }
    }

    pub fn term_at(&self, i: usize) -> (t: u64)
        ensures
            t == self.term_at_spec(i as int),
    {
        if 1 <= i && i <= self.entries.len() {
            self.entries[i - 1].term
        } else {
            0
        }
    }

    /// Append one entry at the end, giving it the next 1-based index.
    pub fn push_entry(&mut self, term: u64, command: u64)
        requires
            old(self).wf(),
            old(self).entries@.len() < usize::MAX,
        ensures
            final(self).wf(),
            final(self).entries@ == old(self).entries@.push(
                LogEntry { term, index: (old(self).entries@.len() + 1) as usize, command },
            ),
    {
        let idx = self.entries.len() + 1;
        self.entries.push(LogEntry { term, index: idx, command });
    }

    /// Merge the incoming `entries`, whose first element is claimed for the
    /// 1-based index `prev + 1`, into this log: keep everything that already
    /// agrees, truncate the suffix from the first term conflict, and append
    /// the remaining incoming entries with their indices rewritten to their
    /// position here.
    pub fn apply_append(&mut self, prev: usize, entries: &Vec<LogEntry>)
        requires
            old(self).wf(),
            prev <= old(self).entries@.len(),
            prev + entries@.len() <= usize::MAX,
        ensures
            final(self).wf(),
            final(self).entries@ == merged_log(old(self).entries@, prev as int, entries@),
            final(self).entries@.len() >= prev + entries@.len(),
    {
        let ghost log0 = self.entries@;
        proof {
            lemma_match_len(log0, prev as int, entries@);
            assert(entries@.skip(0) =~= entries@);
        }
        let mut k: usize = 0;
        while k < entries.len() && prev + k < self.entries.len() && self.entries[prev + k].term
            == entries[k].term
            invariant
                self.entries@ == log0,
                0 <= k <= entries@.len(),
                prev + k <= log0.len(),
                prev + entries@.len() <= usize::MAX,
                match_len(log0, prev as int, entries@) == k + match_len(
                    log0,
                    prev + k,
                    entries@.skip(k as int),
                ),
            decreases entries@.len() - k,
        {
            proof {
                lemma_match_len_step(log0, prev + k, entries@.skip(k as int));
                assert(entries@.skip(k as int)[0] == entries@[k as int]);
                assert(entries@.skip(k as int).skip(1) =~= entries@.skip(k as int + 1));
            }
            k = k + 1;
        }
        proof {
            if k < entries@.len() && prev + k < log0.len() {
                assert(entries@.skip(k as int)[0] == entries@[k as int]);
            }
            assert(match_len(log0, prev + k, entries@.skip(k as int)) == 0);
            assert(match_len(log0, prev as int, entries@) == k);
        }
        if k == entries.len() {
            return ;
        }
        let cut = prev + k;
        self.entries.truncate(cut);
        let ghost target = log0.take(prev + k) + reindexed(
            entries@.skip(k as int),
            prev + k as int,
        );
        proof {
            assert(self.entries@ =~= target.take(prev + k));
        }
        let mut j: usize = k;
        while j < entries.len()
            invariant
                k <= j <= entries@.len(),
                k < entries@.len(),
                prev + entries@.len() <= usize::MAX,
                target == log0.take(prev + k) + reindexed(entries@.skip(k as int), prev + k as int),
                target.len() == prev + entries@.len(),
                self.entries@ == target.take(prev + j),
            decreases entries@.len() - j,
        {
            let idx = self.entries.len() + 1;
            let e = LogEntry { term: entries[j].term, index: idx, command: entries[j].command };
            proof {
                assert(target[prev + j] == reindexed(entries@.skip(k as int), prev + k as int)[j
                    - k]);
                assert(entries@.skip(k as int)[j - k] == entries@[j as int]);
                assert(target.take(prev + j).push(target[prev + j]) =~= target.take(prev + j + 1));
            }
            self.entries.push(e);
            j = j + 1;
        }
        proof {
            assert(self.entries@ =~= target);
            assert forall|i: int| 0 <= i < target.len() implies (#[trigger] target[i]).index == i
                + 1 by {
                if i < prev + k {
                    assert(target[i] == log0.take(prev + k)[i]);
                    assert(log0[i].index == i + 1);
                } else {
                    assert(target[i] == reindexed(entries@.skip(k as int), prev + k as int)[i
                        - (prev + k)]);
                }
            }
        }
    }
}

} // verus!
