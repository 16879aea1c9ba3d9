//! Quorum arithmetic: a strict majority of the cluster, and the overlap
//! argument behind election safety.

use vstd::prelude::*;
use vstd::set_lib::lemma_int_range;
use vstd::set_lib::lemma_len_subset;
use vstd::set_lib::set_int_range;

verus! {

/// A strict majority: more than half of `cluster_size` nodes.
pub open spec fn is_quorum_spec(votes: int, cluster_size: int) -> bool {
    2 * votes > cluster_size
}

/// Whether `votes` nodes out of `cluster_size` form a strict majority,
/// computed as `votes > cluster_size / 2` with integer division: a 4-node
/// cluster needs 3 votes, a 5-node cluster needs 3.
pub fn is_quorum(votes: usize, cluster_size: usize) -> (b: bool)
    ensures
        b == is_quorum_spec(votes as int, cluster_size as int),
{
    votes > cluster_size / 2
}

/// `votes > n / 2` under integer division says exactly that `votes` is a
/// strict majority of `n`.
pub proof fn lemma_quorum_threshold(votes: int, n: int)
    requires
        votes >= 0,
        n >= 0,
    ensures
        (votes > n / 2) == is_quorum_spec(votes, n),
{
}

/// Two disjoint finite sets have a union as large as both together.
proof fn lemma_len_disjoint_union<A>(s1: Set<A>, s2: Set<A>)
    requires
        s1.finite(),
        s2.finite(),
        s1.intersect(s2) =~= Set::empty(),
    ensures
        s1.union(s2).len() == s1.len() + s2.len(),
        s1.union(s2).finite(),
    decreases s1.len(),
{
    if s1.is_empty() {
        assert(s1.union(s2) =~= s2);
    } else {
        let a = s1.choose();
        assert(s1.contains(a));
        assert(!s1.intersect(s2).contains(a));
        assert(s1.remove(a).intersect(s2) =~= Set::empty());
        lemma_len_disjoint_union(s1.remove(a), s2);
        assert(s1.union(s2) =~= s1.remove(a).union(s2).insert(a));
        assert(!s1.remove(a).union(s2).contains(a));
    }
}

/// Two strict majorities of the same cluster always share a member.
pub proof fn lemma_quorum_overlap(n: int, v1: Set<int>, v2: Set<int>)
    requires
        n >= 1,
        v1.subset_of(set_int_range(0, n)),
        v2.subset_of(set_int_range(0, n)),
        is_quorum_spec(v1.len() as int, n),
        is_quorum_spec(v2.len() as int, n),
    ensures
        exists|p: int| v1.contains(p) && v2.contains(p),
{
    lemma_int_range(0, n);
    lemma_len_subset(v1, set_int_range(0, n));
    lemma_len_subset(v2, set_int_range(0, n));
    if !(exists|p: int| v1.contains(p) && v2.contains(p)) {
        assert(v1.intersect(v2) =~= Set::empty());
        lemma_len_disjoint_union(v1, v2);
        assert(v1.union(v2).subset_of(set_int_range(0, n)));
        lemma_len_subset(v1.union(v2), set_int_range(0, n));
        assert(v1.len() + v2.len() <= n);
        assert(2 * v1.len() + 2 * v2.len() > 2 * n);
        assert(false);
    }
}

/// The set of node ids a candidate's tally holds.
pub open spec fn tally_set(votes: Seq<usize>) -> Set<int> {
    Set::new(|p: int| exists|i: int| 0 <= i < votes.len() && votes[i] as int == p)
}

/// A tally without duplicates, drawn from a cluster of `n` nodes, names
/// exactly as many distinct voters as it has entries.
pub proof fn lemma_tally_set(votes: Seq<usize>, n: int)
    requires
        votes.no_duplicates(),
        forall|i: int| 0 <= i < votes.len() ==> (#[trigger] votes[i]) < n,
    ensures
        tally_set(votes).finite(),
        tally_set(votes).subset_of(set_int_range(0, n)),
        tally_set(votes).len() == votes.len(),
    decreases votes.len(),
{
    if votes.len() == 0 {
        assert(tally_set(votes) =~= Set::empty());
    } else {
        let prefix = votes.drop_last();
        let last = votes.last();
        assert forall|i: int| 0 <= i < prefix.len() implies (#[trigger] prefix[i]) < n by {
            assert(prefix[i] == votes[i]);
        }
        lemma_tally_set(prefix, n);
        assert(!tally_set(prefix).contains(last as int)) by {
            if tally_set(prefix).contains(last as int) {
                let i = choose|i: int| 0 <= i < prefix.len() && prefix[i] as int == last as int;
                assert(votes[i] == votes[votes.len() - 1]);
            }
        }
        assert(tally_set(votes) =~= tally_set(prefix).insert(last as int)) by {
            assert forall|p: int| tally_set(votes).contains(p) implies tally_set(prefix).insert(
                last as int,
            ).contains(p) by {
                let i = choose|i: int| 0 <= i < votes.len() && votes[i] as int == p;
                if i < votes.len() - 1 {
                    assert(prefix[i] as int == p);
                }
            }
            assert forall|p: int| tally_set(prefix).insert(last as int).contains(p) implies
                tally_set(votes).contains(p) by {
                if tally_set(prefix).contains(p) {
                    let i = choose|i: int| 0 <= i < prefix.len() && prefix[i] as int == p;
                    assert(votes[i] as int == p);
                } else {
                    assert(votes[votes.len() - 1] as int == p);
                }
            }
        }
    }
}

/// Election safety over concrete tallies: two candidates of one term whose
/// duplicate-free tallies are both strict majorities of the cluster, where
/// every tallied voter gave its single vote of that term to that candidate,
/// are one and the same.
pub proof fn lemma_no_two_leaders_in_a_term(
    n: int,
    t1: Seq<usize>,
    t2: Seq<usize>,
    vote: Map<int, int>,
    c1: int,
    c2: int,
)
    requires
        n >= 1,
        t1.no_duplicates(),
        t2.no_duplicates(),
        forall|i: int| 0 <= i < t1.len() ==> (#[trigger] t1[i]) < n,
        forall|i: int| 0 <= i < t2.len() ==> (#[trigger] t2[i]) < n,
        is_quorum_spec(t1.len() as int, n),
        is_quorum_spec(t2.len() as int, n),
        forall|i: int|
            0 <= i < t1.len() ==> vote.contains_key((#[trigger] t1[i]) as int) && vote[t1[i] as int]
                == c1,
        forall|i: int|
            0 <= i < t2.len() ==> vote.contains_key((#[trigger] t2[i]) as int) && vote[t2[i] as int]
                == c2,
    ensures
        c1 == c2,
{
    lemma_tally_set(t1, n);
    lemma_tally_set(t2, n);
    assert forall|p: int| tally_set(t1).contains(p) implies vote.contains_key(p) && vote[p]
        == c1 by {
        let i = choose|i: int| 0 <= i < t1.len() && t1[i] as int == p;
        assert(vote[t1[i] as int] == c1);
    }
    assert forall|p: int| tally_set(t2).contains(p) implies vote.contains_key(p) && vote[p]
        == c2 by {
        let i = choose|i: int| 0 <= i < t2.len() && t2[i] as int == p;
        assert(vote[t2[i] as int] == c2);
    }
    lemma_election_safety(n, tally_set(t1), tally_set(t2), vote, c1, c2);
}

/// Election safety: if every voter grants at most one vote in a term, two
/// candidates cannot both assemble a strict majority for that term. `vote`
/// maps each node to the one candidate it voted for in the term; `v1` and
/// `v2` are the voter sets claimed by candidates `c1` and `c2`.
pub proof fn lemma_election_safety(
    n: int,
    v1: Set<int>,
    v2: Set<int>,
    vote: Map<int, int>,
    c1: int,
    c2: int,
)
    requires
        n >= 1,
        v1.subset_of(set_int_range(0, n)),
        v2.subset_of(set_int_range(0, n)),
        is_quorum_spec(v1.len() as int, n),
        is_quorum_spec(v2.len() as int, n),
        forall|p: int| v1.contains(p) ==> vote.contains_key(p) && vote[p] == c1,
        forall|p: int| v2.contains(p) ==> vote.contains_key(p) && vote[p] == c2,
    ensures
        c1 == c2,
{
    lemma_quorum_overlap(n, v1, v2);
    let p = choose|p: int| v1.contains(p) && v2.contains(p);
    assert(vote[p] == c1 && vote[p] == c2);
}

} // verus!
