//! Ballots of one poll, as a sequence of (voter, option index) pairs, and
//! facts about how they grow.
use vstd::prelude::*;

verus! {

/// Whether `voter` holds a ballot among `ballots`.
pub open spec fn has_ballot(ballots: Seq<(String, u32)>, voter: Seq<char>) -> bool {
    exists|j: int| 0 <= j < ballots.len() && (#[trigger] ballots[j]).0@ == voter
}

/// No voter holds two ballots.
pub open spec fn voters_unique(ballots: Seq<(String, u32)>) -> bool {
    forall|i: int, j: int|
        0 <= i < ballots.len() && 0 <= j < ballots.len() && i != j ==> (#[trigger] ballots[i]).0@
            != (#[trigger] ballots[j]).0@
}

/// The number of ballots that chose option `k`.
pub open spec fn votes_for(ballots: Seq<(String, u32)>, k: int) -> nat
    decreases ballots.len(),
{
    if ballots.len() == 0 {
        0
    } else {
        votes_for(ballots.drop_last(), k) + if ballots.last().1 == k {
            1nat
        } else {
            0nat
        }
    }
}

/// Adding a ballot for option `o` adds one to the votes for `o` and leaves
/// every other option as it was.
pub proof fn lemma_votes_for_push(ballots: Seq<(String, u32)>, b: (String, u32), k: int)
    ensures
        votes_for(ballots.push(b), k) == votes_for(ballots, k) + if b.1 == k {
            1nat
        } else {
            0nat
        },
{
    assert(ballots.push(b).drop_last() =~= ballots);
}

/// A ballot from a voter who held none keeps the voters unique, and the voter
/// now holds one.
pub proof fn lemma_push_new_voter(ballots: Seq<(String, u32)>, b: (String, u32))
    requires
        voters_unique(ballots),
        !has_ballot(ballots, b.0@),
    ensures
        voters_unique(ballots.push(b)),
        has_ballot(ballots.push(b), b.0@),
{
    let n = ballots.len() as int;
    assert(ballots.push(b)[n] == b);
    assert forall|i: int, j: int|
        0 <= i < n + 1 && 0 <= j < n + 1 && i != j implies (#[trigger] ballots.push(b)[i]).0@
        != (#[trigger] ballots.push(b)[j]).0@ by {
        if i == n {
            assert(ballots[j] == ballots.push(b)[j]);
        } else if j == n {
            assert(ballots[i] == ballots.push(b)[i]);
        } else {
            assert(ballots[i] == ballots.push(b)[i]);
            assert(ballots[j] == ballots.push(b)[j]);
        }
    }
}

/// No option has more votes than there are ballots.
pub proof fn lemma_votes_for_bounded(ballots: Seq<(String, u32)>, k: int)
    ensures
        votes_for(ballots, k) <= ballots.len(),
    decreases ballots.len(),
{
    if ballots.len() > 0 {
        lemma_votes_for_bounded(ballots.drop_last(), k);
    }
}

/// Whether `voter` holds a ballot among `ballots`.
pub fn holds_ballot(ballots: &Vec<(String, u32)>, voter: &String) -> (r: bool)
    ensures
        r == has_ballot(ballots@, voter@),
{
    let mut i: usize = 0;
    while i < ballots.len()
        invariant
            i <= ballots@.len(),
            forall|j: int| 0 <= j < i ==> (#[trigger] ballots@[j]).0@ != voter@,
        decreases ballots@.len() - i,
    {
        if ballots[i].0 == *voter {
            assert(ballots@[i as int].0@ == voter@);
            return true;
        }
        i = i + 1;
    }
    false
}

} // verus!
