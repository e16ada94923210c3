use vstd::prelude::*;

verus! {

/// A single poll: an ordered list of options and a voting window.
pub struct Poll {
    pub id: u64,
    pub title: String,
    pub description: String,
    /// The options that voters choose between, addressed by their index.
    pub options: Vec<String>,
    /// The identity that created the poll, allowed to close it.
    pub creator: String,
    /// Epoch second at which voting opens.
    pub start_time: u64,
    /// Last epoch second at which a ballot is admitted.
    pub end_time: u64,
    /// False once the poll has been closed, by hand or on expiry.
    pub active: bool,
}

/// The tally of one poll.
pub struct VoteResults {
    /// Number of ballots for each option, indexed by option index.
    pub counts: Vec<u64>,
    /// Number of ballots cast in the poll.
    pub total_votes: u64,
}

/// The sum of a sequence of counts.
pub open spec fn sum_counts(s: Seq<u64>) -> int
    decreases s.len(),
{
    if s.len() == 0 {
        0
    } else {
        sum_counts(s.drop_last()) + s.last()
    }
}

/// `n` counts, all zero.
pub open spec fn zero_counts(n: nat) -> Seq<u64> {
    Seq::new(n, |k: int| 0u64)
}

/// Zero counts sum to zero.
pub proof fn lemma_sum_zero_counts(n: nat)
    ensures
        sum_counts(zero_counts(n)) == 0,
    decreases n,
{
    if n > 0 {
        assert(zero_counts(n).drop_last() =~= zero_counts((n - 1) as nat));
        lemma_sum_zero_counts((n - 1) as nat);
    }
}

/// Raising one count by one raises the sum by one.
pub proof fn lemma_sum_increment(s: Seq<u64>, k: int)
    requires
        0 <= k < s.len(),
        s[k] < u64::MAX,
    ensures
        sum_counts(s.update(k, (s[k] + 1) as u64)) == sum_counts(s) + 1,
    decreases s.len(),
{
    let t = s.update(k, (s[k] + 1) as u64);
    if k == s.len() - 1 {
        assert(t.drop_last() =~= s.drop_last());
    } else {
        assert(t.drop_last() =~= s.drop_last().update(k, (s[k] + 1) as u64));
        lemma_sum_increment(s.drop_last(), k);
    }
}

impl VoteResults {
    /// An empty tally for a poll with `option_count` options.
    pub fn new(option_count: usize) -> (r: Self)
        ensures
            r.counts@ == zero_counts(option_count as nat),
            r.total_votes == 0,
    {
        let mut counts: Vec<u64> = Vec::new();
        let mut i: usize = 0;
        while i < option_count
            invariant
                i <= option_count,
                counts@ == zero_counts(i as nat),
            decreases option_count - i,
        {
            counts.push(0);
            i = i + 1;
            assert(counts@ =~= zero_counts(i as nat));
        }
        VoteResults { counts, total_votes: 0 }
    }
}

} // verus!
