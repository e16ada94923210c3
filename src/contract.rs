//! The registry: every poll, its ballots and its tally, keyed by poll id.
use vstd::prelude::*;

use crate::ballots::{
    has_ballot, holds_ballot, lemma_push_new_voter, lemma_votes_for_bounded, lemma_votes_for_push,
    voters_unique, votes_for,
};
use crate::errors::ContractError;
use crate::models::{lemma_sum_increment, sum_counts, zero_counts, Poll, VoteResults};

verus! {

/// Holds all polls, ballots and tallies. Poll ids are handed out from zero
/// upwards, so a poll's id is also its position in each of the three lists.
pub struct VotingContract {
    polls: Vec<Poll>,
    votes: Vec<Vec<(String, u32)>>,
    results: Vec<VoteResults>,
    poll_counter: u64,
    owner: String,
}

/// What the registry keeps for one poll is consistent: the poll's window is
/// well formed, every ballot names a valid option, no voter holds two
/// ballots, and the tally counts exactly the ballots.
pub open spec fn record_wf(id: int, p: Poll, b: Seq<(String, u32)>, r: VoteResults) -> bool {
    &&& p.id == id
    &&& p.options@.len() >= 2
    &&& p.start_time < p.end_time
    &&& r.counts@.len() == p.options@.len()
    &&& r.total_votes == b.len()
    &&& sum_counts(r.counts@) == r.total_votes
    &&& forall|k: int| 0 <= k < r.counts@.len() ==> r.counts@[k] == votes_for(b, k)
    &&& forall|j: int| 0 <= j < b.len() ==> ((#[trigger] b[j]).1 as int) < p.options@.len()
    &&& voters_unique(b)
}

/// A poll as `process_expired_polls` leaves it at time `now`.
pub open spec fn expired(p: Poll, now: u64) -> Poll {
    Poll { active: p.active && !(now > p.end_time), ..p }
}

impl VotingContract {
    /// The polls, in order of id.
    pub closed spec fn spec_polls(&self) -> Seq<Poll> {
        self.polls@
    }

    /// The ballots of each poll, in order of id.
    pub closed spec fn spec_ballots(&self) -> Seq<Seq<(String, u32)>> {
        Seq::new(self.votes@.len(), |i: int| self.votes@[i]@)
    }

    /// The tally of each poll, in order of id.
    pub closed spec fn spec_results(&self) -> Seq<VoteResults> {
        self.results@
    }

    /// The identity allowed to close every poll.
    pub closed spec fn spec_owner(&self) -> Seq<char> {
        self.owner@
    }

    /// The registry is well formed: one poll, ballot list and tally per id
    /// handed out so far, each record consistent.
    pub closed spec fn wf(&self) -> bool {
        &&& self.polls@.len() == self.poll_counter
        &&& self.votes@.len() == self.poll_counter
        &&& self.results@.len() == self.poll_counter
        &&& forall|i: int|
            0 <= i < self.polls@.len() ==> record_wf(
                i,
                #[trigger] self.polls@[i],
                self.votes@[i]@,
                self.results@[i],
            )
    }

    /// Why `vote` refuses a ballot, checked in this order, or `Ok` when it
    /// admits it.
    pub open spec fn vote_outcome(
        &self,
        poll_id: u64,
        voter: Seq<char>,
        option_index: u32,
        now: u64,
    ) -> Result<(), ContractError> {
        let p = self.spec_polls()[poll_id as int];
        if poll_id >= self.spec_polls().len() {
            Err(ContractError::PollNotFound)
        } else if !p.active || now < p.start_time {
            Err(ContractError::PollNotActive)
        } else if now > p.end_time {
            Err(ContractError::PollAlreadyEnded)
        } else if option_index >= p.options@.len() {
            Err(ContractError::InvalidOption)
        } else if has_ballot(self.spec_ballots()[poll_id as int], voter) {
            Err(ContractError::AlreadyVoted)
        } else {
            Ok(())
        }
    }

    /// Why `close_poll` refuses `caller`, or `Ok` when it closes the poll.
    pub open spec fn close_outcome(&self, poll_id: u64, caller: Seq<char>) -> Result<
        (),
        ContractError,
    > {
        if poll_id >= self.spec_polls().len() {
            Err(ContractError::PollNotFound)
        } else if caller != self.spec_polls()[poll_id as int].creator@ && caller
            != self.spec_owner() {
            Err(ContractError::Unauthorized)
        } else {
            Ok(())
        }
    }

    /// An empty registry administered by `owner`.
    pub fn new(owner: String) -> (r: Self)
        ensures
            r.wf(),
            r.spec_polls().len() == 0,
            r.spec_ballots().len() == 0,
            r.spec_results().len() == 0,
            r.spec_owner() == owner@,
    {
        VotingContract {
            polls: Vec::new(),
            votes: Vec::new(),
            results: Vec::new(),
            poll_counter: 0,
            owner,
        }
    }

    /// Creates a poll that is active from the start, and returns its id.
    pub fn create_poll(
        &mut self,
        creator: String,
        title: String,
        description: String,
        options: Vec<String>,
        start_time: u64,
        end_time: u64,
    ) -> (r: Result<u64, ContractError>)
        requires
            old(self).wf(),
            old(self).spec_polls().len() < u64::MAX,
        ensures
            final(self).wf(),
            options@.len() < 2 ==> r == Err::<u64, ContractError>(ContractError::InvalidOption),
            options@.len() >= 2 && start_time >= end_time ==> r == Err::<u64, ContractError>(
                ContractError::InvalidTimeRange,
            ),
            r is Err ==> *final(self) == *old(self),
            options@.len() >= 2 && start_time < end_time ==> {
                let id = old(self).spec_polls().len();
                &&& r == Ok::<u64, ContractError>(id as u64)
                &&& final(self).spec_polls() == old(self).spec_polls().push(
                    Poll {
                        id: id as u64,
                        title,
                        description,
                        options,
                        creator,
                        start_time,
                        end_time,
                        active: true,
                    },
                )
                &&& final(self).spec_ballots() == old(self).spec_ballots().push(seq![])
                &&& final(self).spec_results().len() == id + 1
                &&& final(self).spec_results().subrange(0, id as int)
                    == old(self).spec_results()
                &&& final(self).spec_results()[id as int].counts@ == zero_counts(
                    options@.len(),
                )
                &&& final(self).spec_results()[id as int].total_votes == 0
                &&& final(self).spec_owner() == old(self).spec_owner()
            },
    {
        if options.len() < 2 {
            return Err(ContractError::InvalidOption);
        }
        if start_time >= end_time {
            return Err(ContractError::InvalidTimeRange);
        }
        let poll_id = self.poll_counter;
        self.poll_counter = self.poll_counter + 1;
        let option_count = options.len();
        let poll = Poll {
            id: poll_id,
            title,
            description,
            options,
            creator,
            start_time,
            end_time,
            active: true,
        };
        self.polls.push(poll);
        self.votes.push(Vec::new());
        let results = VoteResults::new(option_count);
        proof {
            crate::models::lemma_sum_zero_counts(option_count as nat);
        }
        self.results.push(results);
        proof {
            let n = poll_id as int;
            assert(self.votes@[n]@ =~= Seq::<(String, u32)>::empty());
            assert forall|i: int| 0 <= i < self.polls@.len() implies record_wf(
                i,
                #[trigger] self.polls@[i],
                self.votes@[i]@,
                self.results@[i],
            ) by {
                if i < n {
                    assert(old(self).polls@[i] == self.polls@[i]);
                }
            }
            assert(self.spec_ballots() =~= old(self).spec_ballots().push(seq![]));
            assert(self.spec_results().subrange(0, n) =~= old(self).spec_results());
        }
        Ok(poll_id)
    }

    /// Records `wallet_address`'s ballot for `option_index` in poll `poll_id`
    /// at time `current_time`, or refuses it and changes nothing.
    pub fn vote(
        &mut self,
        poll_id: u64,
        wallet_address: String,
        option_index: u32,
        current_time: u64,
    ) -> (r: Result<(), ContractError>)
        requires
            old(self).wf(),
            poll_id < old(self).spec_polls().len()
                ==> old(self).spec_results()[poll_id as int].total_votes < u64::MAX,
        ensures
            final(self).wf(),
            r == old(self).vote_outcome(poll_id, wallet_address@, option_index, current_time),
            r is Err ==> *final(self) == *old(self),
            r is Ok ==> {
                let id = poll_id as int;
                let k = option_index as int;
                let before = old(self).spec_results()[id];
                let after = final(self).spec_results()[id];
                &&& final(self).spec_polls() == old(self).spec_polls()
                &&& final(self).spec_ballots() == old(self).spec_ballots().update(
                    id,
                    old(self).spec_ballots()[id].push((wallet_address, option_index)),
                )
                &&& final(self).spec_results().len() == old(self).spec_results().len()
                &&& forall|i: int|
                    0 <= i < final(self).spec_results().len() && i != id ==> (
                    #[trigger] final(self).spec_results()[i]) == old(self).spec_results()[i]
                &&& after.counts@ == before.counts@.update(k, (before.counts@[k] + 1) as u64)
                &&& after.total_votes == before.total_votes + 1
                &&& final(self).spec_owner() == old(self).spec_owner()
            },
    {
        if poll_id >= self.polls.len() as u64 {
            return Err(ContractError::PollNotFound);
        }
        let idx = poll_id as usize;
        let poll = &self.polls[idx];
        if !poll.active {
            return Err(ContractError::PollNotActive);
        }
        if current_time < poll.start_time {
            return Err(ContractError::PollNotActive);
        }
        if current_time > poll.end_time {
            return Err(ContractError::PollAlreadyEnded);
        }
        if option_index as usize >= poll.options.len() {
            return Err(ContractError::InvalidOption);
        }
        if holds_ballot(&self.votes[idx], &wallet_address) {
            return Err(ContractError::AlreadyVoted);
        }
        let ghost b0 = self.votes@[idx as int]@;
        let ghost ballot = (wallet_address, option_index);
        let ghost r0 = self.results@[idx as int];
        let k = option_index as usize;
        proof {
            lemma_votes_for_bounded(b0, k as int);
            lemma_push_new_voter(b0, ballot);
            lemma_sum_increment(r0.counts@, k as int);
        }
        self.votes[idx].push((wallet_address, option_index));
        let count = self.results[idx].counts[k];
        self.results[idx].counts[k] = count + 1;
        self.results[idx].total_votes = self.results[idx].total_votes + 1;
        proof {
            let b1 = b0.push(ballot);
            assert(self.votes@[idx as int]@ == b1);
            assert forall|q: int| 0 <= q < self.results@[idx as int].counts@.len() implies
                self.results@[idx as int].counts@[q] == votes_for(b1, q) by {
                lemma_votes_for_push(b0, ballot, q);
            }
            assert forall|j: int| 0 <= j < b1.len() implies ((#[trigger] b1[j]).1 as int)
                < self.polls@[idx as int].options@.len() by {
                if j < b0.len() {
                    assert(b1[j] == b0[j]);
                }
            }
            assert(record_wf(idx as int, self.polls@[idx as int], b1, self.results@[idx as int]));
            assert forall|i: int| 0 <= i < self.polls@.len() implies record_wf(
                i,
                #[trigger] self.polls@[i],
                self.votes@[i]@,
                self.results@[i],
            ) by {
                if i != idx {
                    assert(old(self).polls@[i] == self.polls@[i]);
                }
            }
            assert(self.spec_ballots() =~= old(self).spec_ballots().update(
                idx as int,
                old(self).spec_ballots()[idx as int].push(ballot),
            ));
        }
        Ok(())
    }
    /// The poll with id `poll_id`.
    pub fn get_poll(&self, poll_id: u64) -> (r: Result<&Poll, ContractError>)
        ensures
            match r {
                Ok(p) => poll_id < self.spec_polls().len() && *p
                    == self.spec_polls()[poll_id as int],
                Err(e) => poll_id >= self.spec_polls().len() && e == ContractError::PollNotFound,
            },
    {
        if poll_id >= self.polls.len() as u64 {
            return Err(ContractError::PollNotFound);
        }
        Ok(&self.polls[poll_id as usize])
    }

    /// The tally of the poll with id `poll_id`.
    pub fn get_results(&self, poll_id: u64) -> (r: Result<&VoteResults, ContractError>)
        requires
            self.wf(),
        ensures
            match r {
                Ok(t) => poll_id < self.spec_polls().len() && *t
                    == self.spec_results()[poll_id as int],
                Err(e) => poll_id >= self.spec_polls().len() && e == ContractError::PollNotFound,
            },
    {
        if poll_id >= self.results.len() as u64 {
            return Err(ContractError::PollNotFound);
        }
        Ok(&self.results[poll_id as usize])
    }

    /// Closes poll `poll_id` on behalf of `caller`, who must be its creator or
    /// the registry's owner. Closing a closed poll changes nothing.
    pub fn close_poll(&mut self, poll_id: u64, caller: String) -> (r: Result<(), ContractError>)
        requires
            old(self).wf(),
        ensures
            final(self).wf(),
            r == old(self).close_outcome(poll_id, caller@),
            r is Err ==> *final(self) == *old(self),
            r is Ok ==> final(self).spec_polls() == old(self).spec_polls().update(
                poll_id as int,
                Poll { active: false, ..old(self).spec_polls()[poll_id as int] },
            ),
            final(self).spec_ballots() == old(self).spec_ballots(),
            final(self).spec_results() == old(self).spec_results(),
            final(self).spec_owner() == old(self).spec_owner(),
    {
        if poll_id >= self.polls.len() as u64 {
            return Err(ContractError::PollNotFound);
        }
        let idx = poll_id as usize;
        if !(self.polls[idx].creator == caller) && !(self.owner == caller) {
            return Err(ContractError::Unauthorized);
        }
        self.polls[idx].active = false;
        proof {
            assert forall|i: int| 0 <= i < self.polls@.len() implies record_wf(
                i,
                #[trigger] self.polls@[i],
                self.votes@[i]@,
                self.results@[i],
            ) by {
                assert(record_wf(i, old(self).polls@[i], self.votes@[i]@, self.results@[i]));
            }
            assert(self.spec_polls() =~= old(self).spec_polls().update(
                poll_id as int,
                Poll { active: false, ..old(self).spec_polls()[poll_id as int] },
            ));
            assert(self.spec_ballots() =~= old(self).spec_ballots());
        }
        Ok(())
    }

    /// Closes every active poll whose voting window ended before `current_time`.
    pub fn process_expired_polls(&mut self, current_time: u64)
        requires
            old(self).wf(),
        ensures
            final(self).wf(),
            final(self).spec_polls().len() == old(self).spec_polls().len(),
            forall|i: int|
                0 <= i < final(self).spec_polls().len() ==> #[trigger] final(self).spec_polls()[i]
                    == expired(old(self).spec_polls()[i], current_time),
            final(self).spec_ballots() == old(self).spec_ballots(),
            final(self).spec_results() == old(self).spec_results(),
            final(self).spec_owner() == old(self).spec_owner(),
    {
        let mut i: usize = 0;
        while i < self.polls.len()
            invariant
                self.polls@.len() == old(self).polls@.len(),
                i <= self.polls@.len(),
                forall|j: int|
                    0 <= j < i ==> #[trigger] self.polls@[j] == expired(
                        old(self).polls@[j],
                        current_time,
                    ),
                forall|j: int| i <= j < self.polls@.len() ==> #[trigger] self.polls@[j] == old(
                    self,
                ).polls@[j],
                self.votes == old(self).votes,
                self.results == old(self).results,
                self.poll_counter == old(self).poll_counter,
                self.owner == old(self).owner,
            decreases self.polls@.len() - i,
        {
            if self.polls[i].active && current_time > self.polls[i].end_time {
                self.polls[i].active = false;
            }
            assert(self.polls@[i as int] == expired(old(self).polls@[i as int], current_time));
            i = i + 1;
        }
        proof {
            assert forall|j: int| 0 <= j < self.polls@.len() implies record_wf(
                j,
                #[trigger] self.polls@[j],
                self.votes@[j]@,
                self.results@[j],
            ) by {
                assert(record_wf(j, old(self).polls@[j], self.votes@[j]@, self.results@[j]));
            }
        }
    }

    /// The ids of the active polls, in increasing order.
    pub fn get_active_polls(&self) -> (r: Vec<u64>)
        requires
            self.wf(),
        ensures
            r@ == active_ids(self.spec_polls()),
            forall|id: u64|
                r@.contains(id) <==> id < self.spec_polls().len()
                    && self.spec_polls()[id as int].active,
    {
        let mut active_polls: Vec<u64> = Vec::new();
        let mut i: usize = 0;
        while i < self.polls.len()
            invariant
                i <= self.polls@.len(),
                active_polls@ == active_ids(self.polls@.subrange(0, i as int)),
            decreases self.polls@.len() - i,
        {
            let poll = &self.polls[i];
            assert(self.polls@.subrange(0, i + 1).drop_last() =~= self.polls@.subrange(
                0,
                i as int,
            ));
            if poll.active {
                active_polls.push(poll.id);
            }
            i = i + 1;
        }
        proof {
            assert(self.polls@.subrange(0, i as int) =~= self.polls@);
            assert forall|id: u64| #[trigger]
                active_polls@.contains(id) <==> id < self.spec_polls().len()
                    && self.spec_polls()[id as int].active by {
                lemma_active_ids_contains(self.polls@, id);
            }
        }
        active_polls
    }

    /// Each option of poll `poll_id` with its number of votes, in option order.
    pub fn get_detailed_counts(&self, poll_id: u64) -> (r: Result<
        Vec<(String, u64)>,
        ContractError,
    >)
        requires
            self.wf(),
        ensures
            match r {
                Ok(v) => {
                    let p = self.spec_polls()[poll_id as int];
                    let t = self.spec_results()[poll_id as int];
                    &&& poll_id < self.spec_polls().len()
                    &&& v@.len() == p.options@.len()
                    &&& forall|k: int|
                        0 <= k < v@.len() ==> (#[trigger] v@[k]).0 == p.options@[k] && v@[k].1
                            == t.counts@[k]
                    &&& sum_counts(v@.map_values(|e: (String, u64)| e.1)) == t.total_votes
                },
                Err(e) => poll_id >= self.spec_polls().len() && e == ContractError::PollNotFound,
            },
    {
        if poll_id >= self.polls.len() as u64 {
            return Err(ContractError::PollNotFound);
        }
        let idx = poll_id as usize;
        let poll = &self.polls[idx];
        let results = &self.results[idx];
        assert(record_wf(
            idx as int,
            self.polls@[idx as int],
            self.votes@[idx as int]@,
            self.results@[idx as int],
        ));
        let mut detailed: Vec<(String, u64)> = Vec::new();
        let mut k: usize = 0;
        while k < poll.options.len()
            invariant
                k <= poll.options@.len(),
                results.counts@.len() == poll.options@.len(),
                detailed@.len() == k,
                forall|q: int|
                    0 <= q < k ==> (#[trigger] detailed@[q]).0 == poll.options@[q] && detailed@[q].1
                        == results.counts@[q],
            decreases poll.options@.len() - k,
        {
            detailed.push((poll.options[k].clone(), results.counts[k]));
            k = k + 1;
        }
        assert(detailed@.map_values(|e: (String, u64)| e.1) =~= results.counts@);
        Ok(detailed)
    }

    /// Whether `wallet_address` holds a ballot in poll `poll_id`.
    pub fn has_voted(&self, poll_id: u64, wallet_address: &str) -> (r: Result<bool, ContractError>)
        requires
            self.wf(),
        ensures
            poll_id >= self.spec_polls().len() ==> r == Err::<bool, ContractError>(
                ContractError::PollNotFound,
            ),
            poll_id < self.spec_polls().len() ==> r == Ok::<bool, ContractError>(
                has_ballot(self.spec_ballots()[poll_id as int], wallet_address@),
            ),
    {
        if poll_id >= self.votes.len() as u64 {
            return Err(ContractError::PollNotFound);
        }
        let voter = wallet_address.to_owned();
        Ok(holds_ballot(&self.votes[poll_id as usize], &voter))
    }
}

/// The ids of the active polls among `polls`, in order.
pub open spec fn active_ids(polls: Seq<Poll>) -> Seq<u64>
    decreases polls.len(),
{
    if polls.len() == 0 {
        seq![]
    } else if polls.last().active {
        active_ids(polls.drop_last()).push(polls.last().id)
    } else {
        active_ids(polls.drop_last())
    }
}

/// Where every poll's id is its position, an id is among the active ids
/// exactly when its poll exists and is active.
pub proof fn lemma_active_ids_contains(polls: Seq<Poll>, id: u64)
    requires
        forall|i: int| 0 <= i < polls.len() ==> (#[trigger] polls[i]).id == i,
    ensures
        active_ids(polls).contains(id) <==> id < polls.len() && polls[id as int].active,
    decreases polls.len(),
{
    if polls.len() > 0 {
        let rest = polls.drop_last();
        assert forall|i: int| 0 <= i < rest.len() implies (#[trigger] rest[i]).id == i by {
            assert(rest[i] == polls[i]);
        }
        lemma_active_ids_contains(rest, id);
        if id < rest.len() {
            assert(rest[id as int] == polls[id as int]);
        }
        let last = polls.last();
        if last.active {
            assert(active_ids(polls) == active_ids(rest).push(last.id));
            assert(active_ids(polls).last() == last.id);
            if active_ids(rest).contains(id) {
                let j = active_ids(rest).index_of(id);
                assert(active_ids(polls)[j] == id);
            }
        }
    }
}

/// Poll ids run from zero upwards in order of creation: each poll's id is its
/// position. So ids are distinct and strictly increasing, and the id that
/// `create_poll` hands out next (the number of polls so far) is unused.
pub proof fn lemma_poll_ids_in_order(c: &VotingContract)
    requires
        c.wf(),
    ensures
        forall|i: int| 0 <= i < c.spec_polls().len() ==> (#[trigger] c.spec_polls()[i]).id == i,
        forall|i: int, j: int|
            0 <= i < j < c.spec_polls().len() ==> (#[trigger] c.spec_polls()[i]).id
                < (#[trigger] c.spec_polls()[j]).id,
        forall|i: int|
            0 <= i < c.spec_polls().len() ==> (#[trigger] c.spec_polls()[i]).id
                != c.spec_polls().len(),
{
    assert forall|i: int| 0 <= i < c.spec_polls().len() implies (#[trigger] c.spec_polls()[i]).id
        == i by {
        assert(record_wf(i, c.polls@[i], c.votes@[i]@, c.results@[i]));
    }
}

/// A voter holds at most one ballot in each poll, and once they hold one,
/// every further ballot of theirs in that poll is refused.
pub proof fn lemma_one_ballot_per_voter(
    c: &VotingContract,
    poll_id: u64,
    voter: Seq<char>,
    option_index: u32,
    now: u64,
)
    requires
        c.wf(),
        poll_id < c.spec_polls().len(),
    ensures
        voters_unique(c.spec_ballots()[poll_id as int]),
        has_ballot(c.spec_ballots()[poll_id as int], voter) ==> c.vote_outcome(
            poll_id,
            voter,
            option_index,
            now,
        ) is Err,
{
    let i = poll_id as int;
    assert(record_wf(i, c.polls@[i], c.votes@[i]@, c.results@[i]));
}

/// In every poll the counts sum to the total, the total is the number of
/// ballots, and each option's count is the number of ballots that chose it.
/// Every operation keeps the registry well formed, so this holds after any
/// sequence of operations.
pub proof fn lemma_tally_matches_ballots(c: &VotingContract, poll_id: u64)
    requires
        c.wf(),
        poll_id < c.spec_polls().len(),
    ensures
        ({
            let t = c.spec_results()[poll_id as int];
            let b = c.spec_ballots()[poll_id as int];
            &&& sum_counts(t.counts@) == t.total_votes
            &&& t.total_votes == b.len()
            &&& t.counts@.len() == c.spec_polls()[poll_id as int].options@.len()
            &&& forall|k: int|
                0 <= k < t.counts@.len() ==> #[trigger] t.counts@[k] == votes_for(b, k)
        }),
{
    let i = poll_id as int;
    assert(record_wf(i, c.polls@[i], c.votes@[i]@, c.results@[i]));
}

} // verus!