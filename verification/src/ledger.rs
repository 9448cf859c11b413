use vstd::prelude::*;
use crate::error::ErrorCode;
use crate::instructions::{lemma_shares_add_up, ChangeVote, GetStats, Vote};
use crate::state::{Address, Politician, VoteRecord};

verus! {

/// Everything that is stored about one politician: the politician's record,
/// the address it is stored at, and the vote records that exist, each found
/// by its voter.
///
/// A store that locates a vote record by the politician's address and the
/// voter's identity holds at most one record for each voter; that is what
/// the map says. The operations of this model hand the store's records to
/// the same decisions that the executable operations take.
pub struct Ledger {
    pub key: Address,
    pub politician: Politician,
    pub votes: Map<Address, VoteRecord>,
}

/// One voter's wish to cast a vote.
pub struct Ballot {
    pub voter: Address,
    pub approve: bool,
    pub now: i64,
    pub bump: u8,
}

impl Ledger {
    /// The ledger of a politician whose record was just filled in.
    pub open spec fn opened(key: Address, politician: Politician) -> Ledger {
        Ledger { key, politician, votes: Map::empty() }
    }

    /// The voters whose vote has the given polarity.
    pub open spec fn voters(self, approve: bool) -> Set<Address> {
        self.votes.dom().filter(|voter: Address| self.votes[voter].approve == approve)
    }

    /// Whether the counters say what the vote records say: every record is a
    /// vote of its voter on this politician, and each counter is the number
    /// of records of its polarity.
    pub open spec fn consistent(self) -> bool {
        &&& self.votes.dom().finite()
        &&& forall|voter: Address| #[trigger]
            self.votes.dom().contains(voter) ==> {
                &&& self.votes[voter].has_voted
                &&& self.votes[voter].voter == voter
                &&& self.votes[voter].politician == self.key
            }
        &&& self.politician.approve_count == self.voters(true).len()
        &&& self.politician.disapprove_count == self.voters(false).len()
    }

    /// The record found at the place of `voter`'s vote: the one that exists,
    /// or the blank one that is made for a first vote.
    pub open spec fn record_of(self, voter: Address) -> VoteRecord {
        if self.votes.dom().contains(voter) {
            self.votes[voter]
        } else {
            VoteRecord::blank()
        }
    }

    /// What the casting of a vote by `voter` acts on.
    pub open spec fn vote_context(self, voter: Address, bump: u8) -> Vote {
        Vote {
            politician_key: self.key,
            politician: self.politician,
            vote_record: self.record_of(voter),
            voter,
            bump,
        }
    }

    /// What a change of `voter`'s vote acts on.
    pub open spec fn change_context(self, voter: Address) -> ChangeVote {
        ChangeVote { politician: self.politician, vote_record: self.record_of(voter) }
    }

    /// Whether `ballot` is accepted, and if not, why.
    pub open spec fn cast_outcome(self, ballot: Ballot) -> Result<(), ErrorCode> {
        self.vote_context(ballot.voter, ballot.bump).outcome(ballot.approve)
    }

    /// The ledger after `ballot` was handed in: changed as the vote changes
    /// its records if the ballot is accepted, and unchanged if not.
    pub open spec fn cast(self, ballot: Ballot) -> Ledger {
        let context = self.vote_context(ballot.voter, ballot.bump);
        if context.outcome(ballot.approve) is Ok {
            let done = context.after(ballot.approve, ballot.now);
            Ledger {
                politician: done.politician,
                votes: self.votes.insert(ballot.voter, done.vote_record),
                ..self
            }
        } else {
            self
        }
    }

    /// Whether `voter`'s vote may be switched to `new_approve`, and if not,
    /// why.
    pub open spec fn switch_outcome(self, voter: Address, new_approve: bool) -> Result<
        (),
        ErrorCode,
    > {
        self.change_context(voter).outcome(new_approve)
    }

    /// The ledger after `voter` asked to switch to `new_approve` at time
    /// `now`: changed as the switch changes its records if it is accepted,
    /// and unchanged if not.
    pub open spec fn switch(self, voter: Address, new_approve: bool, now: i64) -> Ledger {
        let context = self.change_context(voter);
        if context.outcome(new_approve) is Ok {
            let done = context.after(new_approve, now);
            Ledger {
                politician: done.politician,
                votes: self.votes.insert(voter, done.vote_record),
                ..self
            }
        } else {
            self
        }
    }

    /// The ledger after the ballots were handed in, one after the other.
    pub open spec fn cast_all(self, ballots: Seq<Ballot>) -> Ledger
        decreases ballots.len(),
    {
        if ballots.len() == 0 {
            self
        } else {
            self.cast_all(ballots.drop_last()).cast(ballots.last())
        }
    }

    /// Whether each of the ballots is accepted when they are handed in one
    /// after the other.
    pub open spec fn all_accepted(self, ballots: Seq<Ballot>) -> bool
        decreases ballots.len(),
    {
        ballots.len() > 0 ==> {
            &&& self.all_accepted(ballots.drop_last())
            &&& self.cast_all(ballots.drop_last()).cast_outcome(ballots.last()) is Ok
        }
    }

    /// What a reading of the counters acts on.
    pub open spec fn reading(self) -> GetStats {
        GetStats { politician: self.politician }
    }
}

/// The number of ballots of the given polarity.
pub open spec fn ballots_for(ballots: Seq<Ballot>, approve: bool) -> nat
    decreases ballots.len(),
{
    if ballots.len() == 0 {
        0
    } else {
        ballots_for(ballots.drop_last(), approve) + if ballots.last().approve == approve {
            1nat
        } else {
            0nat
        }
    }
}

/// Whether no voter has handed in two of the ballots.
pub open spec fn distinct_voters(ballots: Seq<Ballot>) -> bool {
    forall|i: int, j: int|
        0 <= i < j < ballots.len() ==> (#[trigger] ballots[i]).voter != (#[trigger] ballots[j]).voter
}

/// A ledger that was just opened with both counters at zero is consistent.
pub proof fn lemma_opened_is_consistent(key: Address, politician: Politician)
    requires
        politician.approve_count == 0,
        politician.disapprove_count == 0,
    ensures
        Ledger::opened(key, politician).consistent(),
{
    let ledger = Ledger::opened(key, politician);
    assert(ledger.voters(true) =~= Set::empty());
    assert(ledger.voters(false) =~= Set::empty());
}

/// Handing in a ballot keeps a consistent ledger consistent, whether the
/// ballot is accepted or not: no vote is counted twice and none is dropped.
pub proof fn lemma_cast_keeps_consistent(ledger: Ledger, ballot: Ballot)
    requires
        ledger.consistent(),
    ensures
        ledger.cast(ballot).consistent(),
{
    let after = ledger.cast(ballot);
    if ledger.cast_outcome(ballot) is Ok {
        let voter = ballot.voter;
        assert(!ledger.votes.dom().contains(voter));
        ledger.votes.dom().lemma_len_filter(|v: Address| ledger.votes[v].approve == true);
        ledger.votes.dom().lemma_len_filter(|v: Address| ledger.votes[v].approve == false);
        assert(after.voters(ballot.approve) =~= ledger.voters(ballot.approve).insert(voter));
        assert(after.voters(!ballot.approve) =~= ledger.voters(!ballot.approve));
    }
}

/// A request to switch a vote keeps a consistent ledger consistent, whether
/// it is accepted or not: the two counters move by one in opposite
/// directions exactly when one record changes its polarity.
pub proof fn lemma_switch_keeps_consistent(
    ledger: Ledger,
    voter: Address,
    new_approve: bool,
    now: i64,
)
    requires
        ledger.consistent(),
    ensures
        ledger.switch(voter, new_approve, now).consistent(),
{
    let after = ledger.switch(voter, new_approve, now);
    if ledger.switch_outcome(voter, new_approve) is Ok {
        assert(ledger.votes.dom().contains(voter));
        ledger.votes.dom().lemma_len_filter(|v: Address| ledger.votes[v].approve == true);
        ledger.votes.dom().lemma_len_filter(|v: Address| ledger.votes[v].approve == false);
        assert(after.votes.dom() =~= ledger.votes.dom());
        assert(after.voters(new_approve) =~= ledger.voters(new_approve).insert(voter));
        assert(after.voters(!new_approve) =~= ledger.voters(!new_approve).remove(voter));
    }
}

/// A voter votes once: when a ballot was accepted, every later ballot of the
/// same voter is refused because the voter has voted already, whatever the
/// polarity of either ballot, and the ledger stays as it was.
pub proof fn lemma_second_cast_refused(ledger: Ledger, first: Ballot, second: Ballot)
    requires
        ledger.cast_outcome(first) is Ok,
        second.voter == first.voter,
    ensures
        ledger.cast(first).cast_outcome(second) == Err::<(), ErrorCode>(ErrorCode::AlreadyVoted),
        ledger.cast(first).cast(second) == ledger.cast(first),
{
}

/// Whoever has a vote record that carries a vote cannot cast another vote,
/// whatever else has happened since the record was written.
pub proof fn lemma_cast_refused_once_voted(ledger: Ledger, ballot: Ballot)
    requires
        ledger.record_of(ballot.voter).has_voted,
    ensures
        ledger.cast_outcome(ballot) == Err::<(), ErrorCode>(ErrorCode::AlreadyVoted),
        ledger.cast(ballot) == ledger,
{
}

/// Vote records are never removed by a ballot: whoever has one keeps one,
/// and a record that carries a vote goes on carrying one.
pub proof fn lemma_cast_keeps_vote_records(ledger: Ledger, ballot: Ballot, voter: Address)
    requires
        ledger.votes.dom().contains(voter),
    ensures
        ledger.cast(ballot).votes.dom().contains(voter),
        ledger.votes[voter].has_voted ==> ledger.cast(ballot).votes[voter].has_voted,
{
}

/// Vote records are never removed by a request to switch: whoever has one
/// keeps one, and a record that carries a vote goes on carrying one.
pub proof fn lemma_switch_keeps_vote_records(
    ledger: Ledger,
    switcher: Address,
    new_approve: bool,
    now: i64,
    voter: Address,
)
    requires
        ledger.votes.dom().contains(voter),
    ensures
        ledger.switch(switcher, new_approve, now).votes.dom().contains(voter),
        ledger.votes[voter].has_voted ==> ledger.switch(
            switcher,
            new_approve,
            now,
        ).votes[voter].has_voted,
{
}

/// In a consistent ledger no request to switch a vote is refused for want of
/// a vote to take back: the counter of the polarity that a record has is at
/// least one.
pub proof fn lemma_switch_never_underflows(ledger: Ledger, voter: Address, new_approve: bool)
    requires
        ledger.consistent(),
    ensures
        ledger.switch_outcome(voter, new_approve) != Err::<(), ErrorCode>(ErrorCode::Underflow),
{
    let record = ledger.record_of(voter);
    if record.has_voted && record.approve != new_approve {
        ledger.votes.dom().lemma_len_filter(|v: Address| ledger.votes[v].approve == !new_approve);
        assert(ledger.voters(!new_approve).contains(voter));
    }
}

/// What holds after ballots of distinct voters were handed in to a newly
/// opened ledger, together with who has a vote record by then.
proof fn lemma_distinct_casts(key: Address, politician: Politician, ballots: Seq<Ballot>)
    requires
        politician.approve_count == 0,
        politician.disapprove_count == 0,
        distinct_voters(ballots),
        ballots.len() <= u64::MAX,
    ensures
        Ledger::opened(key, politician).all_accepted(ballots),
        Ledger::opened(key, politician).cast_all(ballots).politician.approve_count == ballots_for(
            ballots,
            true,
        ),
        Ledger::opened(key, politician).cast_all(ballots).politician.disapprove_count
            == ballots_for(ballots, false),
        ballots_for(ballots, true) + ballots_for(ballots, false) == ballots.len(),
        forall|voter: Address|
            Ledger::opened(key, politician).cast_all(ballots).votes.dom().contains(voter) ==> exists|
                i: int,
            |
                0 <= i < ballots.len() && (#[trigger] ballots[i]).voter == voter,
    decreases ballots.len(),
{
    if ballots.len() > 0 {
        let earlier = ballots.drop_last();
        let last = ballots.last();
        assert(distinct_voters(earlier)) by {
            assert forall|i: int, j: int| 0 <= i < j < earlier.len() implies (#[trigger] earlier[i]).voter
                != (#[trigger] earlier[j]).voter by {
                assert(earlier[i] == ballots[i]);
                assert(earlier[j] == ballots[j]);
            }
        }
        lemma_distinct_casts(key, politician, earlier);
        let before = Ledger::opened(key, politician).cast_all(earlier);
        assert(!before.votes.dom().contains(last.voter)) by {
            if before.votes.dom().contains(last.voter) {
                let i = choose|i: int|
                    0 <= i < earlier.len() && (#[trigger] earlier[i]).voter == last.voter;
                assert(earlier[i] == ballots[i]);
                assert(ballots[ballots.len() - 1] == last);
            }
        }
        let after = before.cast(last);
        assert forall|voter: Address| after.votes.dom().contains(voter) implies exists|i: int|
            0 <= i < ballots.len() && (#[trigger] ballots[i]).voter == voter by {
            if voter == last.voter {
                assert(ballots[ballots.len() - 1].voter == voter);
            } else {
                let i = choose|i: int|
                    0 <= i < earlier.len() && (#[trigger] earlier[i]).voter == voter;
                assert(ballots[i].voter == voter);
            }
        }
    }
}

/// Votes of distinct voters are all counted: when the ballots of any number
/// of distinct voters are handed in to a newly opened ledger, each of them is
/// accepted, the counters show the number of approving and of disapproving
/// ballots, a reading shows their number as the total, and, unless there was
/// no ballot, the two shares add up to one hundred.
pub proof fn lemma_distinct_casts_are_all_counted(
    key: Address,
    politician: Politician,
    ballots: Seq<Ballot>,
)
    requires
        politician.approve_count == 0,
        politician.disapprove_count == 0,
        distinct_voters(ballots),
        ballots.len() <= u64::MAX,
    ensures
        Ledger::opened(key, politician).all_accepted(ballots),
        Ledger::opened(key, politician).cast_all(ballots).politician.approve_count == ballots_for(
            ballots,
            true,
        ),
        Ledger::opened(key, politician).cast_all(ballots).politician.disapprove_count
            == ballots_for(ballots, false),
        Ledger::opened(key, politician).cast_all(ballots).reading().countable(),
        Ledger::opened(key, politician).cast_all(ballots).reading().stats().total_votes
            == ballots.len(),
        ballots.len() > 0 ==> Ledger::opened(key, politician).cast_all(
            ballots,
        ).reading().stats().approve_percentage + Ledger::opened(key, politician).cast_all(
            ballots,
        ).reading().stats().disapprove_percentage == 100,
{
    lemma_distinct_casts(key, politician, ballots);
    if ballots.len() > 0 {
        lemma_shares_add_up(Ledger::opened(key, politician).cast_all(ballots).reading());
    }
}

} // verus!
