use vstd::prelude::*;
use crate::error::ErrorCode;
use crate::state::{byte_len, Address, Politician, PoliticianStats, VoteRecord, MAX_NAME_LEN};

verus! {

/// What a registration acts on: the record to be filled, the identity of
/// whoever pays for it, and the salt of the record's address.
#[derive(Clone, Debug, PartialEq, Eq)]
pub struct InitializePolitician {
    pub politician: Politician,
    pub authority: Address,
    pub bump: u8,
}

/// What a vote acts on: the politician's record and its address, the record
/// that is to hold the vote, the voter's identity, and the salt of the vote
/// record's address.
#[derive(Clone, Debug, PartialEq, Eq)]
pub struct Vote {
    pub politician_key: Address,
    pub politician: Politician,
    pub vote_record: VoteRecord,
    pub voter: Address,
    pub bump: u8,
}

/// The records that a change of vote acts on: the politician's record and the
/// record of the vote that is to be switched.
#[derive(Clone, Debug, PartialEq, Eq)]
pub struct ChangeVote {
    pub politician: Politician,
    pub vote_record: VoteRecord,
}

/// The record that a reading of the counters acts on.
#[derive(Clone, Debug, PartialEq, Eq)]
pub struct GetStats {
    pub politician: Politician,
}

impl InitializePolitician {
    /// Whether a politician may be registered under `name`, and if not, why.
    pub open spec fn outcome(self, name: Seq<char>) -> Result<(), ErrorCode> {
        if byte_len(name) > MAX_NAME_LEN {
            Err(ErrorCode::NameTooLong)
        } else {
            Ok(())
        }
    }

    /// The record of a politician newly registered under `name`.
    pub open spec fn registered(self, name: String) -> Politician {
        Politician {
            name,
            approve_count: 0,
            disapprove_count: 0,
            authority: self.authority,
            bump: self.bump,
        }
    }

    /// Everything after a registration under `name` was asked for: the
    /// record filled in if the name is accepted, and as it was if not.
    pub open spec fn after(self, name: String) -> InitializePolitician {
        if self.outcome(name@) is Ok {
            InitializePolitician { politician: self.registered(name), ..self }
        } else {
            self
        }
    }
}

impl Vote {
    /// Whether a vote of the given polarity may be cast, and if not, why.
    pub open spec fn outcome(self, approve: bool) -> Result<(), ErrorCode> {
        if self.vote_record.has_voted {
            Err(ErrorCode::AlreadyVoted)
        } else if !self.politician.can_credit(approve) {
            Err(ErrorCode::Overflow)
        } else {
            Ok(())
        }
    }

    /// The vote record as it is written by a vote cast at time `now`.
    pub open spec fn recorded(self, approve: bool, now: i64) -> VoteRecord {
        VoteRecord {
            voter: self.voter,
            politician: self.politician_key,
            approve,
            has_voted: true,
            timestamp: now,
            bump: self.bump,
        }
    }

    /// Everything after a vote of the given polarity was cast at time `now`.
    pub open spec fn applied(self, approve: bool, now: i64) -> Vote
        recommends
            self.outcome(approve) is Ok,
    {
        Vote {
            politician: self.politician.credited(approve),
            vote_record: self.recorded(approve, now),
            ..self
        }
    }

    /// Everything after a vote of the given polarity was asked for at time
    /// `now`: changed if the vote is accepted, and as it was if not.
    pub open spec fn after(self, approve: bool, now: i64) -> Vote {
        if self.outcome(approve) is Ok {
            self.applied(approve, now)
        } else {
            self
        }
    }
}

impl GetStats {
    /// Whether the number of votes counted fits the snapshot's total.
    pub open spec fn countable(self) -> bool {
        self.politician.total() <= u64::MAX
    }

    /// The snapshot of the politician's counters.
    pub open spec fn stats(self) -> PoliticianStats
        recommends
            self.countable(),
    {
        PoliticianStats {
            name: self.politician.name,
            approve_count: self.politician.approve_count,
            disapprove_count: self.politician.disapprove_count,
            total_votes: self.politician.total() as u64,
            approve_percentage: self.politician.approve_percentage() as u8,
            disapprove_percentage: self.politician.disapprove_percentage() as u8,
        }
    }
}

impl ChangeVote {
    /// Whether the vote may be switched to `new_approve`, and if not, why.
    ///
    /// The reasons are examined in a fixed order, so that exactly one is
    /// reported when several apply.
    pub open spec fn outcome(self, new_approve: bool) -> Result<(), ErrorCode> {
        if !self.vote_record.has_voted {
            Err(ErrorCode::NotVotedYet)
        } else if self.vote_record.approve == new_approve {
            Err(ErrorCode::SameVote)
        } else if !self.politician.can_debit(!new_approve) {
            Err(ErrorCode::Underflow)
        } else if !self.politician.can_credit(new_approve) {
            Err(ErrorCode::Overflow)
        } else {
            Ok(())
        }
    }

    /// The records after the vote was switched to `new_approve` at time `now`.
    pub open spec fn applied(self, new_approve: bool, now: i64) -> ChangeVote
        recommends
            self.outcome(new_approve) is Ok,
    {
        ChangeVote {
            politician: self.politician.debited(!new_approve).credited(new_approve),
            vote_record: VoteRecord { approve: new_approve, timestamp: now, ..self.vote_record },
        }
    }

    /// The records after a switch to `new_approve` was asked for at time
    /// `now`: changed if the switch is accepted, and as they were if not.
    pub open spec fn after(self, new_approve: bool, now: i64) -> ChangeVote {
        if self.outcome(new_approve) is Ok {
            self.applied(new_approve, now)
        } else {
            self
        }
    }
}

/// Registers a politician under `name`.
///
/// The record is filled with the name, both counters at zero, the identity of
/// the payer and the salt. A name of more than fifty bytes is refused and
/// nothing changes.
pub fn initialize_politician(ctx: &mut InitializePolitician, name: String) -> (res: Result<
    (),
    ErrorCode,
>)
    ensures
        res == old(ctx).outcome(name@),
        *final(ctx) == old(ctx).after(name),
        res is Ok ==> final(ctx).politician.well_formed(),
{
    if name.as_str().as_bytes().len() > MAX_NAME_LEN {
        return Err(ErrorCode::NameTooLong);
    }
    ctx.politician.name = name;
    ctx.politician.approve_count = 0;
    ctx.politician.disapprove_count = 0;
    ctx.politician.authority = ctx.authority;
    ctx.politician.bump = ctx.bump;
    Ok(())
}

/// Casts a vote of the given polarity.
///
/// The counter of that polarity is raised by one and the vote record is
/// written with the voter, the politician's address, the polarity, the time
/// `now` and the salt. When the vote is refused, nothing changes.
pub fn vote(ctx: &mut Vote, approve: bool, now: i64) -> (res: Result<(), ErrorCode>)
    ensures
        res == old(ctx).outcome(approve),
        *final(ctx) == old(ctx).after(approve, now),
        old(ctx).politician.well_formed() ==> final(ctx).politician.well_formed(),
{
    if ctx.vote_record.has_voted {
        return Err(ErrorCode::AlreadyVoted);
    }
    if approve {
        ctx.politician.approve_count = match ctx.politician.approve_count.checked_add(1) {
            Some(n) => n,
            None => { return Err(ErrorCode::Overflow); },
        };
    } else {
        ctx.politician.disapprove_count = match ctx.politician.disapprove_count.checked_add(1) {
            Some(n) => n,
            None => { return Err(ErrorCode::Overflow); },
        };
    }
    ctx.vote_record.voter = ctx.voter;
    ctx.vote_record.politician = ctx.politician_key;
    ctx.vote_record.approve = approve;
    ctx.vote_record.has_voted = true;
    ctx.vote_record.timestamp = now;
    ctx.vote_record.bump = ctx.bump;
    Ok(())
}

/// Switches an existing vote to the opposite polarity.
///
/// One vote is taken from the counter of the old polarity and one is added to
/// the counter of the new polarity; the vote record takes the new polarity
/// and the time `now`. When the switch is refused, nothing changes.
pub fn change_vote(ctx: &mut ChangeVote, new_approve: bool, now: i64) -> (res: Result<
    (),
    ErrorCode,
>)
    ensures
        res == old(ctx).outcome(new_approve),
        *final(ctx) == old(ctx).after(new_approve, now),
        old(ctx).politician.well_formed() ==> final(ctx).politician.well_formed(),
{
    if !ctx.vote_record.has_voted {
        return Err(ErrorCode::NotVotedYet);
    }
    if ctx.vote_record.approve == new_approve {
        return Err(ErrorCode::SameVote);
    }
    if ctx.vote_record.approve {
        let approve_count = match ctx.politician.approve_count.checked_sub(1) {
            Some(n) => n,
            None => { return Err(ErrorCode::Underflow); },
        };
        let disapprove_count = match ctx.politician.disapprove_count.checked_add(1) {
            Some(n) => n,
            None => { return Err(ErrorCode::Overflow); },
        };
        ctx.politician.approve_count = approve_count;
        ctx.politician.disapprove_count = disapprove_count;
    } else {
        let disapprove_count = match ctx.politician.disapprove_count.checked_sub(1) {
            Some(n) => n,
            None => { return Err(ErrorCode::Underflow); },
        };
        let approve_count = match ctx.politician.approve_count.checked_add(1) {
            Some(n) => n,
            None => { return Err(ErrorCode::Overflow); },
        };
        ctx.politician.disapprove_count = disapprove_count;
        ctx.politician.approve_count = approve_count;
    }
    ctx.vote_record.approve = new_approve;
    ctx.vote_record.timestamp = now;
    Ok(())
}

/// Reads a politician's counters and works out the shares.
///
/// The share of approvals is the whole percentage, rounded down, that the
/// approvals are of all votes; the share of disapprovals is what is left of
/// one hundred. With no vote counted both shares are zero.
pub fn get_stats(ctx: &GetStats) -> (res: Result<PoliticianStats, ErrorCode>)
    requires
        ctx.countable(),
    ensures
        res == Ok::<PoliticianStats, ErrorCode>(ctx.stats()),
{
    let politician = &ctx.politician;
    let total = politician.approve_count + politician.disapprove_count;
    let (approve_percentage, disapprove_percentage) = if total > 0 {
        let scaled = politician.approve_count as u128 * 100;
        assert(scaled / (total as u128) <= 100) by (nonlinear_arith)
            requires
                scaled <= 100 * (total as u128),
                total > 0,
        ;
        let approve_pct = (scaled / total as u128) as u8;
        (approve_pct, 100 - approve_pct)
    } else {
        (0, 0)
    };
    Ok(
        PoliticianStats {
            name: politician.name.clone(),
            approve_count: politician.approve_count,
            disapprove_count: politician.disapprove_count,
            total_votes: total,
            approve_percentage,
            disapprove_percentage,
        },
    )
}

/// A politician registered under a name of at most fifty bytes has no votes:
/// a reading of the new record shows both counters, the total and both
/// shares at zero.
pub proof fn lemma_registered_politician_has_no_votes(ctx: InitializePolitician, name: String)
    requires
        byte_len(name@) <= MAX_NAME_LEN,
    ensures
        ctx.outcome(name@) is Ok,
        (GetStats { politician: ctx.after(name).politician }).countable(),
        (GetStats { politician: ctx.after(name).politician }).stats() == (PoliticianStats {
            name,
            approve_count: 0,
            disapprove_count: 0,
            total_votes: 0,
            approve_percentage: 0,
            disapprove_percentage: 0,
        }),
{
}

/// An accepted vote raises the counter of its polarity by exactly one and
/// leaves the other counter alone. The new count is the old count plus one
/// as a whole number: nothing wraps around.
pub proof fn lemma_vote_counts_once(ctx: Vote, approve: bool, now: i64)
    requires
        ctx.outcome(approve) is Ok,
    ensures
        ctx.after(approve, now).politician.count(approve) == ctx.politician.count(approve) + 1,
        ctx.after(approve, now).politician.count(!approve) == ctx.politician.count(!approve),
        ctx.after(approve, now).politician.total() == ctx.politician.total() + 1,
{
}

/// A vote for a counter that stands at its maximum is refused as an
/// overflow, and every record stays as it was.
pub proof fn lemma_vote_at_maximum_overflows(ctx: Vote, approve: bool, now: i64)
    requires
        !ctx.vote_record.has_voted,
        ctx.politician.count(approve) == u64::MAX,
    ensures
        ctx.outcome(approve) == Err::<(), ErrorCode>(ErrorCode::Overflow),
        ctx.after(approve, now) == ctx,
{
}

/// An accepted switch moves exactly one vote from the counter of the old
/// polarity to the counter of the new one, so the total stays the same.
/// Both new counts are whole-number results: nothing wraps around and no
/// count falls below zero.
pub proof fn lemma_switch_moves_one_vote(ctx: ChangeVote, new_approve: bool, now: i64)
    requires
        ctx.outcome(new_approve) is Ok,
    ensures
        ctx.after(new_approve, now).politician.count(new_approve) == ctx.politician.count(
            new_approve,
        ) + 1,
        ctx.after(new_approve, now).politician.count(!new_approve) == ctx.politician.count(
            !new_approve,
        ) - 1,
        ctx.after(new_approve, now).politician.total() == ctx.politician.total(),
{
}

/// A switch undoes the switch before it: after an accepted switch, the
/// switch back is accepted as well and restores the politician's record;
/// the vote record differs from the first one in its time alone.
pub proof fn lemma_switch_back_restores(ctx: ChangeVote, new_approve: bool, now: i64, later: i64)
    requires
        ctx.outcome(new_approve) is Ok,
    ensures
        ctx.after(new_approve, now).outcome(!new_approve) is Ok,
        ctx.after(new_approve, now).after(!new_approve, later).politician == ctx.politician,
        ctx.after(new_approve, now).after(!new_approve, later).vote_record == (VoteRecord {
            timestamp: later,
            ..ctx.vote_record
        }),
{
}

/// A vote that is cast, switched and switched back counts as it did when it
/// was cast: unless the counter of the other polarity is full, the switch of
/// a vote just cast is accepted, and after the switch back the politician's
/// record is the one that the cast left.
pub proof fn lemma_cast_switch_and_back(
    ctx: Vote,
    approve: bool,
    now: i64,
    then: i64,
    later: i64,
)
    requires
        ctx.outcome(approve) is Ok,
        ctx.politician.can_credit(!approve),
    ensures
        (ChangeVote {
            politician: ctx.after(approve, now).politician,
            vote_record: ctx.after(approve, now).vote_record,
        }).outcome(!approve) is Ok,
        (ChangeVote {
            politician: ctx.after(approve, now).politician,
            vote_record: ctx.after(approve, now).vote_record,
        }).after(!approve, then).after(approve, later).politician == ctx.after(
            approve,
            now,
        ).politician,
{
    let cast = ChangeVote {
        politician: ctx.after(approve, now).politician,
        vote_record: ctx.after(approve, now).vote_record,
    };
    lemma_switch_back_restores(cast, !approve, then, later);
}

/// A switch to the polarity that the vote already has is refused as such,
/// and every record stays as it was, the time of the vote included.
pub proof fn lemma_switch_to_same_vote_refused(ctx: ChangeVote, new_approve: bool, now: i64)
    requires
        ctx.vote_record.has_voted,
        ctx.vote_record.approve == new_approve,
    ensures
        ctx.outcome(new_approve) == Err::<(), ErrorCode>(ErrorCode::SameVote),
        ctx.after(new_approve, now) == ctx,
{
}

/// Whenever at least one vote was counted, the two shares of a reading add
/// up to one hundred, and neither exceeds it.
pub proof fn lemma_shares_add_up(ctx: GetStats)
    requires
        ctx.countable(),
        ctx.politician.total() > 0,
    ensures
        0 <= ctx.politician.approve_percentage() <= 100,
        ctx.stats().approve_percentage == ctx.politician.approve_percentage(),
        ctx.stats().approve_percentage + ctx.stats().disapprove_percentage == 100,
{
    let part = ctx.politician.approve_count as int;
    let total = ctx.politician.total();
    assert(0 <= part * 100 / total <= 100) by (nonlinear_arith)
        requires
            0 <= part <= total,
            total > 0,
    ;
}

} // verus!
