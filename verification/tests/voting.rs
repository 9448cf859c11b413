use rate_my_politician::{vote, Address, ErrorCode, Politician, Vote, VoteRecord};

fn key(byte: u8) -> Address {
    Address { bytes: [byte; 32] }
}

fn politician(approve_count: u64, disapprove_count: u64) -> Politician {
    Politician {
        name: "Alice Example".to_string(),
        approve_count,
        disapprove_count,
        authority: key(9),
        bump: 254,
    }
}

fn first_vote(politician: Politician, voter: Address) -> Vote {
    Vote {
        politician_key: key(1),
        politician,
        vote_record: VoteRecord::default(),
        voter,
        bump: 253,
    }
}

#[test]
fn blank_vote_record_is_empty() {
    assert_eq!(
        VoteRecord::default(),
        VoteRecord {
            voter: Address { bytes: [0u8; 32] },
            politician: Address { bytes: [0u8; 32] },
            approve: false,
            has_voted: false,
            timestamp: 0,
            bump: 0,
        }
    );
}

#[test]
fn approval_is_counted_and_recorded() {
    let mut ctx = first_vote(politician(4, 6), key(21));
    assert_eq!(vote(&mut ctx, true, 1_700_000_000), Ok(()));
    assert_eq!(ctx.politician, politician(5, 6));
    assert_eq!(
        ctx.vote_record,
        VoteRecord {
            voter: key(21),
            politician: key(1),
            approve: true,
            has_voted: true,
            timestamp: 1_700_000_000,
            bump: 253,
        }
    );
    assert_eq!(ctx.politician_key, key(1));
    assert_eq!(ctx.voter, key(21));
    assert_eq!(ctx.bump, 253);
}

#[test]
fn disapproval_is_counted_and_recorded() {
    let mut ctx = first_vote(politician(4, 6), key(22));
    assert_eq!(vote(&mut ctx, false, -5), Ok(()));
    assert_eq!(ctx.politician, politician(4, 7));
    assert_eq!(
        ctx.vote_record,
        VoteRecord {
            voter: key(22),
            politician: key(1),
            approve: false,
            has_voted: true,
            timestamp: -5,
            bump: 253,
        }
    );
}

#[test]
fn second_vote_is_refused_whatever_the_polarities() {
    for first in [true, false] {
        for second in [true, false] {
            let mut ctx = first_vote(politician(0, 0), key(21));
            assert_eq!(vote(&mut ctx, first, 100), Ok(()));
            let after_first = ctx.clone();
            assert_eq!(vote(&mut ctx, second, 200), Err(ErrorCode::AlreadyVoted));
            assert_eq!(ctx, after_first);
        }
    }
}

#[test]
fn second_vote_is_refused_after_others_have_voted() {
    let mut mine = first_vote(politician(0, 0), key(21));
    assert_eq!(vote(&mut mine, true, 100), Ok(()));
    let mut theirs = first_vote(mine.politician.clone(), key(22));
    assert_eq!(vote(&mut theirs, false, 101), Ok(()));
    let mut again = Vote {
        politician_key: key(1),
        politician: theirs.politician.clone(),
        vote_record: mine.vote_record,
        voter: key(21),
        bump: 253,
    };
    let untouched = again.clone();
    assert_eq!(vote(&mut again, false, 102), Err(ErrorCode::AlreadyVoted));
    assert_eq!(again, untouched);
    assert_eq!(again.politician, politician(1, 1));
}

#[test]
fn already_voted_is_reported_before_overflow() {
    let mut ctx = first_vote(politician(u64::MAX, u64::MAX), key(21));
    ctx.vote_record.has_voted = true;
    assert_eq!(vote(&mut ctx, true, 1), Err(ErrorCode::AlreadyVoted));
}

#[test]
fn disapproval_at_the_maximum_overflows() {
    let mut ctx = first_vote(politician(12, u64::MAX - 1), key(21));
    assert_eq!(vote(&mut ctx, false, 1), Ok(()));
    assert_eq!(ctx.politician, politician(12, u64::MAX));

    let mut next = first_vote(ctx.politician.clone(), key(22));
    let untouched = next.clone();
    assert_eq!(vote(&mut next, false, 2), Err(ErrorCode::Overflow));
    assert_eq!(next, untouched);
    assert_eq!(next.politician.approve_count, 12);
    assert_eq!(next.politician.disapprove_count, u64::MAX);
    assert_eq!(next.vote_record, VoteRecord::default());
}

#[test]
fn approval_at_the_maximum_overflows() {
    let mut ctx = first_vote(politician(u64::MAX, 3), key(21));
    let untouched = ctx.clone();
    assert_eq!(vote(&mut ctx, true, 1), Err(ErrorCode::Overflow));
    assert_eq!(ctx, untouched);
}

#[test]
fn full_counter_does_not_block_the_other() {
    let mut ctx = first_vote(politician(u64::MAX, 3), key(21));
    assert_eq!(vote(&mut ctx, false, 1), Ok(()));
    assert_eq!(ctx.politician, politician(u64::MAX, 4));
}
