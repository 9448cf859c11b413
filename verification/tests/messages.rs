use rate_my_politician::ErrorCode;

#[test]
fn every_error_has_its_message() {
    assert_eq!(
        ErrorCode::NameTooLong.message(),
        "Politician name is too long (max 50 characters)"
    );
    assert_eq!(ErrorCode::AlreadyVoted.message(), "User has already voted for this politician");
    assert_eq!(ErrorCode::NotVotedYet.message(), "User has not voted yet");
    assert_eq!(ErrorCode::SameVote.message(), "New vote is the same as current vote");
    assert_eq!(ErrorCode::Overflow.message(), "Numerical overflow occurred");
    assert_eq!(ErrorCode::Underflow.message(), "Numerical underflow occurred");
}

#[test]
fn errors_are_told_apart() {
    let all = [
        ErrorCode::NameTooLong,
        ErrorCode::AlreadyVoted,
        ErrorCode::NotVotedYet,
        ErrorCode::SameVote,
        ErrorCode::Overflow,
        ErrorCode::Underflow,
    ];
    for (i, a) in all.iter().enumerate() {
        for (j, b) in all.iter().enumerate() {
            assert_eq!(a == b, i == j);
            assert_eq!(a.message() == b.message(), i == j);
        }
    }
}
