use vstd::prelude::*;

verus! {

/// The reasons for which an operation refuses to act.
#[derive(Clone, Copy, Debug, PartialEq, Eq, Structural)]
pub enum ErrorCode {
    /// The name offered at registration occupies more than fifty bytes.
    NameTooLong,
    /// The vote record already carries a vote.
    AlreadyVoted,
    /// The vote record carries no vote that could be switched.
    NotVotedYet,
    /// The requested polarity is the one the vote record already has.
    SameVote,
    /// A counter stands at its maximum and cannot be raised.
    Overflow,
    /// A counter stands at zero and cannot be lowered.
    Underflow,
}

impl ErrorCode {
    /// The text shown to a caller for each error.
    pub open spec fn spec_message(self) -> Seq<char> {
        match self {
            ErrorCode::NameTooLong => "Politician name is too long (max 50 characters)"@,
            ErrorCode::AlreadyVoted => "User has already voted for this politician"@,
            ErrorCode::NotVotedYet => "User has not voted yet"@,
            ErrorCode::SameVote => "New vote is the same as current vote"@,
            ErrorCode::Overflow => "Numerical overflow occurred"@,
            ErrorCode::Underflow => "Numerical underflow occurred"@,
        }
    }

    /// Returns the text shown to a caller for this error.
    pub fn message(&self) -> (text: &'static str)
        ensures
            text@ == self.spec_message(),
    {
        match self {
            ErrorCode::NameTooLong => "Politician name is too long (max 50 characters)",
            ErrorCode::AlreadyVoted => "User has already voted for this politician",
            ErrorCode::NotVotedYet => "User has not voted yet",
            ErrorCode::SameVote => "New vote is the same as current vote",
            ErrorCode::Overflow => "Numerical overflow occurred",
            ErrorCode::Underflow => "Numerical underflow occurred",
        }
    }
}

} // verus!
