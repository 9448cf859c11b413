//! An approval ledger for public figures.
//!
//! Every politician has one record that carries two running counters, one for
//! approvals and one for disapprovals. Every voter holds at most one vote
//! record for each politician; the vote may later be switched to the opposite
//! polarity but is never withdrawn.
//!
//! * [`state`] holds the records.
//! * [`instructions`] holds the four operations. Each acts on the records it
//!   is handed and either applies its whole effect or leaves every record as
//!   it was; its contract names the one outcome and the one effect that each
//!   input has.
//! * [`address`] derives the place of each record from what identifies it.
//! * [`ledger`] is a model of everything stored about one politician, with
//!   the proofs that the counters always say what the vote records say.
//! * [`error`] lists the reasons for which an operation refuses to act.

pub mod address;
pub mod error;
pub mod instructions;
pub mod ledger;
pub mod state;

pub use crate::address::{politician_address, vote_record_address};
pub use crate::error::ErrorCode;
pub use crate::instructions::{
    change_vote, get_stats, initialize_politician, vote, ChangeVote, GetStats,
    InitializePolitician, Vote,
};
pub use crate::state::{Address, Politician, PoliticianStats, VoteRecord, MAX_NAME_LEN};
