use vstd::prelude::*;

verus! {

/// The largest number of bytes that a politician's name may occupy.
pub const MAX_NAME_LEN: usize = 50;

/// The location of a record, or the identity of a voter: thirty-two bytes.
#[derive(Clone, Copy, Debug, Eq, Hash)]
pub struct Address {
    pub bytes: [u8; 32],
}

/// The record of one politician: the name it was registered under and the
/// running count of approvals and disapprovals.
#[derive(Clone, Debug, PartialEq, Eq)]
pub struct Politician {
    pub name: String,
    pub approve_count: u64,
    pub disapprove_count: u64,
    pub authority: Address,
    pub bump: u8,
}

/// The record of one voter's position on one politician.
#[derive(Clone, Copy, Debug, PartialEq, Eq)]
pub struct VoteRecord {
    pub voter: Address,
    pub politician: Address,
    pub approve: bool,
    pub has_voted: bool,
    pub timestamp: i64,
    pub bump: u8,
}

/// A snapshot of a politician's counters with the shares they amount to.
#[derive(Clone, Debug, PartialEq, Eq)]
pub struct PoliticianStats {
    pub name: String,
    pub approve_count: u64,
    pub disapprove_count: u64,
    pub total_votes: u64,
    pub approve_percentage: u8,
    pub disapprove_percentage: u8,
}

/// The number of bytes that a name occupies when it is stored.
pub open spec fn byte_len(name: Seq<char>) -> nat {
    vstd::utf8::encode_utf8(name).len()
}

/// The whole percentage, rounded down, that `part` is of `total`; zero where
/// `total` is zero.
pub open spec fn percentage(part: int, total: int) -> int {
    if total > 0 {
        part * 100 / total
    } else {
        0
    }
}

impl View for Address {
    type V = Seq<u8>;

    /// The thirty-two bytes of the address.
    open spec fn view(&self) -> Seq<u8> {
        self.bytes@
    }
}

impl PartialEq for Address {
    fn eq(&self, other: &Address) -> (same: bool) {
        let mut i: usize = 0;
        while i < 32
            invariant
                i <= 32,
                forall|j: int| 0 <= j < i ==> self.bytes[j] == other.bytes[j],
            decreases 32 - i,
        {
            if self.bytes[i] != other.bytes[i] {
                return false;
            }
            i += 1;
        }
        assert(self@ =~= other@);
        true
    }
}

impl vstd::std_specs::cmp::PartialEqSpecImpl for Address {
    open spec fn obeys_eq_spec() -> bool {
        true
    }

    /// Two addresses are equal when their bytes are.
    open spec fn eq_spec(&self, other: &Address) -> bool {
        self@ == other@
    }
}

impl Address {
    /// The address made of zero bytes, which blank records carry.
    pub open spec fn zero() -> Address {
        Address { bytes: vstd::array::spec_array_fill_for_copy_type::<u8, 32>(0u8) }
    }
}

impl Default for Address {
    fn default() -> (address: Address)
        ensures
            address == Address::zero(),
    {
        Address { bytes: [0u8; 32] }
    }
}

impl VoteRecord {
    /// The record as it is before any vote was written to it.
    pub open spec fn blank() -> VoteRecord {
        VoteRecord {
            voter: Address::zero(),
            politician: Address::zero(),
            approve: false,
            has_voted: false,
            timestamp: 0,
            bump: 0,
        }
    }
}

impl Default for VoteRecord {
    fn default() -> (record: VoteRecord)
        ensures
            record == VoteRecord::blank(),
    {
        VoteRecord {
            voter: Address::default(),
            politician: Address::default(),
            approve: false,
            has_voted: false,
            timestamp: 0,
            bump: 0,
        }
    }
}

impl Default for Politician {
    fn default() -> (politician: Politician)
        ensures
            politician.name@ == Seq::<char>::empty(),
            politician.approve_count == 0,
            politician.disapprove_count == 0,
            politician.authority == Address::zero(),
            politician.bump == 0,
    {
        Politician {
            name: String::new(),
            approve_count: 0,
            disapprove_count: 0,
            authority: Address::default(),
            bump: 0,
        }
    }
}

impl Politician {
    /// Whether the name is one that a registration accepts: of at most fifty
    /// bytes.
    pub open spec fn well_formed(self) -> bool {
        byte_len(self.name@) <= MAX_NAME_LEN
    }

    /// The counter that votes of the given polarity are added to.
    pub open spec fn count(self, approve: bool) -> u64 {
        if approve {
            self.approve_count
        } else {
            self.disapprove_count
        }
    }

    /// This record with the counter of the given polarity set to `value`.
    pub open spec fn with_count(self, approve: bool, value: u64) -> Politician {
        if approve {
            Politician { approve_count: value, ..self }
        } else {
            Politician { disapprove_count: value, ..self }
        }
    }

    /// Whether one more vote of the given polarity can be counted.
    pub open spec fn can_credit(self, approve: bool) -> bool {
        self.count(approve) < u64::MAX
    }

    /// Whether one vote of the given polarity can be taken back.
    pub open spec fn can_debit(self, approve: bool) -> bool {
        self.count(approve) > 0
    }

    /// This record after one more vote of the given polarity.
    pub open spec fn credited(self, approve: bool) -> Politician
        recommends
            self.can_credit(approve),
    {
        self.with_count(approve, (self.count(approve) + 1) as u64)
    }

    /// This record after one vote of the given polarity was taken back.
    pub open spec fn debited(self, approve: bool) -> Politician
        recommends
            self.can_debit(approve),
    {
        self.with_count(approve, (self.count(approve) - 1) as u64)
    }

    /// The number of votes counted, of either polarity.
    pub open spec fn total(self) -> int {
        self.approve_count + self.disapprove_count
    }

    /// The share of approvals among the votes counted, as a whole percentage.
    pub open spec fn approve_percentage(self) -> int {
        percentage(self.approve_count as int, self.total())
    }

    /// The share of disapprovals: what the approvals leave of one hundred, so
    /// that the two shares add up to one hundred whenever a vote was counted.
    pub open spec fn disapprove_percentage(self) -> int {
        if self.total() > 0 {
            100 - self.approve_percentage()
        } else {
            0
        }
    }
}

} // verus!
