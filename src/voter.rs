//! The voter table's rows: one consumed vote per client address.
use vstd::prelude::*;

verus! {

/// A voter row as the contracts see it.
pub struct VoterRecord {
    pub id: nat,
    pub address: Seq<char>,
    pub voted_user_id: nat,
}

/// The vote of one client address for one user.
#[derive(Clone, Debug)]
pub struct Model {
    pub id: u64,
    pub address: String,
    pub voted_user_id: u64,
}

impl View for Model {
    type V = VoterRecord;

    open spec fn view(&self) -> VoterRecord {
        VoterRecord {
            id: self.id as nat,
            address: self.address@,
            voted_user_id: self.voted_user_id as nat,
        }
    }
}

/// Why a vote could not be recorded.
#[derive(Clone, Copy, Debug, PartialEq, Eq, Structural)]
pub enum VoterError {
    /// The address already has a vote.
    AlreadyVoted,
    /// The store could not take the row: the user does not exist or the
    /// voter ids are exhausted.
    ModelError,
}

/// Why a vote could not be retracted.
#[derive(Clone, Copy, Debug, PartialEq, Eq, Structural)]
pub enum DeleteVoterError {
    /// The address has no vote.
    NotFound,
}

} // verus!
