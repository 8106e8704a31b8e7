//! The user table's rows and the rows of the leaderboard query.
use vstd::prelude::*;

verus! {

/// A user row as the contracts see it.
pub struct UserRecord {
    pub id: nat,
    pub username: Seq<char>,
}

/// A leaderboard row as the contracts see it.
pub struct RankedRow {
    pub votes: nat,
    pub username: Seq<char>,
    pub rank: nat,
}

/// A user that can be voted for. `id` is assigned on creation.
#[derive(Clone, Debug)]
pub struct Model {
    pub id: u64,
    pub username: String,
}

impl View for Model {
    type V = UserRecord;

    open spec fn view(&self) -> UserRecord {
        UserRecord { id: self.id as nat, username: self.username@ }
    }
}

/// One row of the leaderboard: a username, its number of votes and its rank.
#[derive(Clone, Debug)]
pub struct UserWithVotes {
    pub votes: u64,
    pub username: String,
    pub rank: u64,
}

impl View for UserWithVotes {
    type V = RankedRow;

    open spec fn view(&self) -> RankedRow {
        RankedRow { votes: self.votes as nat, username: self.username@, rank: self.rank as nat }
    }
}

/// The views of a sequence of leaderboard rows.
pub open spec fn row_views(rows: Seq<UserWithVotes>) -> Seq<RankedRow> {
    rows.map_values(|x: UserWithVotes| x@)
}

} // verus!
