//! The leaderboard's response: a page of ranked rows and where it stands.
use vstd::prelude::*;

use crate::ranking::{filter_prefix, last_page, leaderboard_page, matching};
use crate::store::VoteStore;
use crate::text::{lower_of, to_lowercase};
use crate::user;
use crate::user::{row_views, RankedRow, UserWithVotes};

verus! {

/// Where a leaderboard page stands: its number, the last page's number, and
/// the number of rows over all pages.
#[derive(Clone, Copy, Debug, PartialEq, Eq, Structural)]
pub struct Pagination {
    pub current: u64,
    pub last: u64,
    pub entries: u64,
}

/// One row of a leaderboard response.
#[derive(Clone, Debug)]
pub struct User {
    pub username: String,
    pub votes: u64,
    pub rank: u64,
}

impl View for User {
    type V = RankedRow;

    open spec fn view(&self) -> RankedRow {
        RankedRow { votes: self.votes as nat, username: self.username@, rank: self.rank as nat }
    }
}

impl From<UserWithVotes> for User {
    fn from(user: UserWithVotes) -> (r: User) {
        User { username: user.username, votes: user.votes, rank: user.rank }
    }
}

impl vstd::std_specs::convert::FromSpecImpl<UserWithVotes> for User {
    open spec fn obeys_from_spec() -> bool {
        true
    }

    open spec fn from_spec(user: UserWithVotes) -> User {
        User { username: user.username, votes: user.votes, rank: user.rank }
    }
}

/// A page of the leaderboard.
#[derive(Clone, Debug)]
pub struct LeaderboardResponse {
    pub pagination: Pagination,
    pub users: Vec<User>,
}

/// The views of a sequence of response rows.
pub open spec fn user_views(users: Seq<User>) -> Seq<RankedRow> {
    users.map_values(|x: User| x@)
}

impl LeaderboardResponse {
    /// A response holding these rows, in this order.
    pub fn new(users: Vec<UserWithVotes>, pagination: Pagination) -> (r: LeaderboardResponse)
        ensures
            r.pagination == pagination,
            user_views(r.users@) == row_views(users@),
    {
        let mut out: Vec<User> = Vec::new();
        let mut i: usize = 0;
        while i < users.len()
            invariant
                i <= users@.len(),
                user_views(out@) == row_views(users@.subrange(0, i as int)),
            decreases users@.len() - i,
        {
            let row = UserWithVotes {
                votes: users[i].votes,
                username: users[i].username.clone(),
                rank: users[i].rank,
            };
            let ghost before = out@;
            let ghost row_view = row@;
            let u = User::from(row);
            assert(u@ == row_view);
            assert(row_view == users@[i as int]@);
            out.push(u);
            assert(user_views(out@) =~= user_views(before).push(u@));
            assert(row_views(users@.subrange(0, i as int + 1)) =~= row_views(users@.subrange(0, i as int)).push(users@[i as int]@));
            assert(user_views(out@) =~= row_views(users@.subrange(0, i as int + 1)));
            i += 1;
        }
        assert(users@.subrange(0, users@.len() as int) =~= users@);
        LeaderboardResponse { pagination, users: out }
    }
}

/// Why a leaderboard page could not be served.
#[derive(Clone, Copy, Debug, PartialEq, Eq, Structural)]
pub enum LeaderboardError {
    /// Pages are counted from 1.
    InvalidPage,
    /// The page lies past the last one.
    PageNotFound,
}

/// The prefix that a username filter selects: the filter, lowercased.
pub open spec fn lowered_filter(username: Option<String>) -> Seq<char> {
    match username {
        Some(u) => lower_of(u@),
        None => Seq::empty(),
    }
}

/// Page `page` (counted from 1) of `page_size` rows of the leaderboard,
/// restricted to usernames that start with the lowercased filter when one is
/// given. A page past the last one is refused before any row is read.
pub fn leaderboard(store: &VoteStore, page_size: u64, username: &Option<String>, page: u64) -> (r:
    Result<LeaderboardResponse, LeaderboardError>)
    requires
        store@.well_formed(),
        page_size > 0,
    ensures
        ({
            let prefix = lowered_filter(*username);
            let entries = matching(store@, prefix).len();
            let last = last_page(entries, page_size as nat);
            match r {
                Ok(resp) => 1 <= page <= last && resp.pagination == (Pagination {
                    current: page,
                    last: last as u64,
                    entries: entries as u64,
                }) && user_views(resp.users@) == leaderboard_page(
                    store@,
                    prefix,
                    page as nat,
                    page_size as nat,
                ),
                Err(LeaderboardError::InvalidPage) => page == 0,
                Err(LeaderboardError::PageNotFound) => 1 <= page && page > last,
            }
        }),
{
    if page == 0 {
        return Err(LeaderboardError::InvalidPage);
    }
    let filter: Option<String> = match username {
        Some(u) => Some(to_lowercase(u.as_str())),
        None => None,
    };
    assert(filter_prefix(crate::text::opt_text(filter)) == lowered_filter(*username));
    let mut pagination = user::Model::get_leaderboard_pagination(store, page_size, &filter);
    pagination.current = page;
    if page > pagination.last {
        return Err(LeaderboardError::PageNotFound);
    }
    let users = user::Model::find_leaderboard(store, &filter, page, page_size);
    Ok(LeaderboardResponse::new(users, pagination))
}

} // verus!
