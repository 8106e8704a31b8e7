//! The vote store: users, and at most one voter row per client address.
use vstd::prelude::*;

use crate::leaderboard::Pagination;
use crate::ranking::{
    ahead, filter_prefix, last_page, lemma_insert_ranked_at, lemma_prefix_filter,
    lemma_ranking_order, leaderboard_page, matching, page_end, page_start,
    positions, ranking, ranking_upto, shows_prefix,
};
use crate::text::{opt_text, starts_with};
use crate::user;
use crate::user::{row_views, UserRecord, UserWithVotes};
use crate::voter;
use crate::voter::{DeleteVoterError, VoterError, VoterRecord};

verus! {

/// The contents of a vote store.
pub struct StoreState {
    pub users: Seq<UserRecord>,
    pub voters: Seq<VoterRecord>,
    /// The id that the next voter row receives.
    pub next_voter_id: nat,
}

/// A voter row that refers to the user `uid`.
pub open spec fn references(uid: nat) -> spec_fn(VoterRecord) -> bool {
    |v: VoterRecord| v.voted_user_id == uid
}

impl StoreState {
    /// The store's invariant: user ids are their positions, usernames are
    /// unique, each voter refers to an existing user, addresses are unique,
    /// and voter ids are increasing and below `next_voter_id`.
    pub open spec fn well_formed(self) -> bool {
        &&& forall|i: int| 0 <= i < self.users.len() ==> #[trigger] self.users[i].id == i
        &&& forall|i: int, j: int|
            #![trigger self.users[i], self.users[j]]
            0 <= i < j < self.users.len() ==> self.users[i].username != self.users[j].username
        &&& forall|i: int|
            0 <= i < self.voters.len() ==> #[trigger] self.voters[i].voted_user_id
                < self.users.len()
        &&& forall|i: int, j: int|
            #![trigger self.voters[i], self.voters[j]]
            0 <= i < j < self.voters.len() ==> self.voters[i].address != self.voters[j].address
                && self.voters[i].id < self.voters[j].id
        &&& forall|i: int|
            0 <= i < self.voters.len() ==> #[trigger] self.voters[i].id < self.next_voter_id
    }

    /// Some user has this username.
    pub open spec fn has_user(self, name: Seq<char>) -> bool {
        exists|i: int| 0 <= i < self.users.len() && #[trigger] self.users[i].username == name
    }

    /// The id of the user with this username, or the id that a new user
    /// with it would receive.
    pub open spec fn user_id_of(self, name: Seq<char>) -> nat {
        if self.has_user(name) {
            (choose|i: int| 0 <= i < self.users.len() && #[trigger] self.users[i].username == name) as nat
        } else {
            self.users.len()
        }
    }

    /// The store after get-or-create of the user with this username.
    pub open spec fn with_user(self, name: Seq<char>) -> StoreState {
        if self.has_user(name) {
            self
        } else {
            StoreState {
                users: self.users.push(UserRecord { id: self.users.len(), username: name }),
                ..self
            }
        }
    }

    /// Some voter row has this address.
    pub open spec fn has_voter(self, address: Seq<char>) -> bool {
        exists|i: int| 0 <= i < self.voters.len() && #[trigger] self.voters[i].address == address
    }

    /// The position of the voter row with this address.
    pub open spec fn voter_index(self, address: Seq<char>) -> int {
        choose|i: int| 0 <= i < self.voters.len() && #[trigger] self.voters[i].address == address
    }

    /// The store after a new voter row for `address` and the user `uid`.
    pub open spec fn with_voter(self, address: Seq<char>, uid: nat) -> StoreState {
        StoreState {
            voters: self.voters.push(
                VoterRecord { id: self.next_voter_id, address, voted_user_id: uid },
            ),
            next_voter_id: self.next_voter_id + 1,
            ..self
        }
    }

    /// The store after the voter row for `address` is deleted.
    pub open spec fn without_voter(self, address: Seq<char>) -> StoreState {
        StoreState { voters: self.voters.remove(self.voter_index(address)), ..self }
    }

    /// The username voted for from `address`, if that address has voted.
    pub open spec fn voted_user(self, address: Seq<char>) -> Option<Seq<char>> {
        if self.has_voter(address) {
            Some(
                self.users[self.voters[self.voter_index(address)].voted_user_id as int].username,
            )
        } else {
            None
        }
    }

    /// The number of votes for the user `uid`.
    pub open spec fn votes(self, uid: nat) -> nat {
        self.voters.filter(references(uid)).len()
    }
}

/// A sequence of ids as naturals.
spec fn ids_of(v: Seq<usize>) -> Seq<nat> {
    v.map_values(|x: usize| x as nat)
}

/// A sequence of positions as integers.
spec fn positions_of(v: Seq<usize>) -> Seq<int> {
    v.map_values(|x: usize| x as int)
}

/// Users and their votes, with at most one vote per client address.
pub struct VoteStore {
    users: Vec<user::Model>,
    voters: Vec<voter::Model>,
    next_voter_id: u64,
}

impl View for VoteStore {
    type V = StoreState;

    closed spec fn view(&self) -> StoreState {
        StoreState {
            users: self.users@.map_values(|u: user::Model| u@),
            voters: self.voters@.map_values(|v: voter::Model| v@),
            next_voter_id: self.next_voter_id as nat,
        }
    }
}

impl VoteStore {
    /// An empty store.
    pub fn new() -> (r: VoteStore)
        ensures
            r@.users == Seq::<UserRecord>::empty(),
            r@.voters == Seq::<VoterRecord>::empty(),
            r@.next_voter_id == 0,
            r@.well_formed(),
    {
        let r = VoteStore { users: Vec::new(), voters: Vec::new(), next_voter_id: 0 };
        assert(r@.users =~= Seq::<UserRecord>::empty());
        assert(r@.voters =~= Seq::<VoterRecord>::empty());
        r
    }

    /// The number of user rows.
    pub fn user_count(&self) -> (r: usize)
        ensures
            r == self@.users.len(),
    {
        self.users.len()
    }

    /// The number of voter rows.
    pub fn voter_count(&self) -> (r: usize)
        ensures
            r == self@.voters.len(),
    {
        self.voters.len()
    }

    /// The number of votes of each user, by id.
    fn tallies(&self) -> (r: Vec<usize>)
        requires
            self@.well_formed(),
        ensures
            r@.len() == self@.users.len(),
            forall|u: int| 0 <= u < r@.len() ==> #[trigger] r@[u] as nat == self@.votes(u as nat),
    {
        let n = self.users.len();
        let mut counts: Vec<usize> = Vec::new();
        let mut u: usize = 0;
        while u < n
            invariant
                n == self@.users.len(),
                u <= n,
                counts@.len() == u,
                forall|k: int| 0 <= k < u ==> #[trigger] counts@[k] == 0,
            decreases n - u,
        {
            counts.push(0);
            u += 1;
        }
        let ghost vs = self@.voters;
        proof {
            reveal(Seq::filter);
        }
        let mut i: usize = 0;
        while i < self.voters.len()
            invariant
                self@.well_formed(),
                n == self@.users.len(),
                counts@.len() == n,
                vs == self@.voters,
                vs.len() == self.voters@.len(),
                i <= vs.len(),
                forall|k: int|
                    0 <= k < n ==> #[trigger] counts@[k] as nat == vs.subrange(0, i as int).filter(
                        references(k as nat),
                    ).len(),
            decreases self.voters.len() - i,
        {
            let uid = self.voters[i].voted_user_id;
            assert(vs[i as int] == self.voters@[i as int]@);
            assert(vs[i as int].voted_user_id < n);
            let ghost sub = vs.subrange(0, i as int + 1);
            proof {
                broadcast use vstd::seq_lib::group_filter_ensures;

                assert(sub.drop_last() =~= vs.subrange(0, i as int));
                assert(vs.subrange(0, i as int).filter(references(uid as nat)).len() <= i);
            }
            let c = counts[uid as usize];
            counts.set(uid as usize, c + 1);
            assert forall|k: int| 0 <= k < n implies #[trigger] counts@[k] as nat == sub.filter(
                references(k as nat),
            ).len() by {
                reveal(Seq::filter);
                assert(sub.drop_last() =~= vs.subrange(0, i as int));
                assert(sub.last() == vs[i as int]);
            }
            i += 1;
        }
        assert(vs.subrange(0, vs.len() as int) =~= vs);
        counts
    }

    /// The ids of the users with votes, in leaderboard order.
    fn ranked(&self, counts: &Vec<usize>) -> (r: Vec<usize>)
        requires
            self@.well_formed(),
            counts@.len() == self@.users.len(),
            forall|u: int| 0 <= u < counts@.len() ==> #[trigger] counts@[u] as nat == self@.votes(u as nat),
        ensures
            ids_of(r@) == ranking(self@),
    {
        let n = counts.len();
        let ghost s = self@;
        let mut l: Vec<usize> = Vec::new();
        let mut u: usize = 0;
        assert(ids_of(l@) =~= ranking_upto(s, 0));
        while u < n
            invariant
                s == self@,
                n == counts@.len(),
                forall|x: int| 0 <= x < counts@.len() ==> #[trigger] counts@[x] as nat == s.votes(x as nat),
                u <= n,
                ids_of(l@) == ranking_upto(s, u as nat),
                forall|k: int| 0 <= k < l@.len() ==> #[trigger] l@[k] < u,
            decreases n - u,
        {
            if counts[u] > 0 {
                let mut j: usize = 0;
                while j < l.len() && !(counts[u] > counts[l[j]] || (counts[u] == counts[l[j]] && u < l[j]))
                    invariant
                        n == counts@.len(),
                        u < n,
                        forall|x: int| 0 <= x < counts@.len() ==> #[trigger] counts@[x] as nat == s.votes(x as nat),
                        forall|k: int| 0 <= k < l@.len() ==> #[trigger] l@[k] < u,
                        j <= l@.len(),
                        forall|k: int| 0 <= k < j ==> !ahead(s, u as nat, #[trigger] ids_of(l@)[k]),
                    decreases l@.len() - j,
                {
                    assert(ids_of(l@)[j as int] == l@[j as int] as nat);
                    j += 1;
                }
                proof {
                    if j < l@.len() {
                        assert(ids_of(l@)[j as int] == l@[j as int] as nat);
                    }
                    lemma_insert_ranked_at(s, ids_of(l@), u as nat, j as int);
                }
                let ghost before = l@;
                l.insert(j, u);
                assert(ids_of(l@) =~= ids_of(before).insert(j as int, u as nat));
            }
            assert(ids_of(l@) == ranking_upto(s, (u + 1) as nat));
            u += 1;
        }
        l
    }

    /// The positions in the ranking `g` whose user's name starts with `prefix`.
    fn matching_positions(&self, g: &Vec<usize>, prefix: &str) -> (r: Vec<usize>)
        requires
            self@.well_formed(),
            ids_of(g@) == ranking(self@),
        ensures
            positions_of(r@) == matching(self@, prefix@),
            forall|k: int| 0 <= k < r@.len() ==> #[trigger] r@[k] < g@.len(),
    {
        let ghost s = self@;
        let ghost pred = shows_prefix(s, ranking(s), prefix@);
        proof {
            lemma_ranking_order(s);
        }
        let mut p: Vec<usize> = Vec::new();
        let mut j: usize = 0;
        assert(positions_of(p@) =~= positions(0).filter(pred)) by {
            reveal(Seq::filter);
        }
        while j < g.len()
            invariant
                s == self@,
                s.well_formed(),
                ids_of(g@) == ranking(s),
                pred == shows_prefix(s, ranking(s), prefix@),
                forall|x: nat| #[trigger] ranking(s).contains(x) <==> (x < s.users.len() && s.votes(x) > 0),
                j <= g@.len(),
                positions_of(p@) == positions(j as nat).filter(pred),
                forall|k: int| 0 <= k < p@.len() ==> #[trigger] p@[k] < j,
            decreases g@.len() - j,
        {
            let uid = g[j];
            assert(ids_of(g@)[j as int] == uid as nat);
            assert(ranking(s).contains(uid as nat));
            assert(s.users[uid as int] == self.users@[uid as int]@);
            let b = starts_with(self.users[uid].username.as_str(), prefix);
            let ghost before = p@;
            if b {
                p.push(j);
            }
            proof {
                reveal(Seq::filter);
                let nx = positions((j + 1) as nat);
                assert(nx.drop_last() =~= positions(j as nat));
                assert(nx.last() == j);
                assert(pred(j as int) == b);
                if b {
                    assert(positions_of(p@) =~= positions_of(before).push(j as int));
                } else {
                    assert(positions_of(p@) =~= positions_of(before));
                }
            }
            j += 1;
        }
        p
    }

    /// The position of the voter row with this address.
    fn voter_position(&self, address: &String) -> (r: Option<usize>)
        requires
            self@.well_formed(),
        ensures
            match r {
                Some(i) => i < self@.voters.len() && self@.voters[i as int].address == address@
                    && self@.voter_index(address@) == i,
                None => !self@.has_voter(address@),
            },
    {
        let mut i: usize = 0;
        while i < self.voters.len()
            invariant
                self@.well_formed(),
                i <= self@.voters.len(),
                forall|k: int| 0 <= k < i ==> self@.voters[k].address != address@,
            decreases self.voters.len() - i,
        {
            if self.voters[i].address == *address {
                assert(self@.voters[i as int].address == address@);
                let ghost j = self@.voter_index(address@);
                assert(self@.voters[j].address == address@);
                proof {
                    if j < i {
                        assert(self@.voters[j].address != self@.voters[i as int].address);
                    } else if j > i {
                        assert(self@.voters[i as int].address != self@.voters[j].address);
                    }
                }
                return Some(i);
            }
            i += 1;
        }
        None
    }
}

impl user::Model {
    /// Returns the user with this username, creating it when there is none.
    pub fn add(store: &mut VoteStore, username: &str) -> (r: user::Model)
        requires
            old(store)@.well_formed(),
        ensures
            final(store)@ == old(store)@.with_user(username@),
            final(store)@.well_formed(),
            r@ == (UserRecord { id: old(store)@.user_id_of(username@), username: username@ }),
    {
        let name = username.to_owned();
        let mut i: usize = 0;
        while i < store.users.len()
            invariant
                store@ == old(store)@,
                store@.well_formed(),
                name@ == username@,
                i <= store@.users.len(),
                forall|k: int| 0 <= k < i ==> store@.users[k].username != username@,
            decreases store.users.len() - i,
        {
            if store.users[i].username == name {
                let ghost s = store@;
                assert(s.users[i as int].username == username@);
                assert(s.has_user(username@));
                let ghost j = choose|j: int|
                    0 <= j < s.users.len() && #[trigger] s.users[j].username == username@;
                proof {
                    if j < i {
                        assert(s.users[j].username != s.users[i as int].username);
                    } else if j > i {
                        assert(s.users[i as int].username != s.users[j].username);
                    }
                }
                assert(s.users[i as int] == store.users@[i as int]@);
                assert(s.users[i as int].id == i);
                return user::Model { id: store.users[i].id, username: store.users[i].username.clone() };
            }
            i += 1;
        }
        let id = store.users.len() as u64;
        let row = user::Model { id, username: name.clone() };
        let ghost s0 = store@;
        store.users.push(row);
        assert(store@.users =~= s0.users.push(UserRecord { id: s0.users.len(), username: username@ }));
        assert(store@ == s0.with_user(username@));
        user::Model { id, username: name }
    }

    /// The rows on page `page` (counted from 1) of `count` rows of the
    /// leaderboard, restricted to usernames that start with the filter when
    /// one is given. A row's rank is its place on the whole leaderboard.
    pub fn find_leaderboard(store: &VoteStore, username: &Option<String>, page: u64, count: u64) -> (r: Vec<UserWithVotes>)
        requires
            store@.well_formed(),
            page >= 1,
        ensures
            row_views(r@) == leaderboard_page(store@, filter_prefix(opt_text(*username)), page as nat, count as nat),
    {
        let ghost s = store@;
        let ghost prefix = filter_prefix(opt_text(*username));
        let empty = String::new();
        let filter: &str = match username {
            Some(p) => p.as_str(),
            None => empty.as_str(),
        };
        assert(filter@ == prefix);
        let counts = store.tallies();
        let g = store.ranked(&counts);
        let p = store.matching_positions(&g, filter);
        proof {
            lemma_ranking_order(s);
            lemma_prefix_filter(s, prefix);
        }
        let ghost mp = matching(s, prefix);
        let entries = p.len();
        assert(entries == mp.len()) by {
            assert(positions_of(p@).len() == p@.len());
        }
        let ghost off_int = (page as int - 1) * (count as int);
        assert(0 <= (page as int - 1) * (count as int) <= 0xffff_ffff_ffff_ffff * 0xffff_ffff_ffff_ffff) by (nonlinear_arith)
            requires
                1 <= page <= 0xffff_ffff_ffff_ffffu64,
                count <= 0xffff_ffff_ffff_ffffu64,
        ;
        let off: u128 = (page as u128 - 1) * (count as u128);
        let lo: usize = if off < entries as u128 {
            off as usize
        } else {
            entries
        };
        let end: u128 = off + count as u128;
        let hi: usize = if end < entries as u128 {
            end as usize
        } else {
            entries
        };
        assert(lo as int == page_start(mp.len(), page as nat, count as nat));
        assert(hi as int == page_end(mp.len(), page as nat, count as nat));
        let ghost want = leaderboard_page(s, prefix, page as nat, count as nat);
        let mut rows: Vec<UserWithVotes> = Vec::new();
        let mut k: usize = lo;
        while k < hi
            invariant
                s == store@,
                s.well_formed(),
                ids_of(g@) == ranking(s),
                positions_of(p@) == mp,
                mp == matching(s, prefix),
                counts@.len() == s.users.len(),
                forall|u: int| 0 <= u < counts@.len() ==> #[trigger] counts@[u] as nat == s.votes(u as nat),
                forall|x: nat| #[trigger] ranking(s).contains(x) <==> (x < s.users.len() && s.votes(x) > 0),
                forall|t: int| 0 <= t < p@.len() ==> #[trigger] p@[t] < g@.len(),
                entries == p@.len(),
                lo <= k <= hi <= entries,
                lo as int == page_start(mp.len(), page as nat, count as nat),
                hi as int == page_end(mp.len(), page as nat, count as nat),
                want == leaderboard_page(s, prefix, page as nat, count as nat),
                row_views(rows@) == want.subrange(0, k - lo),
            decreases hi - k,
        {
            let j = p[k];
            assert(positions_of(p@)[k as int] == j as int);
            let uid = g[j];
            let glen = g.len();
            assert(j < glen);
            assert(ids_of(g@)[j as int] == uid as nat);
            assert(ranking(s).contains(uid as nat));
            assert(s.users[uid as int] == store.users@[uid as int]@);
            let row = UserWithVotes {
                votes: counts[uid] as u64,
                username: store.users[uid].username.clone(),
                rank: (j + 1) as u64,
            };
            let ghost before = rows@;
            rows.push(row);
            assert(want[k - lo] == crate::ranking::board_row(s, mp[k as int]));
            assert(row_views(rows@) =~= want.subrange(0, k - lo + 1)) by {
                assert(row_views(rows@) =~= row_views(before).push(row@));
            }
            k += 1;
        }
        assert(want.subrange(0, hi - lo) =~= want);
        rows
    }

    /// The pagination of the leaderboard restricted to usernames that start
    /// with the filter when one is given: `entries` counts its rows and
    /// `last` is the number of pages of `page_size` rows. `current` is 0.
    pub fn get_leaderboard_pagination(store: &VoteStore, page_size: u64, username: &Option<String>) -> (r: Pagination)
        requires
            store@.well_formed(),
            page_size > 0,
        ensures
            r.current == 0,
            r.entries == matching(store@, filter_prefix(opt_text(*username))).len(),
            r.last == last_page(r.entries as nat, page_size as nat),
    {
        let empty = String::new();
        let filter: &str = match username {
            Some(p) => p.as_str(),
            None => empty.as_str(),
        };
        let counts = store.tallies();
        let g = store.ranked(&counts);
        let p = store.matching_positions(&g, filter);
        assert(positions_of(p@).len() == p@.len());
        let entries = p.len() as u64;
        let q = entries / page_size;
        let last = if entries % page_size == 0 {
            q
        } else {
            assert(q < 0xffff_ffff_ffff_ffffu64) by (nonlinear_arith)
                requires
                    page_size > 1,
                    q == entries / page_size,
                    entries <= 0xffff_ffff_ffff_ffffu64,
            ;
            q + 1
        };
        Pagination { current: 0, last, entries }
    }

    /// The user that `address` voted for, if it has voted.
    pub fn find_voted_user_by_address(store: &VoteStore, address: &String) -> (r: Option<user::Model>)
        requires
            store@.well_formed(),
        ensures
            match r {
                Some(u) => store@.has_voter(address@) && u@ == store@.users[store@.voters[store@.voter_index(address@)].voted_user_id as int],
                None => !store@.has_voter(address@),
            },
    {
        match store.voter_position(address) {
            Some(i) => {
                let uid = store.voters[i].voted_user_id;
                assert(store@.voters[i as int] == store.voters@[i as int]@);
                assert(store@.voters[i as int].voted_user_id < store@.users.len());
                assert(store@.voters[i as int].voted_user_id == uid as nat);
                let n = store.users.len();
                assert(uid < n);
                let u = &store.users[uid as usize];
                assert(store@.users[uid as int] == store.users@[uid as int]@);
                Some(user::Model { id: u.id, username: u.username.clone() })
            },
            None => None,
        }
    }
}

impl voter::Model {
    /// The voter row of `address`, if it has voted.
    pub fn find_by_address(store: &VoteStore, address: &String) -> (r: Option<voter::Model>)
        requires
            store@.well_formed(),
        ensures
            match r {
                Some(v) => store@.has_voter(address@) && v@ == store@.voters[store@.voter_index(address@)],
                None => !store@.has_voter(address@),
            },
    {
        match store.voter_position(address) {
            Some(i) => {
                let v = &store.voters[i];
                Some(voter::Model { id: v.id, address: v.address.clone(), voted_user_id: v.voted_user_id })
            },
            None => None,
        }
    }

    /// Records the vote of `address` for the user `voted_user_id`, unless
    /// that address has already voted.
    pub fn add(store: &mut VoteStore, address: &String, voted_user_id: u64) -> (r: Result<voter::Model, VoterError>)
        requires
            old(store)@.well_formed(),
        ensures
            final(store)@.well_formed(),
            match r {
                Ok(v) => !old(store)@.has_voter(address@)
                    && voted_user_id < old(store)@.users.len()
                    && old(store)@.next_voter_id < u64::MAX
                    && final(store)@ == old(store)@.with_voter(address@, voted_user_id as nat)
                    && v@ == final(store)@.voters.last(),
                Err(VoterError::AlreadyVoted) => old(store)@.has_voter(address@)
                    && final(store)@ == old(store)@,
                Err(VoterError::ModelError) => !old(store)@.has_voter(address@)
                    && (voted_user_id >= old(store)@.users.len()
                        || old(store)@.next_voter_id >= u64::MAX)
                    && final(store)@ == old(store)@,
            },
    {
        if store.voter_position(address).is_some() {
            return Err(VoterError::AlreadyVoted);
        }
        if voted_user_id as u128 >= store.users.len() as u128 || store.next_voter_id == u64::MAX {
            return Err(VoterError::ModelError);
        }
        let id = store.next_voter_id;
        let row = voter::Model { id, address: address.clone(), voted_user_id };
        let ghost s0 = store@;
        store.voters.push(row);
        store.next_voter_id = id + 1;
        assert(store@.voters =~= s0.voters.push(VoterRecord { id: id as nat, address: address@, voted_user_id: voted_user_id as nat }));
        assert(store@ == s0.with_voter(address@, voted_user_id as nat));
        Ok(voter::Model { id, address: address.clone(), voted_user_id })
    }

    /// Deletes the vote of `address`.
    pub fn delete(store: &mut VoteStore, address: &String) -> (r: Result<(), DeleteVoterError>)
        requires
            old(store)@.well_formed(),
        ensures
            final(store)@.well_formed(),
            r is Ok <==> old(store)@.has_voter(address@),
            r is Ok ==> final(store)@ == old(store)@.without_voter(address@),
            r is Err ==> r == Err::<(), DeleteVoterError>(DeleteVoterError::NotFound)
                && final(store)@ == old(store)@,
    {
        match store.voter_position(address) {
            Some(i) => {
                let ghost s0 = store@;
                store.voters.remove(i);
                assert(store@.voters =~= s0.voters.remove(i as int));
                assert(store@ == s0.without_voter(address@));
                let ghost s1 = store@;
                assert forall|a: int, b: int|
                    #![trigger s1.voters[a], s1.voters[b]]
                    0 <= a < b < s1.voters.len() implies s1.voters[a].address != s1.voters[b].address
                        && s1.voters[a].id < s1.voters[b].id by {
                    let a0 = if a < i { a } else { a + 1 };
                    let b0 = if b < i { b } else { b + 1 };
                    assert(s1.voters[a] == s0.voters[a0]);
                    assert(s1.voters[b] == s0.voters[b0]);
                    assert(s0.voters[a0].address != s0.voters[b0].address);
                }
                assert forall|a: int| 0 <= a < s1.voters.len() implies #[trigger] s1.voters[a].voted_user_id < s1.users.len() && s1.voters[a].id < s1.next_voter_id by {
                    let a0 = if a < i { a } else { a + 1 };
                    assert(s1.voters[a] == s0.voters[a0]);
                }
                Ok(())
            },
            None => Err(DeleteVoterError::NotFound),
        }
    }
}

} // verus!
