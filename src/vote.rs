//! Casting, retracting and reading a vote.
use vstd::prelude::*;

use crate::store::{references, StoreState, VoteStore};
use crate::text::{lower_of, to_lowercase};
use crate::user;
use crate::verification::{
    captcha_verdict, check_recaptcha_token, check_username, username_verdict, CaptchaReply,
    CheckTokenError, ProfileReply, UsernameCheckError,
};
use crate::voter;
use crate::voter::{DeleteVoterError, VoterError, VoterRecord};

verus! {

/// Why a vote was refused.
#[derive(Clone, Copy, Debug, PartialEq, Eq, Structural)]
pub enum VoteError {
    Captcha(CheckTokenError),
    Username(UsernameCheckError),
    Voter(VoterError),
}

/// The outcome of both checks on a vote request for `username` (as typed).
pub open spec fn verification(username: Seq<char>, captcha: CaptchaReply, profile: ProfileReply) -> Result<(), VoteError> {
    match captcha_verdict(captcha) {
        Err(e) => Err(VoteError::Captcha(e)),
        Ok(_) => match username_verdict(lower_of(username), profile) {
            Err(e) => Err(VoteError::Username(e)),
            Ok(_) => Ok(()),
        },
    }
}

/// The result of a vote request on the store `s`.
pub open spec fn vote_result(
    s: StoreState,
    username: Seq<char>,
    captcha: CaptchaReply,
    profile: ProfileReply,
    address: Seq<char>,
) -> Result<(), VoteError> {
    match verification(username, captcha, profile) {
        Err(e) => Err(e),
        Ok(_) => {
            let s1 = s.with_user(lower_of(username));
            if s1.has_voter(address) {
                Err(VoteError::Voter(VoterError::AlreadyVoted))
            } else if s1.next_voter_id >= u64::MAX {
                Err(VoteError::Voter(VoterError::ModelError))
            } else {
                Ok(())
            }
        },
    }
}

/// The store after a vote request on the store `s`: nothing changes unless
/// both checks pass; then the user is looked up or created, and the vote is
/// recorded when the request succeeds.
pub open spec fn vote_state(
    s: StoreState,
    username: Seq<char>,
    captcha: CaptchaReply,
    profile: ProfileReply,
    address: Seq<char>,
) -> StoreState {
    match verification(username, captcha, profile) {
        Err(_) => s,
        Ok(_) => {
            let name = lower_of(username);
            let s1 = s.with_user(name);
            if vote_result(s, username, captcha, profile, address) is Ok {
                s1.with_voter(address, s1.user_id_of(name))
            } else {
                s1
            }
        },
    }
}

/// After get-or-create, the user exists and its id is that of the username.
proof fn lemma_with_user(s: StoreState, name: Seq<char>)
    requires
        s.well_formed(),
    ensures
        s.with_user(name).well_formed(),
        s.with_user(name).has_user(name),
        s.with_user(name).user_id_of(name) == s.user_id_of(name),
        s.user_id_of(name) < s.with_user(name).users.len(),
        s.with_user(name).voters == s.voters,
        s.with_user(name).next_voter_id == s.next_voter_id,
{
    let s1 = s.with_user(name);
    if s.has_user(name) {
        let j = choose|j: int| 0 <= j < s.users.len() && #[trigger] s.users[j].username == name;
        assert(s.users[j].username == name);
    } else {
        let n = s.users.len() as int;
        assert(s1.users[n].username == name);
        let j = choose|j: int| 0 <= j < s1.users.len() && #[trigger] s1.users[j].username == name;
        if j < n {
            assert(s.users[j].username == name);
        }
        assert forall|a: int, b: int|
            #![trigger s1.users[a], s1.users[b]]
            0 <= a < b < s1.users.len() implies s1.users[a].username != s1.users[b].username by {
            if b == n {
                assert(s.users[a].username == s1.users[a].username);
            }
        }
    }
}

/// Number of votes after one more voter row is appended.
proof fn lemma_votes_push(s: StoreState, v: VoterRecord, uid: nat)
    ensures
        (StoreState { voters: s.voters.push(v), ..s }).votes(uid) == s.votes(uid) + if v.voted_user_id
            == uid {
            1nat
        } else {
            0nat
        },
{
    reveal(Seq::filter);
    assert(s.voters.push(v).drop_last() =~= s.voters);
}

/// No votes for a user that no voter row refers to.
proof fn lemma_no_votes(voters: Seq<VoterRecord>, uid: nat)
    requires
        forall|k: int| 0 <= k < voters.len() ==> #[trigger] voters[k].voted_user_id != uid,
    ensures
        voters.filter(references(uid)).len() == 0,
    decreases voters.len(),
{
    reveal(Seq::filter);
    if voters.len() > 0 {
        lemma_no_votes(voters.drop_last(), uid);
    }
}

/// A new voter row for an address that has none keeps the store well formed.
proof fn lemma_with_voter(s: StoreState, address: Seq<char>, uid: nat)
    requires
        s.well_formed(),
        !s.has_voter(address),
        uid < s.users.len(),
    ensures
        s.with_voter(address, uid).well_formed(),
        s.with_voter(address, uid).has_voter(address),
{
    let t = s.with_voter(address, uid);
    let n = s.voters.len() as int;
    assert(t.voters[n].address == address);
    assert forall|a: int, b: int|
        #![trigger t.voters[a], t.voters[b]]
        0 <= a < b < t.voters.len() implies t.voters[a].address != t.voters[b].address
            && t.voters[a].id < t.voters[b].id by {
        if b == n {
            assert(s.voters[a] == t.voters[a]);
            assert(s.voters[a].id < s.next_voter_id);
        }
    }
    assert forall|a: int| 0 <= a < t.voters.len() implies #[trigger] t.voters[a].voted_user_id
        < t.users.len() && t.voters[a].id < t.next_voter_id by {
        if a < n {
            assert(s.voters[a] == t.voters[a]);
        }
    }
}

/// The store after any vote request is well formed, and has at least the
/// voter rows it had.
proof fn lemma_vote_state(
    s: StoreState,
    username: Seq<char>,
    captcha: CaptchaReply,
    profile: ProfileReply,
    address: Seq<char>,
)
    requires
        s.well_formed(),
    ensures
        vote_state(s, username, captcha, profile, address).well_formed(),
        forall|a: Seq<char>| s.has_voter(a) ==> #[trigger] vote_state(s, username, captcha, profile, address).has_voter(a),
        vote_result(s, username, captcha, profile, address) is Ok ==> vote_state(s, username, captcha, profile, address).has_voter(address),
{
    let name = lower_of(username);
    let t = vote_state(s, username, captcha, profile, address);
    if verification(username, captcha, profile) is Ok {
        lemma_with_user(s, name);
        let s1 = s.with_user(name);
        if vote_result(s, username, captcha, profile, address) is Ok {
            lemma_with_voter(s1, address, s1.user_id_of(name));
            assert forall|a: Seq<char>| s.has_voter(a) implies #[trigger] t.has_voter(a) by {
                let i = choose|i: int| 0 <= i < s.voters.len() && #[trigger] s.voters[i].address == a;
                assert(t.voters[i] == s.voters[i]);
            }
        }
    }
}

/// An address that has voted cannot vote again: every further request from it
/// is refused, as already voted when its checks pass, and it stays blocked.
pub proof fn lemma_voted_address_blocked(
    s: StoreState,
    username: Seq<char>,
    captcha: CaptchaReply,
    profile: ProfileReply,
    address: Seq<char>,
)
    requires
        s.well_formed(),
        s.has_voter(address),
    ensures
        vote_result(s, username, captcha, profile, address) is Err,
        verification(username, captcha, profile) is Ok ==> vote_result(
            s,
            username,
            captcha,
            profile,
            address,
        ) == Err::<(), VoteError>(VoteError::Voter(VoterError::AlreadyVoted)),
        vote_state(s, username, captcha, profile, address).voters == s.voters,
        vote_state(s, username, captcha, profile, address).has_voter(address),
{
    lemma_with_user(s, lower_of(username));
}

/// Of two vote requests from one address, at most one succeeds: after a
/// successful one, the next is refused (as already voted when its checks
/// pass), and the address keeps exactly one voter row.
pub proof fn lemma_one_vote_per_address(
    s: StoreState,
    address: Seq<char>,
    first_name: Seq<char>,
    first_captcha: CaptchaReply,
    first_profile: ProfileReply,
    second_name: Seq<char>,
    second_captcha: CaptchaReply,
    second_profile: ProfileReply,
)
    requires
        s.well_formed(),
        vote_result(s, first_name, first_captcha, first_profile, address) is Ok,
    ensures
        ({
            let t = vote_state(s, first_name, first_captcha, first_profile, address);
            &&& t.has_voter(address)
            &&& vote_result(t, second_name, second_captcha, second_profile, address) is Err
            &&& verification(second_name, second_captcha, second_profile) is Ok ==> vote_result(
                t,
                second_name,
                second_captcha,
                second_profile,
                address,
            ) == Err::<(), VoteError>(VoteError::Voter(VoterError::AlreadyVoted))
            &&& vote_state(t, second_name, second_captcha, second_profile, address).voters
                == t.voters
        }),
{
    lemma_vote_state(s, first_name, first_captcha, first_profile, address);
    let t = vote_state(s, first_name, first_captcha, first_profile, address);
    lemma_voted_address_blocked(t, second_name, second_captcha, second_profile, address);
}

/// Two successful votes for one username from two addresses leave exactly
/// one user with that (lowercased) name; both new voter rows refer to it, and
/// its vote count grows by two (to two when the user is new).
pub proof fn lemma_same_username_two_addresses(
    s: StoreState,
    username: Seq<char>,
    first_captcha: CaptchaReply,
    first_profile: ProfileReply,
    first_address: Seq<char>,
    second_captcha: CaptchaReply,
    second_profile: ProfileReply,
    second_address: Seq<char>,
)
    requires
        s.well_formed(),
        vote_result(s, username, first_captcha, first_profile, first_address) is Ok,
        vote_result(
            vote_state(s, username, first_captcha, first_profile, first_address),
            username,
            second_captcha,
            second_profile,
            second_address,
        ) is Ok,
    ensures
        ({
            let name = lower_of(username);
            let t = vote_state(s, username, first_captcha, first_profile, first_address);
            let u = vote_state(t, username, second_captcha, second_profile, second_address);
            let id = u.user_id_of(name);
            &&& u.has_user(name)
            &&& forall|i: int|
                0 <= i < u.users.len() && #[trigger] u.users[i].username == name ==> i == id
            &&& u.users.len() == s.with_user(name).users.len()
            &&& u.voters.len() == s.voters.len() + 2
            &&& u.voters[s.voters.len() as int].voted_user_id == id
            &&& u.voters[s.voters.len() as int + 1].voted_user_id == id
            &&& u.votes(id) == s.votes(s.user_id_of(name)) + 2
            &&& !s.has_user(name) ==> u.votes(id) == 2
        }),
{
    let name = lower_of(username);
    lemma_with_user(s, name);
    let s1 = s.with_user(name);
    let id = s.user_id_of(name);
    let t = vote_state(s, username, first_captcha, first_profile, first_address);
    lemma_with_voter(s1, first_address, id);
    assert(t == s1.with_voter(first_address, id));
    lemma_with_user(t, name);
    assert(t.has_user(name)) by {
        let j = choose|j: int| 0 <= j < s1.users.len() && #[trigger] s1.users[j].username == name;
        assert(t.users[j].username == name);
    }
    assert(t.with_user(name) == t);
    assert(t.user_id_of(name) == id);
    let u = vote_state(t, username, second_captcha, second_profile, second_address);
    assert(u == t.with_voter(second_address, id));
    lemma_with_voter(t, second_address, id);
    assert(u.has_user(name)) by {
        let j = choose|j: int| 0 <= j < t.users.len() && #[trigger] t.users[j].username == name;
        assert(u.users[j].username == name);
    }
    assert(u.user_id_of(name) == id);
    assert forall|i: int| 0 <= i < u.users.len() && #[trigger] u.users[i].username == name implies i
        == id by {
        let j = choose|j: int| 0 <= j < u.users.len() && #[trigger] u.users[j].username == name;
        if i < j {
            assert(u.users[i].username != u.users[j].username);
        } else if j < i {
            assert(u.users[j].username != u.users[i].username);
        }
    }
    lemma_votes_push(s1, VoterRecord { id: s1.next_voter_id, address: first_address, voted_user_id: id }, id);
    lemma_votes_push(t, VoterRecord { id: t.next_voter_id, address: second_address, voted_user_id: id }, id);
    assert(s1.votes(id) == s.votes(id));
    if !s.has_user(name) {
        assert(id == s.users.len());
        assert forall|k: int| 0 <= k < s.voters.len() implies #[trigger] s.voters[k].voted_user_id != id by {
            assert(s.voters[k].voted_user_id < s.users.len());
        }
        lemma_no_votes(s.voters, id);
    }
}

/// Voting, retracting and asking again: after a successful vote from
/// `address`, retracting it succeeds, the address then has no vote, and a
/// second retraction finds nothing.
pub proof fn lemma_unvote_round_trip(
    s: StoreState,
    username: Seq<char>,
    captcha: CaptchaReply,
    profile: ProfileReply,
    address: Seq<char>,
)
    requires
        s.well_formed(),
        vote_result(s, username, captcha, profile, address) is Ok,
    ensures
        vote_state(s, username, captcha, profile, address).has_voter(address),
        vote_state(s, username, captcha, profile, address).without_voter(address).voted_user(address) is None,
        !vote_state(s, username, captcha, profile, address).without_voter(address).has_voter(address),
{
    lemma_vote_state(s, username, captcha, profile, address);
    let t = vote_state(s, username, captcha, profile, address);
    let w = t.without_voter(address);
    let i = t.voter_index(address);
    assert(0 <= i < t.voters.len() && t.voters[i].address == address);
    if w.has_voter(address) {
        let k = choose|k: int| 0 <= k < w.voters.len() && #[trigger] w.voters[k].address == address;
        let k0 = if k < i { k } else { k + 1 };
        assert(w.voters[k] == t.voters[k0]);
        if k0 < i {
            assert(t.voters[k0].address != t.voters[i].address);
        } else {
            assert(t.voters[i].address != t.voters[k0].address);
        }
    }
}

/// Verification fails closed: when the CAPTCHA service cannot be reached, the
/// vote is refused as unavailable and the store is left as it was.
pub proof fn lemma_captcha_unreachable_fails_closed(
    s: StoreState,
    username: Seq<char>,
    profile: ProfileReply,
    address: Seq<char>,
)
    ensures
        vote_result(s, username, CaptchaReply::Unreachable, profile, address) == Err::<(), VoteError>(
            VoteError::Captcha(CheckTokenError::GoogleNotWorking),
        ),
        vote_state(s, username, CaptchaReply::Unreachable, profile, address) == s,
{
}

/// Casts a vote from `address` for `username`: the CAPTCHA reply is checked
/// first, then the lowercased username and its profile reply; then the user
/// is looked up or created, and the vote is recorded unless the address has
/// already voted.
pub fn vote(
    store: &mut VoteStore,
    username: &str,
    captcha: &CaptchaReply,
    profile: &ProfileReply,
    address: &String,
) -> (r: Result<(), VoteError>)
    requires
        old(store)@.well_formed(),
    ensures
        final(store)@.well_formed(),
        r == vote_result(old(store)@, username@, *captcha, *profile, address@),
        final(store)@ == vote_state(old(store)@, username@, *captcha, *profile, address@),
{
    let name = to_lowercase(username);
    if let Err(e) = check_recaptcha_token(captcha) {
        return Err(VoteError::Captcha(e));
    }
    if let Err(e) = check_username(name.as_str(), profile) {
        return Err(VoteError::Username(e));
    }
    proof {
        lemma_with_user(store@, name@);
    }
    let user = user::Model::add(store, name.as_str());
    match voter::Model::add(store, address, user.id) {
        Ok(_) => Ok(()),
        Err(e) => Err(VoteError::Voter(e)),
    }
}

/// Retracts the vote of `address`.
pub fn unvote(store: &mut VoteStore, address: &String) -> (r: Result<(), DeleteVoterError>)
    requires
        old(store)@.well_formed(),
    ensures
        final(store)@.well_formed(),
        r is Ok <==> old(store)@.has_voter(address@),
        r is Ok ==> final(store)@ == old(store)@.without_voter(address@),
        r is Err ==> r == Err::<(), DeleteVoterError>(DeleteVoterError::NotFound)
            && final(store)@ == old(store)@,
{
    voter::Model::delete(store, address)
}

/// The username that `address` voted for, if it has voted.
pub fn status(store: &VoteStore, address: &String) -> (r: Option<String>)
    requires
        store@.well_formed(),
    ensures
        match r {
            Some(name) => store@.voted_user(address@) == Some(name@),
            None => store@.voted_user(address@) is None,
        },
{
    match user::Model::find_voted_user_by_address(store, address) {
        Some(u) => Some(u.username),
        None => None,
    }
}

} // verus!
