use threads_crush::address::{get_ip, last_forwarded};
use threads_crush::store::VoteStore;
use threads_crush::user::Model as UserModel;
use threads_crush::verification::{
    check_recaptcha_token, check_username, check_username_length, username_to_look_up, CaptchaReply,
    CheckTokenError,
    ProfileReply, RecaptchaResponse, UsernameCheckError,
};
use threads_crush::vote::{status, unvote, vote, VoteError};
use threads_crush::voter::{DeleteVoterError, Model as VoterModel, VoterError};

fn passed() -> CaptchaReply {
    CaptchaReply::Answered(RecaptchaResponse { success: true })
}

fn profile_of(name: &str) -> ProfileReply {
    ProfileReply::Page(format!("<html><title>@{} on Threads</title></html>", name))
}

fn addr(s: &str) -> String {
    s.to_string()
}

#[test]
fn envoy_header_wins() {
    let r = get_ip(
        &Some("9.9.9.9".to_string()),
        &Some("1.1.1.1,2.2.2.2".to_string()),
        &"127.0.0.1".to_string(),
    );
    assert_eq!(r, "9.9.9.9");
}

#[test]
fn empty_envoy_header_falls_back_to_forwarded() {
    let r = get_ip(&Some(String::new()), &Some("1.1.1.1,2.2.2.2".to_string()), &"127.0.0.1".to_string());
    assert_eq!(r, "2.2.2.2");
}

#[test]
fn forwarded_header_last_entry() {
    let r = get_ip(&None, &Some("10.0.0.1,10.0.0.2,10.0.0.3".to_string()), &"127.0.0.1".to_string());
    assert_eq!(r, "10.0.0.3");
}

#[test]
fn forwarded_header_single_entry() {
    let r = get_ip(&None, &Some("10.0.0.7".to_string()), &"127.0.0.1".to_string());
    assert_eq!(r, "10.0.0.7");
}

#[test]
fn connection_address_is_the_fallback() {
    let r = get_ip(&None, &None, &"192.168.1.4".to_string());
    assert_eq!(r, "192.168.1.4");
}

#[test]
fn last_forwarded_after_trailing_comma_is_empty() {
    assert_eq!(last_forwarded("1.1.1.1,"), "");
    assert_eq!(last_forwarded("a, b"), " b");
}

#[test]
fn captcha_verdicts() {
    assert_eq!(check_recaptcha_token(&passed()), Ok(()));
    assert_eq!(
        check_recaptcha_token(&CaptchaReply::Answered(RecaptchaResponse { success: false })),
        Err(CheckTokenError::RecaptchaFailed)
    );
    assert_eq!(check_recaptcha_token(&CaptchaReply::Malformed), Err(CheckTokenError::FailedToParse));
    assert_eq!(check_recaptcha_token(&CaptchaReply::Unreachable), Err(CheckTokenError::GoogleNotWorking));
}

#[test]
fn username_length_bounds() {
    assert_eq!(check_username_length(""), Err(UsernameCheckError::LengthInvalid));
    assert_eq!(check_username_length(&"a".repeat(30)), Ok(()));
    assert_eq!(check_username_length(&"a".repeat(31)), Err(UsernameCheckError::LengthInvalid));
    assert_eq!(check_username_length("a"), Ok(()));
}

#[test]
fn username_length_counts_characters() {
    assert_eq!(check_username_length(&"é".repeat(30)), Ok(()));
}

#[test]
fn username_found_ignoring_case() {
    let page = ProfileReply::Page("<html>Profile of ALICE.Smith</html>".to_string());
    assert_eq!(check_username("alice.smith", &page), Ok(()));
    assert_eq!(check_username("Alice.Smith", &page), Ok(()));
}

#[test]
fn username_not_on_page() {
    let page = ProfileReply::Page("<html>Sorry, this page isn't available</html>".to_string());
    assert_eq!(check_username("bob", &page), Err(UsernameCheckError::UserNotFound));
}

#[test]
fn username_service_down() {
    assert_eq!(check_username("bob", &ProfileReply::Unreachable), Err(UsernameCheckError::ThreadsNotWorking));
}

#[test]
fn username_length_checked_before_lookup() {
    assert_eq!(check_username("", &ProfileReply::Unreachable), Err(UsernameCheckError::LengthInvalid));
}

#[test]
fn one_vote_per_address() {
    let mut store = VoteStore::new();
    let a = addr("1.2.3.4");
    assert_eq!(vote(&mut store, "alice", &passed(), &profile_of("alice"), &a), Ok(()));
    assert_eq!(
        vote(&mut store, "alice", &passed(), &profile_of("alice"), &a),
        Err(VoteError::Voter(VoterError::AlreadyVoted))
    );
    assert_eq!(
        vote(&mut store, "bob", &passed(), &profile_of("bob"), &a),
        Err(VoteError::Voter(VoterError::AlreadyVoted))
    );
    assert_eq!(store.voter_count(), 1);
    assert_eq!(status(&store, &a), Some("alice".to_string()));
}

#[test]
fn repeated_requests_from_one_address_succeed_once() {
    let mut store = VoteStore::new();
    let a = addr("5.5.5.5");
    let mut ok = 0;
    for name in ["alice", "bob", "carol", "alice"] {
        match vote(&mut store, name, &passed(), &profile_of(name), &a) {
            Ok(()) => ok += 1,
            Err(e) => assert_eq!(e, VoteError::Voter(VoterError::AlreadyVoted)),
        }
    }
    assert_eq!(ok, 1);
    assert_eq!(store.voter_count(), 1);
}

#[test]
fn same_username_from_two_addresses() {
    let mut store = VoteStore::new();
    assert_eq!(vote(&mut store, "alice", &passed(), &profile_of("alice"), &addr("1.1.1.1")), Ok(()));
    assert_eq!(vote(&mut store, "ALICE", &passed(), &profile_of("alice"), &addr("2.2.2.2")), Ok(()));
    assert_eq!(store.user_count(), 1);
    assert_eq!(store.voter_count(), 2);
    let v1 = VoterModel::find_by_address(&store, &addr("1.1.1.1")).unwrap();
    let v2 = VoterModel::find_by_address(&store, &addr("2.2.2.2")).unwrap();
    assert_eq!(v1.voted_user_id, v2.voted_user_id);
    let board = UserModel::find_leaderboard(&store, &None, 1, 10);
    assert_eq!(board.len(), 1);
    assert_eq!(board[0].username, "alice");
    assert_eq!(board[0].votes, 2);
    assert_eq!(board[0].rank, 1);
}

#[test]
fn username_is_stored_lowercased() {
    let mut store = VoteStore::new();
    let a = addr("3.3.3.3");
    assert_eq!(vote(&mut store, "MiXeD", &passed(), &profile_of("mixed"), &a), Ok(()));
    assert_eq!(status(&store, &a), Some("mixed".to_string()));
}

#[test]
fn unvote_round_trip() {
    let mut store = VoteStore::new();
    let a = addr("4.4.4.4");
    assert_eq!(vote(&mut store, "alice", &passed(), &profile_of("alice"), &a), Ok(()));
    assert_eq!(unvote(&mut store, &a), Ok(()));
    assert_eq!(status(&store, &a), None);
    assert_eq!(unvote(&mut store, &a), Err(DeleteVoterError::NotFound));
    assert_eq!(store.user_count(), 1);
    assert_eq!(store.voter_count(), 0);
}

#[test]
fn vote_again_after_unvote() {
    let mut store = VoteStore::new();
    let a = addr("4.4.4.5");
    assert_eq!(vote(&mut store, "alice", &passed(), &profile_of("alice"), &a), Ok(()));
    assert_eq!(unvote(&mut store, &a), Ok(()));
    assert_eq!(vote(&mut store, "bob", &passed(), &profile_of("bob"), &a), Ok(()));
    assert_eq!(status(&store, &a), Some("bob".to_string()));
}

#[test]
fn status_without_vote() {
    let store = VoteStore::new();
    assert_eq!(status(&store, &addr("8.8.8.8")), None);
}

#[test]
fn captcha_unreachable_fails_closed() {
    let mut store = VoteStore::new();
    let r = vote(&mut store, "alice", &CaptchaReply::Unreachable, &profile_of("alice"), &addr("6.6.6.6"));
    assert_eq!(r, Err(VoteError::Captcha(CheckTokenError::GoogleNotWorking)));
    assert_eq!(store.voter_count(), 0);
    assert_eq!(store.user_count(), 0);
    assert_eq!(status(&store, &addr("6.6.6.6")), None);
}

#[test]
fn captcha_checked_before_username() {
    let mut store = VoteStore::new();
    let r = vote(&mut store, "", &CaptchaReply::Malformed, &ProfileReply::Unreachable, &addr("6.6.6.7"));
    assert_eq!(r, Err(VoteError::Captcha(CheckTokenError::FailedToParse)));
    let r = vote(&mut store, "", &passed(), &ProfileReply::Unreachable, &addr("6.6.6.7"));
    assert_eq!(r, Err(VoteError::Username(UsernameCheckError::LengthInvalid)));
    let r = vote(&mut store, "carol", &passed(), &ProfileReply::Unreachable, &addr("6.6.6.7"));
    assert_eq!(r, Err(VoteError::Username(UsernameCheckError::ThreadsNotWorking)));
    let r = vote(&mut store, "carol", &passed(), &profile_of("dave"), &addr("6.6.6.7"));
    assert_eq!(r, Err(VoteError::Username(UsernameCheckError::UserNotFound)));
    assert_eq!(store.voter_count(), 0);
    assert_eq!(store.user_count(), 0);
}

#[test]
fn already_voted_still_creates_user() {
    let mut store = VoteStore::new();
    let a = addr("7.7.7.7");
    assert_eq!(vote(&mut store, "alice", &passed(), &profile_of("alice"), &a), Ok(()));
    assert_eq!(
        vote(&mut store, "bob", &passed(), &profile_of("bob"), &a),
        Err(VoteError::Voter(VoterError::AlreadyVoted))
    );
    assert_eq!(store.user_count(), 2);
    assert_eq!(store.voter_count(), 1);
}

#[test]
fn user_add_is_get_or_create() {
    let mut store = VoteStore::new();
    let a = UserModel::add(&mut store, "alice");
    let b = UserModel::add(&mut store, "bob");
    let a2 = UserModel::add(&mut store, "alice");
    assert_eq!(a.id, 0);
    assert_eq!(b.id, 1);
    assert_eq!(a2.id, 0);
    assert_eq!(a2.username, "alice");
    assert_eq!(store.user_count(), 2);
}

#[test]
fn voter_add_rejects_unknown_user() {
    let mut store = VoteStore::new();
    let r = VoterModel::add(&mut store, &addr("1.1.1.1"), 3);
    assert!(matches!(r, Err(VoterError::ModelError)));
    assert_eq!(store.voter_count(), 0);
}

#[test]
fn voter_rows_and_lookups() {
    let mut store = VoteStore::new();
    let u = UserModel::add(&mut store, "alice");
    let v = VoterModel::add(&mut store, &addr("1.1.1.1"), u.id).unwrap();
    assert_eq!(v.id, 0);
    assert_eq!(v.address, "1.1.1.1");
    let w = VoterModel::add(&mut store, &addr("2.2.2.2"), u.id).unwrap();
    assert_eq!(w.id, 1);
    assert!(matches!(VoterModel::add(&mut store, &addr("1.1.1.1"), u.id), Err(VoterError::AlreadyVoted)));
    assert_eq!(VoterModel::delete(&mut store, &addr("1.1.1.1")), Ok(()));
    assert!(VoterModel::find_by_address(&store, &addr("1.1.1.1")).is_none());
    let found = UserModel::find_voted_user_by_address(&store, &addr("2.2.2.2")).unwrap();
    assert_eq!(found.username, "alice");
    let x = VoterModel::add(&mut store, &addr("3.3.3.3"), u.id).unwrap();
    assert_eq!(x.id, 2);
}

#[test]
fn name_to_look_up_is_lowercased() {
    assert_eq!(username_to_look_up("Alice"), Ok("alice".to_string()));
    assert_eq!(username_to_look_up(""), Err(UsernameCheckError::LengthInvalid));
    assert_eq!(username_to_look_up(&"B".repeat(31)), Err(UsernameCheckError::LengthInvalid));
}
