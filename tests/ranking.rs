use threads_crush::leaderboard::{leaderboard, LeaderboardError, LeaderboardResponse, Pagination, User};
use threads_crush::store::VoteStore;
use threads_crush::user::{Model as UserModel, UserWithVotes};
use threads_crush::verification::{CaptchaReply, ProfileReply, RecaptchaResponse};
use threads_crush::vote::vote;

fn cast(store: &mut VoteStore, name: &str, address: &str) {
    let captcha = CaptchaReply::Answered(RecaptchaResponse { success: true });
    let page = ProfileReply::Page(format!("profile @{}", name));
    vote(store, name, &captcha, &page, &address.to_string()).unwrap();
}

fn cast_many(store: &mut VoteStore, name: &str, n: usize) {
    for i in 0..n {
        cast(store, name, &format!("{}-{}", name, i));
    }
}

fn names(resp: &LeaderboardResponse) -> Vec<String> {
    resp.users.iter().map(|u| u.username.clone()).collect()
}

#[test]
fn empty_board_has_no_page_one() {
    let store = VoteStore::new();
    assert!(matches!(leaderboard(&store, 5, &None, 1), Err(LeaderboardError::PageNotFound)));
    let p = UserModel::get_leaderboard_pagination(&store, 5, &None);
    assert_eq!(p, Pagination { current: 0, last: 0, entries: 0 });
}

#[test]
fn page_zero_is_invalid() {
    let mut store = VoteStore::new();
    cast(&mut store, "alice", "1");
    assert!(matches!(leaderboard(&store, 5, &None, 0), Err(LeaderboardError::InvalidPage)));
}

#[test]
fn ten_entries_in_pages_of_five() {
    let mut store = VoteStore::new();
    for i in 0..10 {
        cast(&mut store, &format!("user{}", i), &format!("10.0.0.{}", i));
    }
    let first = leaderboard(&store, 5, &None, 1).unwrap();
    assert_eq!(first.pagination, Pagination { current: 1, last: 2, entries: 10 });
    assert_eq!(first.users.len(), 5);
    let second = leaderboard(&store, 5, &None, 2).unwrap();
    assert_eq!(second.pagination.current, 2);
    assert_eq!(second.users.len(), 5);
    assert_eq!(second.users[0].rank, 6);
    assert!(matches!(leaderboard(&store, 5, &None, 3), Err(LeaderboardError::PageNotFound)));
}

#[test]
fn partial_last_page() {
    let mut store = VoteStore::new();
    for i in 0..7 {
        cast(&mut store, &format!("user{}", i), &format!("10.1.0.{}", i));
    }
    let p = UserModel::get_leaderboard_pagination(&store, 5, &None);
    assert_eq!(p.last, 2);
    assert_eq!(p.entries, 7);
    let second = leaderboard(&store, 5, &None, 2).unwrap();
    assert_eq!(second.users.len(), 2);
    assert_eq!(second.users[1].rank, 7);
}

#[test]
fn ties_ordered_by_user_id() {
    let mut store = VoteStore::new();
    cast_many(&mut store, "zed", 3);
    cast_many(&mut store, "amy", 5);
    cast_many(&mut store, "bob", 5);
    let resp = leaderboard(&store, 10, &None, 1).unwrap();
    assert_eq!(names(&resp), vec!["amy", "bob", "zed"]);
    let votes: Vec<u64> = resp.users.iter().map(|u| u.votes).collect();
    assert_eq!(votes, vec![5, 5, 3]);
    let ranks: Vec<u64> = resp.users.iter().map(|u| u.rank).collect();
    assert_eq!(ranks, vec![1, 2, 3]);
    let again = leaderboard(&store, 10, &None, 1).unwrap();
    assert_eq!(names(&again), names(&resp));
}

#[test]
fn ties_across_pages_are_stable() {
    let mut store = VoteStore::new();
    cast_many(&mut store, "a", 5);
    cast_many(&mut store, "b", 5);
    cast_many(&mut store, "c", 3);
    let p1 = leaderboard(&store, 1, &None, 1).unwrap();
    let p2 = leaderboard(&store, 1, &None, 2).unwrap();
    let p3 = leaderboard(&store, 1, &None, 3).unwrap();
    assert_eq!(names(&p1), vec!["a"]);
    assert_eq!(names(&p2), vec!["b"]);
    assert_eq!(names(&p3), vec!["c"]);
    assert_eq!(names(&leaderboard(&store, 1, &None, 2).unwrap()), vec!["b"]);
}

#[test]
fn more_votes_rank_first() {
    let mut store = VoteStore::new();
    cast_many(&mut store, "low", 1);
    cast_many(&mut store, "high", 4);
    cast_many(&mut store, "mid", 2);
    let rows = UserModel::find_leaderboard(&store, &None, 1, 10);
    let got: Vec<(String, u64, u64)> = rows.iter().map(|r| (r.username.clone(), r.votes, r.rank)).collect();
    assert_eq!(
        got,
        vec![("high".to_string(), 4, 1), ("mid".to_string(), 2, 2), ("low".to_string(), 1, 3)]
    );
}

#[test]
fn prefix_filter_keeps_matching_names() {
    let mut store = VoteStore::new();
    cast_many(&mut store, "alice", 2);
    cast_many(&mut store, "bob", 3);
    cast_many(&mut store, "alfred", 1);
    cast_many(&mut store, "sal", 4);
    let resp = leaderboard(&store, 10, &Some("al".to_string()), 1).unwrap();
    assert_eq!(names(&resp), vec!["alice", "alfred"]);
    assert_eq!(resp.pagination.entries, 2);
    assert_eq!(resp.pagination.last, 1);
    let ranks: Vec<u64> = resp.users.iter().map(|u| u.rank).collect();
    assert_eq!(ranks, vec![3, 4]);
}

#[test]
fn prefix_filter_is_lowercased() {
    let mut store = VoteStore::new();
    cast_many(&mut store, "alice", 1);
    cast_many(&mut store, "bob", 1);
    let resp = leaderboard(&store, 10, &Some("AL".to_string()), 1).unwrap();
    assert_eq!(names(&resp), vec!["alice"]);
    assert_eq!(resp.pagination.entries, 1);
}

#[test]
fn prefix_without_matches() {
    let mut store = VoteStore::new();
    cast_many(&mut store, "alice", 1);
    assert!(matches!(leaderboard(&store, 10, &Some("zz".to_string()), 1), Err(LeaderboardError::PageNotFound)));
    let p = UserModel::get_leaderboard_pagination(&store, 10, &Some("zz".to_string()));
    assert_eq!(p.entries, 0);
}

#[test]
fn users_without_votes_are_not_listed() {
    let mut store = VoteStore::new();
    cast(&mut store, "alice", "1.1.1.1");
    cast(&mut store, "bob", "2.2.2.2");
    threads_crush::vote::unvote(&mut store, &"2.2.2.2".to_string()).unwrap();
    let resp = leaderboard(&store, 10, &None, 1).unwrap();
    assert_eq!(names(&resp), vec!["alice"]);
    assert_eq!(resp.pagination.entries, 1);
}

#[test]
fn find_leaderboard_past_the_end_is_empty() {
    let mut store = VoteStore::new();
    cast(&mut store, "alice", "1.1.1.1");
    assert!(UserModel::find_leaderboard(&store, &None, 4, 10).is_empty());
    assert!(UserModel::find_leaderboard(&store, &None, u64::MAX, u64::MAX).is_empty());
}

#[test]
fn response_keeps_rows_in_order() {
    let rows = vec![
        UserWithVotes { votes: 9, username: "x".to_string(), rank: 1 },
        UserWithVotes { votes: 4, username: "y".to_string(), rank: 2 },
    ];
    let p = Pagination { current: 1, last: 1, entries: 2 };
    let resp = LeaderboardResponse::new(rows, p);
    assert_eq!(resp.pagination, p);
    assert_eq!(names(&resp), vec!["x", "y"]);
    assert_eq!(resp.users[0].votes, 9);
    assert_eq!(resp.users[1].rank, 2);
}

#[test]
fn user_from_row() {
    let u = User::from(UserWithVotes { votes: 3, username: "zoe".to_string(), rank: 7 });
    assert_eq!(u.username, "zoe");
    assert_eq!(u.votes, 3);
    assert_eq!(u.rank, 7);
}
