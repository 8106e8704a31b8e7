//! The leaderboard's order: users with at least one vote, by descending vote
//! count, ties broken by ascending user id; and the pages of it that a
//! username prefix selects.
use vstd::prelude::*;

use crate::store::StoreState;
use crate::user::RankedRow;

verus! {

/// User `a` is placed before user `b`: more votes, or as many and a smaller id.
pub open spec fn ahead(s: StoreState, a: nat, b: nat) -> bool {
    s.votes(a) > s.votes(b) || (s.votes(a) == s.votes(b) && a < b)
}

/// `u` inserted into `l` before the first entry that it is ahead of.
pub open spec fn insert_ranked(s: StoreState, l: Seq<nat>, u: nat) -> Seq<nat>
    decreases l.len(),
{
    if l.len() == 0 {
        seq![u]
    } else if ahead(s, u, l[0]) {
        seq![u] + l
    } else {
        seq![l[0]] + insert_ranked(s, l.drop_first(), u)
    }
}

/// The ranked ids among the users below `n` that have votes.
pub open spec fn ranking_upto(s: StoreState, n: nat) -> Seq<nat>
    decreases n,
{
    if n == 0 {
        Seq::empty()
    } else if s.votes((n - 1) as nat) > 0 {
        insert_ranked(s, ranking_upto(s, (n - 1) as nat), (n - 1) as nat)
    } else {
        ranking_upto(s, (n - 1) as nat)
    }
}

/// The ids of all users with votes, in leaderboard order. A user's rank is
/// its position here plus one.
pub open spec fn ranking(s: StoreState) -> Seq<nat> {
    ranking_upto(s, s.users.len())
}

/// Each entry of `l` is ahead of every later one.
pub open spec fn ranked_order(s: StoreState, l: Seq<nat>) -> bool {
    forall|i: int, j: int| 0 <= i < j < l.len() ==> ahead(s, #[trigger] l[i], #[trigger] l[j])
}

/// The position `j` of `g` holds a user whose username starts with `prefix`.
pub open spec fn shows_prefix(s: StoreState, g: Seq<nat>, prefix: Seq<char>) -> spec_fn(int) -> bool {
    |j: int| prefix.is_prefix_of(s.users[g[j] as int].username)
}

/// The positions `0, 1, ..., n - 1`.
pub open spec fn positions(n: nat) -> Seq<int> {
    Seq::new(n, |j: int| j)
}

/// The positions in the ranking of the users whose username starts with
/// `prefix`, in ranking order.
pub open spec fn matching(s: StoreState, prefix: Seq<char>) -> Seq<int> {
    positions(ranking(s).len()).filter(shows_prefix(s, ranking(s), prefix))
}

/// The prefix that an optional username filter stands for; no filter is the
/// empty prefix.
pub open spec fn filter_prefix(filter: Option<Seq<char>>) -> Seq<char> {
    match filter {
        Some(p) => p,
        None => Seq::empty(),
    }
}

/// The leaderboard row at position `j` of the ranking.
pub open spec fn board_row(s: StoreState, j: int) -> RankedRow {
    RankedRow {
        votes: s.votes(ranking(s)[j]),
        username: s.users[ranking(s)[j] as int].username,
        rank: (j + 1) as nat,
    }
}

/// The first entry of page `page` (counted from 1) of `count` entries each,
/// out of `entries`.
pub open spec fn page_start(entries: nat, page: nat, count: nat) -> int {
    let off = (page - 1) * count;
    if off < entries {
        off
    } else {
        entries as int
    }
}

/// The end (exclusive) of page `page` of `count` entries each.
pub open spec fn page_end(entries: nat, page: nat, count: nat) -> int {
    let end = (page - 1) * count + count;
    if end < entries {
        end
    } else {
        entries as int
    }
}

/// The rows on page `page` of `count` rows of the leaderboard restricted to
/// usernames that start with `prefix`.
pub open spec fn leaderboard_page(s: StoreState, prefix: Seq<char>, page: nat, count: nat) -> Seq<
    RankedRow,
> {
    let p = matching(s, prefix);
    let lo = page_start(p.len(), page, count);
    let hi = page_end(p.len(), page, count);
    Seq::new((hi - lo) as nat, |k: int| board_row(s, p[lo + k]))
}

/// The number of pages of `size` entries that `entries` fill.
pub open spec fn last_page(entries: nat, size: nat) -> nat {
    if entries % size == 0 {
        entries / size
    } else {
        entries / size + 1
    }
}

/// A page (counted from 1) exists exactly when it holds at least one row: no
/// page exists when there are no rows, and page `last_page + 1` never does.
pub proof fn lemma_page_exists_iff_rows(entries: nat, size: nat, page: nat)
    requires
        size > 0,
        page >= 1,
    ensures
        page <= last_page(entries, size) <==> (page - 1) * size < entries,
        entries == 0 ==> last_page(entries, size) == 0,
{
    let q = entries / size;
    let r = entries % size;
    assert(entries == q * size + r && 0 <= r < size) by (nonlinear_arith)
        requires
            size > 0,
            q == entries / size,
            r == entries % size,
    ;
    let k = (page - 1) as nat;
    if r == 0 {
        assert(k < q <==> k * size < q * size) by (nonlinear_arith)
            requires
                size > 0,
        ;
    } else {
        assert(k <= q <==> k * size < q * size + r) by (nonlinear_arith)
            requires
                size > 0,
                0 < r < size,
        ;
    }
    if entries == 0 {
        assert(q == 0);
    }
}

/// `insert_ranked` inserts at the first position whose entry `u` is ahead of.
pub(crate) proof fn lemma_insert_ranked_at(s: StoreState, l: Seq<nat>, u: nat, j: int)
    requires
        0 <= j <= l.len(),
        forall|k: int| 0 <= k < j ==> !ahead(s, u, #[trigger] l[k]),
        j < l.len() ==> ahead(s, u, l[j]),
    ensures
        insert_ranked(s, l, u) == l.insert(j, u),
    decreases l.len(),
{
    if l.len() == 0 {
        assert(l.insert(j, u) =~= seq![u]);
    } else if j == 0 {
        assert(seq![u] + l =~= l.insert(j, u));
    } else {
        let rest = l.drop_first();
        assert forall|k: int| 0 <= k < j - 1 implies !ahead(s, u, #[trigger] rest[k]) by {
            assert(rest[k] == l[k + 1]);
        }
        lemma_insert_ranked_at(s, rest, u, j - 1);
        assert(seq![l[0]] + rest.insert(j - 1, u) =~= l.insert(j, u));
    }
}

/// Inserting a new id keeps the order and adds exactly that id.
proof fn lemma_insert_ranked(s: StoreState, l: Seq<nat>, u: nat)
    requires
        ranked_order(s, l),
        !l.contains(u),
    ensures
        ranked_order(s, insert_ranked(s, l, u)),
        insert_ranked(s, l, u).len() == l.len() + 1,
        forall|x: nat| #[trigger] insert_ranked(s, l, u).contains(x) <==> (l.contains(x) || x == u),
    decreases l.len(),
{
    let r = insert_ranked(s, l, u);
    if l.len() == 0 {
        assert(r =~= seq![u]);
        assert forall|x: nat| #[trigger] r.contains(x) <==> (l.contains(x) || x == u) by {
            if r.contains(x) {
                assert(r[0] == u);
            }
            if x == u {
                assert(r[0] == x);
            }
        }
    } else if ahead(s, u, l[0]) {
        assert forall|i: int, j: int| 0 <= i < j < r.len() implies ahead(s, #[trigger] r[i], #[trigger] r[j]) by {
            if i == 0 {
                assert(r[j] == l[j - 1]);
                if j - 1 > 0 {
                    assert(ahead(s, l[0], l[j - 1]));
                }
            } else {
                assert(r[i] == l[i - 1] && r[j] == l[j - 1]);
            }
        }
        assert forall|x: nat| #[trigger] r.contains(x) <==> (l.contains(x) || x == u) by {
            if r.contains(x) {
                let k = choose|k: int| 0 <= k < r.len() && r[k] == x;
                if k > 0 {
                    assert(l[k - 1] == x);
                }
            }
            if l.contains(x) {
                let k = choose|k: int| 0 <= k < l.len() && l[k] == x;
                assert(r[k + 1] == x);
            }
            if x == u {
                assert(r[0] == x);
            }
        }
    } else {
        let rest = l.drop_first();
        assert(ranked_order(s, rest)) by {
            assert forall|i: int, j: int| 0 <= i < j < rest.len() implies ahead(s, #[trigger] rest[i], #[trigger] rest[j]) by {
                assert(rest[i] == l[i + 1] && rest[j] == l[j + 1]);
            }
        }
        assert(!rest.contains(u)) by {
            if rest.contains(u) {
                let k = choose|k: int| 0 <= k < rest.len() && rest[k] == u;
                assert(l[k + 1] == u);
            }
        }
        lemma_insert_ranked(s, rest, u);
        let r2 = insert_ranked(s, rest, u);
        assert(r == seq![l[0]] + r2);
        assert(l[0] != u);
        assert forall|x: nat| #[trigger] r2.contains(x) implies ahead(s, l[0], x) by {
            if x != u {
                assert(rest.contains(x));
                let k = choose|k: int| 0 <= k < rest.len() && rest[k] == x;
                assert(l[k + 1] == x);
            }
        }
        assert forall|i: int, j: int| 0 <= i < j < r.len() implies ahead(s, #[trigger] r[i], #[trigger] r[j]) by {
            assert(r[j] == r2[j - 1]);
            if i == 0 {
                assert(r2.contains(r2[j - 1]));
            } else {
                assert(r[i] == r2[i - 1]);
            }
        }
        assert forall|x: nat| #[trigger] r.contains(x) <==> (l.contains(x) || x == u) by {
            if r.contains(x) {
                let k = choose|k: int| 0 <= k < r.len() && r[k] == x;
                if k > 0 {
                    assert(r2[k - 1] == x);
                    assert(r2.contains(x));
                    if x != u {
                        let m = choose|m: int| 0 <= m < rest.len() && rest[m] == x;
                        assert(l[m + 1] == x);
                    }
                } else {
                    assert(l[0] == x);
                }
            }
            if l.contains(x) {
                let k = choose|k: int| 0 <= k < l.len() && l[k] == x;
                if k == 0 {
                    assert(r[0] == x);
                } else {
                    assert(rest[k - 1] == x);
                    assert(r2.contains(x));
                    let m = choose|m: int| 0 <= m < r2.len() && r2[m] == x;
                    assert(r[m + 1] == x);
                }
            }
            if x == u {
                assert(r2.contains(u));
                let m = choose|m: int| 0 <= m < r2.len() && r2[m] == x;
                assert(r[m + 1] == x);
            }
        }
    }
}

/// The ranking of the users below `n` is ordered and holds exactly those of
/// them that have votes.
proof fn lemma_ranking_upto(s: StoreState, n: nat)
    ensures
        ranked_order(s, ranking_upto(s, n)),
        forall|x: nat| #[trigger] ranking_upto(s, n).contains(x) <==> (x < n && s.votes(x) > 0),
    decreases n,
{
    if n > 0 {
        let m = (n - 1) as nat;
        lemma_ranking_upto(s, m);
        let l = ranking_upto(s, m);
        if s.votes(m) > 0 {
            lemma_insert_ranked(s, l, m);
        }
    }
}

/// The leaderboard's order is fixed: of two users on it, the one with more
/// votes comes first, and of two with as many votes the smaller id; and it
/// holds exactly the users with at least one vote, each once.
pub proof fn lemma_ranking_order(s: StoreState)
    ensures
        forall|i: int, j: int|
            0 <= i < j < ranking(s).len() ==> s.votes(#[trigger] ranking(s)[i]) > s.votes(
                #[trigger] ranking(s)[j],
            ) || (s.votes(ranking(s)[i]) == s.votes(ranking(s)[j]) && ranking(s)[i]
                < ranking(s)[j]),
        forall|x: nat| #[trigger]
            ranking(s).contains(x) <==> (x < s.users.len() && s.votes(x) > 0),
        ranking(s).no_duplicates(),
{
    lemma_ranking_upto(s, s.users.len());
    let g = ranking(s);
    assert forall|i: int, j: int| 0 <= i < j < g.len() implies g[i] != g[j] by {
        assert(ahead(s, g[i], g[j]));
    }
}

/// The prefix filter keeps exactly the users whose username starts with the
/// prefix, in ranking order.
pub proof fn lemma_prefix_filter(s: StoreState, prefix: Seq<char>)
    ensures
        forall|k: int|
            0 <= k < matching(s, prefix).len() ==> 0 <= #[trigger] matching(s, prefix)[k] < ranking(
                s,
            ).len() && prefix.is_prefix_of(s.users[ranking(s)[matching(s, prefix)[k]] as int].username),
        forall|j: int|
            0 <= j < ranking(s).len() && prefix.is_prefix_of(s.users[ranking(s)[j] as int].username)
                ==> #[trigger] matching(s, prefix).contains(j),
{
    broadcast use vstd::seq_lib::group_filter_ensures;

    let g = ranking(s);
    let ids = positions(g.len());
    let p = matching(s, prefix);
    lemma_filter_bounds(ids, shows_prefix(s, g, prefix), g.len() as int);
    assert forall|j: int|
        0 <= j < g.len() && prefix.is_prefix_of(s.users[g[j] as int].username) implies #[trigger] p.contains(j) by {
        assert(ids[j] == j);
    }
}

/// Every entry that a filter keeps from a sequence of values in `[0, n)` is
/// in `[0, n)`.
proof fn lemma_filter_bounds(xs: Seq<int>, pred: spec_fn(int) -> bool, n: int)
    requires
        forall|i: int| 0 <= i < xs.len() ==> 0 <= #[trigger] xs[i] < n,
    ensures
        forall|k: int| 0 <= k < xs.filter(pred).len() ==> 0 <= #[trigger] xs.filter(pred)[k] < n,
    decreases xs.len(),
{
    reveal(Seq::filter);
    if xs.len() > 0 {
        let init = xs.drop_last();
        assert forall|i: int| 0 <= i < init.len() implies 0 <= #[trigger] init[i] < n by {
            assert(init[i] == xs[i]);
        }
        lemma_filter_bounds(init, pred, n);
        let fi = init.filter(pred);
        assert(xs.filter(pred) == if pred(xs.last()) { fi.push(xs.last()) } else { fi });
        assert(0 <= xs[xs.len() - 1] < n);
        assert forall|k: int| 0 <= k < xs.filter(pred).len() implies 0 <= #[trigger] xs.filter(pred)[k] < n by {
            if k < fi.len() {
                assert(xs.filter(pred)[k] == fi[k]);
            }
        }
    }
}

} // verus!
