//! Merging alternate accounts: rows that share one chat username collapse
//! into a single row, the best-rated account first and the rest attached as
//! alternates in descending rating order.

use vstd::prelude::*;
use vstd::seq_lib::*;
use crate::player::{same_core, RankedPlayer};
use crate::rank::lemma_filter_singleton;
use crate::text::str_eq;

verus! {

/// The rows bound to one given chat username.
pub open spec fn user_is(u: Seq<char>) -> spec_fn(RankedPlayer) -> bool {
    |p: RankedPlayer| p.discord_username@ == u
}

/// The distinct chat usernames of a population, in order of first
/// appearance.
pub open spec fn distinct_users(s: Seq<RankedPlayer>) -> Seq<Seq<char>>
    decreases s.len(),
{
    if s.len() == 0 {
        Seq::empty()
    } else {
        let rest = distinct_users(s.drop_last());
        if rest.contains(s.last().discord_username@) {
            rest
        } else {
            rest.push(s.last().discord_username@)
        }
    }
}

/// Rows ordered by rating, best first.
pub open spec fn sorted_by_rating_desc(s: Seq<RankedPlayer>) -> bool {
    forall|i: int, j: int| 0 <= i <= j < s.len() ==> s[i].rating >= s[j].rating
}

/// Stable insertion of one row into a rating-ordered sequence: it passes
/// every row rated at least as high as itself.
pub open spec fn insert_rating(s: Seq<RankedPlayer>, p: RankedPlayer) -> Seq<RankedPlayer>
    decreases s.len(),
{
    if s.len() == 0 {
        seq![p]
    } else if s[0].rating >= p.rating {
        seq![s[0]] + insert_rating(s.drop_first(), p)
    } else {
        seq![p] + s
    }
}

/// The stable descending-rating sort: rows are inserted left to right.
pub open spec fn sort_rating_spec(s: Seq<RankedPlayer>) -> Seq<RankedPlayer>
    decreases s.len(),
{
    if s.len() == 0 {
        Seq::empty()
    } else {
        insert_rating(sort_rating_spec(s.drop_last()), s.last())
    }
}

/// One member's group: every row bound to the username, best rating first.
pub open spec fn group_sorted(s: Seq<RankedPlayer>, u: Seq<char>) -> Seq<RankedPlayer> {
    sort_rating_spec(s.filter(user_is(u)))
}

/// An attached alternate: the source row with its own alternate list emptied.
pub open spec fn is_stripped(a: RankedPlayer, b: RankedPlayer) -> bool {
    same_core(a, b) && a.alts@.len() == 0
}

/// What one merged row must look like, given its member's sorted group: the
/// best-rated account in front, the others attached in order as alternates.
pub open spec fn merged_row_ok(row: RankedPlayer, g: Seq<RankedPlayer>) -> bool {
    &&& g.len() > 0
    &&& same_core(row, g[0])
    &&& row.alts@.len() == g.len() - 1
    &&& forall|j: int| 0 <= j < row.alts@.len() ==> is_stripped(#[trigger] row.alts@[j], g[j + 1])
}

proof fn lemma_insert_rating_len(s: Seq<RankedPlayer>, p: RankedPlayer)
    ensures
        insert_rating(s, p).len() == s.len() + 1,
    decreases s.len(),
{
    if s.len() > 0 && s[0].rating >= p.rating {
        lemma_insert_rating_len(s.drop_first(), p);
    }
}

/// The rating sort keeps the group's size.
pub proof fn lemma_sort_rating_len(s: Seq<RankedPlayer>)
    ensures
        sort_rating_spec(s).len() == s.len(),
    decreases s.len(),
{
    if s.len() > 0 {
        lemma_sort_rating_len(s.drop_last());
        lemma_insert_rating_len(sort_rating_spec(s.drop_last()), s.last());
    }
}

proof fn lemma_insert_rating_at(s: Seq<RankedPlayer>, p: RankedPlayer, j: int)
    requires
        0 <= j <= s.len(),
        forall|k: int| 0 <= k < j ==> s[k].rating >= p.rating,
        j < s.len() ==> s[j].rating < p.rating,
    ensures
        insert_rating(s, p) == s.insert(j, p),
    decreases j,
{
    if j == 0 {
        assert(insert_rating(s, p) =~= s.insert(0, p));
    } else {
        lemma_insert_rating_at(s.drop_first(), p, j - 1);
        assert(seq![s[0]] + s.drop_first().insert(j - 1, p) =~= s.insert(j, p));
    }
}

proof fn lemma_insert_rating_at_end(s: Seq<RankedPlayer>, p: RankedPlayer)
    requires
        forall|i: int| 0 <= i < s.len() ==> s[i].rating >= p.rating,
    ensures
        insert_rating(s, p) == s.push(p),
    decreases s.len(),
{
    if s.len() == 0 {
        assert(insert_rating(s, p) =~= s.push(p));
    } else {
        lemma_insert_rating_at_end(s.drop_first(), p);
        assert(seq![s[0]] + s.drop_first().push(p) =~= s.push(p));
    }
}

/// The rating sort leaves an already descending group unchanged.
pub proof fn lemma_sort_rating_of_sorted(s: Seq<RankedPlayer>)
    requires
        sorted_by_rating_desc(s),
    ensures
        sort_rating_spec(s) == s,
    decreases s.len(),
{
    if s.len() > 0 {
        assert(sorted_by_rating_desc(s.drop_last()));
        lemma_sort_rating_of_sorted(s.drop_last());
        lemma_insert_rating_at_end(s.drop_last(), s.last());
        assert(s.drop_last().push(s.last()) =~= s);
    }
}

/// Every username that appears in the population is listed among its
/// distinct usernames.
pub proof fn lemma_distinct_users_complete(s: Seq<RankedPlayer>)
    ensures
        forall|i: int|
            0 <= i < s.len() ==> distinct_users(s).contains(#[trigger] s[i].discord_username@),
    decreases s.len(),
{
    if s.len() > 0 {
        lemma_distinct_users_complete(s.drop_last());
        let rest = distinct_users(s.drop_last());
        let all = distinct_users(s);
        assert forall|i: int| 0 <= i < s.len() implies all.contains(
            #[trigger] s[i].discord_username@,
        ) by {
            if i < s.len() - 1 {
                assert(s.drop_last()[i] == s[i]);
                assert(rest.contains(s[i].discord_username@));
                let w = choose|w: int|
                    0 <= w < rest.len() && rest[w] == s[i].discord_username@;
                assert(all[w] == s[i].discord_username@);
            } else {
                if rest.contains(s.last().discord_username@) {
                    let w = choose|w: int|
                        0 <= w < rest.len() && rest[w] == s.last().discord_username@;
                    assert(all[w] == s[i].discord_username@);
                } else {
                    assert(all.last() == s[i].discord_username@);
                }
            }
        }
    }
}

/// A username listed among the distinct usernames has a non-empty group.
pub proof fn lemma_group_nonempty(s: Seq<RankedPlayer>, u: Seq<char>)
    requires
        distinct_users(s).contains(u),
    ensures
        s.filter(user_is(u)).len() > 0,
    decreases s.len(),
{
    reveal(Seq::filter);
    if s.len() > 0 {
        let rest = distinct_users(s.drop_last());
        if s.last().discord_username@ == u {
            assert(user_is(u)(s.last()));
        } else {
            if rest.contains(u) {
                lemma_group_nonempty(s.drop_last(), u);
            } else {
                // u must then be the last row's username, already handled
                let w = choose|w: int|
                    0 <= w < distinct_users(s).len() && distinct_users(s)[w] == u;
                if w < rest.len() {
                    assert(rest[w] == u);
                    assert(rest.contains(u));
                }
            }
        }
    }
}

/// A username absent from the distinct usernames has an empty group.
pub proof fn lemma_absent_user_filter_empty(s: Seq<RankedPlayer>, u: Seq<char>)
    requires
        !distinct_users(s).contains(u),
    ensures
        s.filter(user_is(u)) == Seq::<RankedPlayer>::empty(),
{
    lemma_distinct_users_complete(s);
    assert forall|i: int| 0 <= i < s.len() implies !user_is(u)(s[i]) by {
        if s[i].discord_username@ == u {
            assert(distinct_users(s).contains(s[i].discord_username@));
        }
    }
    s.lemma_all_neg_filter_empty(user_is(u));
}

/// A population whose rows all carry one given predicate filters to itself.
proof fn lemma_filter_all(s: Seq<RankedPlayer>, pred: spec_fn(RankedPlayer) -> bool)
    requires
        forall|i: int| 0 <= i < s.len() ==> pred(#[trigger] s[i]),
    ensures
        s.filter(pred) == s,
    decreases s.len(),
{
    reveal(Seq::filter);
    if s.len() > 0 {
        assert(forall|i: int| 0 <= i < s.drop_last().len() ==> pred(#[trigger] s.drop_last()[i]));
        lemma_filter_all(s.drop_last(), pred);
        assert(s.filter(pred) =~= s);
    }
}

proof fn lemma_distinct_all_same(s: Seq<RankedPlayer>, u: Seq<char>)
    requires
        s.len() > 0,
        forall|i: int| 0 <= i < s.len() ==> #[trigger] s[i].discord_username@ == u,
    ensures
        distinct_users(s) == seq![u],
    decreases s.len(),
{
    if s.len() == 1 {
        assert(distinct_users(s.drop_last()) =~= Seq::<Seq<char>>::empty());
        assert(distinct_users(s) =~= seq![u]);
    } else {
        assert(forall|i: int|
            0 <= i < s.drop_last().len() ==> #[trigger] s.drop_last()[i].discord_username@ == u);
        lemma_distinct_all_same(s.drop_last(), u);
        assert(seq![u][0] == u);
        assert(distinct_users(s.drop_last()).contains(u));
        assert(s.last().discord_username@ == u);
    }
}

/// Merge correctness for one member: when every row carries the same chat
/// username and the ratings arrive strictly descending, the whole population
/// is a single group, already in merge order, so the merge yields exactly one
/// row whose primary fields are the best-rated account's and whose alternates
/// are the remaining accounts in descending rating order with their own
/// alternate lists emptied.
pub proof fn lemma_merge_single_member(players: Seq<RankedPlayer>, u: Seq<char>)
    requires
        players.len() > 0,
        forall|i: int| 0 <= i < players.len() ==> #[trigger] players[i].discord_username@ == u,
        forall|i: int, j: int| 0 <= i < j < players.len() ==> players[i].rating > players[j].rating,
    ensures
        distinct_users(players) == seq![u],
        group_sorted(players, u) == players,
{
    lemma_distinct_all_same(players, u);
    assert(forall|i: int| 0 <= i < players.len() ==> user_is(u)(#[trigger] players[i]));
    lemma_filter_all(players, user_is(u));
    assert(sorted_by_rating_desc(players));
    lemma_sort_rating_of_sorted(players);
}

/// Finds the position of a username among the collected names.
fn find_name(names: &Vec<String>, u: &str) -> (r: Option<usize>)
    ensures
        match r {
            Option::Some(k) => k < names@.len() && names@[k as int]@ == u@,
            Option::None => forall|k: int| 0 <= k < names@.len() ==> names@[k]@ != u@,
        },
{
    let mut k: usize = 0;
    while k < names.len()
        invariant
            k <= names@.len(),
            forall|k2: int| 0 <= k2 < k ==> names@[k2]@ != u@,
        decreases names@.len() - k,
    {
        if str_eq(names[k].as_str(), u) {
            return Option::Some(k);
        }
        k = k + 1;
    }
    Option::None
}

/// Collects the population into one bucket per chat username, buckets in
/// order of first appearance, each bucket holding its rows in input order.
fn group_by_username(players: Vec<RankedPlayer>) -> (r: (Vec<String>, Vec<Vec<RankedPlayer>>))
    ensures
        r.0@.map_values(|n: String| n@) == distinct_users(players@),
        r.1@.len() == r.0@.len(),
        forall|k: int|
            0 <= k < r.1@.len() ==> #[trigger] r.1@[k]@ == players@.filter(user_is(r.0@[k]@)),
{
    let ghost orig = players@;
    let mut input = players;
    let mut names: Vec<String> = Vec::new();
    let mut groups: Vec<Vec<RankedPlayer>> = Vec::new();
    let ghost mut taken: int = 0;
    while input.len() > 0
        invariant
            0 <= taken,
            taken + input@.len() == orig.len(),
            input@ == orig.skip(taken),
            names@.map_values(|n: String| n@) == distinct_users(orig.take(taken)),
            groups@.len() == names@.len(),
            forall|i: int, j: int| 0 <= i < j < names@.len() ==> names@[i]@ != names@[j]@,
            forall|k: int|
                0 <= k < groups@.len() ==> #[trigger] groups@[k]@ == orig.take(taken).filter(
                    user_is(names@[k]@),
                ),
        decreases input@.len(),
    {
        let p = input.remove(0);
        proof {
            assert(orig.skip(taken).remove(0) =~= orig.skip(taken + 1));
            assert(p == orig[taken]);
            assert(orig.take(taken + 1).drop_last() =~= orig.take(taken));
            assert(orig.take(taken + 1).last() == orig[taken]);
            assert(orig.take(taken + 1) =~= orig.take(taken) + seq![p]);
        }
        let ghost prefix = orig.take(taken);
        let ghost users_now = distinct_users(prefix);
        let ghost u = p.discord_username@;
        match find_name(&names, p.discord_username.as_str()) {
            Option::Some(kf) => {
                proof {
                    assert(users_now[kf as int] == names@[kf as int]@);
                    assert(users_now.contains(u));
                    assert(distinct_users(orig.take(taken + 1)) == users_now);
                }
                let ghost gs0 = groups@;
                let mut g = groups.remove(kf);
                g.push(p);
                groups.insert(kf, g);
                proof {
                    assert(groups@ =~= gs0.update(kf as int, g));
                    assert forall|k: int| 0 <= k < groups@.len() implies #[trigger] groups@[k]@
                        == orig.take(taken + 1).filter(user_is(names@[k]@)) by {
                        Seq::filter_distributes_over_add(prefix, seq![p], user_is(names@[k]@));
                        lemma_filter_singleton(p, user_is(names@[k]@));
                        if k == kf {
                            assert(user_is(names@[k]@)(p));
                            assert(groups@[k]@ =~= gs0[k]@ + seq![p]);
                        } else {
                            assert(names@[k]@ != u);
                            assert(!user_is(names@[k]@)(p));
                            assert(prefix.filter(user_is(names@[k]@)) + Seq::<
                                RankedPlayer,
                            >::empty() =~= prefix.filter(user_is(names@[k]@)));
                        }
                    }
                    taken = taken + 1;
                }
            },
            Option::None => {
                proof {
                    assert forall|w: int| 0 <= w < users_now.len() implies users_now[w] != u by {
                        assert(users_now[w] == names@[w]@);
                    }
                    assert(!users_now.contains(u));
                    assert(distinct_users(orig.take(taken + 1)) == users_now.push(u));
                    lemma_absent_user_filter_empty(prefix, u);
                }
                let uname = p.discord_username.clone();
                let mut g: Vec<RankedPlayer> = Vec::new();
                g.push(p);
                names.push(uname);
                groups.push(g);
                proof {
                    assert(names@.map_values(|n: String| n@) =~= users_now.push(u));
                    assert forall|k: int| 0 <= k < groups@.len() implies #[trigger] groups@[k]@
                        == orig.take(taken + 1).filter(user_is(names@[k]@)) by {
                        Seq::filter_distributes_over_add(prefix, seq![p], user_is(names@[k]@));
                        lemma_filter_singleton(p, user_is(names@[k]@));
                        if k == groups@.len() - 1 {
                            assert(user_is(u)(p));
                            assert(groups@[k]@ =~= Seq::<RankedPlayer>::empty() + seq![p]);
                        } else {
                            assert(names@[k]@ != u);
                            assert(!user_is(names@[k]@)(p));
                            assert(prefix.filter(user_is(names@[k]@)) + Seq::<
                                RankedPlayer,
                            >::empty() =~= prefix.filter(user_is(names@[k]@)));
                        }
                    }
                    taken = taken + 1;
                }
            },
        }
    }
    proof {
        assert(orig.take(taken) =~= orig);
    }
    (names, groups)
}

/// Sorts one member's rows descending by rating; the sort is stable.
fn sort_by_rating(g: Vec<RankedPlayer>) -> (r: Vec<RankedPlayer>)
    ensures
        r@ == sort_rating_spec(g@),
{
    let ghost orig = g@;
    let mut input = g;
    let mut out: Vec<RankedPlayer> = Vec::new();
    let ghost mut taken: int = 0;
    while input.len() > 0
        invariant
            0 <= taken,
            taken + input@.len() == orig.len(),
            input@ == orig.skip(taken),
            out@ == sort_rating_spec(orig.take(taken)),
        decreases input@.len(),
    {
        let p = input.remove(0);
        proof {
            assert(orig.skip(taken).remove(0) =~= orig.skip(taken + 1));
            assert(p == orig[taken]);
        }
        let mut j: usize = 0;
        while j < out.len() && out[j].rating >= p.rating
            invariant
                j <= out@.len(),
                forall|k: int| 0 <= k < j ==> out@[k].rating >= p.rating,
            decreases out@.len() - j,
        {
            j = j + 1;
        }
        proof {
            lemma_insert_rating_at(out@, p, j as int);
            assert(orig.take(taken + 1).drop_last() =~= orig.take(taken));
            assert(orig.take(taken + 1).last() == orig[taken]);
            taken = taken + 1;
        }
        out.insert(j, p);
    }
    proof {
        assert(orig.take(taken) =~= orig);
    }
    out
}

/// What the merge yields: one row per distinct username, in order of first
/// appearance, each built from its member's sorted group.
pub open spec fn merge_result_ok(players: Seq<RankedPlayer>, merged: Seq<RankedPlayer>) -> bool {
    &&& merged.len() == distinct_users(players).len()
    &&& forall|k: int|
        0 <= k < merged.len() ==> merged_row_ok(
            #[trigger] merged[k],
            group_sorted(players, distinct_users(players)[k]),
        )
}

/// Collapses the population to one row per chat username: within each
/// username the rows are ordered best rating first, the best one keeps the
/// member's row and the rest are attached to it as alternates, their own
/// alternate lists emptied.  Rows appear in order of the username's first
/// appearance.
pub fn merge_players(players: Vec<RankedPlayer>) -> (rows: Vec<RankedPlayer>)
    ensures
        merge_result_ok(players@, rows@),
{
    let ghost orig = players@;
    let ghost users = distinct_users(orig);
    let (names, groups) = group_by_username(players);
    let ghost names0 = names@;
    let mut groups = groups;
    let mut rows: Vec<RankedPlayer> = Vec::new();
    let ghost mut k: int = 0;
    while groups.len() > 0
        invariant
            0 <= k,
            users == distinct_users(orig),
            k + groups@.len() == users.len(),
            rows@.len() == k,
            names0.map_values(|n: String| n@) == users,
            forall|k2: int|
                0 <= k2 < groups@.len() ==> #[trigger] groups@[k2]@ == orig.filter(
                    user_is(users[k + k2]),
                ),
            forall|k2: int|
                0 <= k2 < k ==> merged_row_ok(#[trigger] rows@[k2], group_sorted(orig, users[k2])),
        decreases groups@.len(),
    {
        let ghost gs0 = groups@;
        let g = groups.remove(0);
        proof {
            assert(g@ == orig.filter(user_is(users[k])));
            assert forall|k2: int| 0 <= k2 < groups@.len() implies #[trigger] groups@[k2]@
                == orig.filter(user_is(users[k + 1 + k2])) by {
                assert(groups@[k2] == gs0[k2 + 1]);
            }
            assert(0 <= k < users.len());
            assert(users.contains(users[k]));
            lemma_group_nonempty(orig, users[k]);
            lemma_sort_rating_len(g@);
        }
        let mut sorted_g = sort_by_rating(g);
        let ghost gs = sorted_g@;
        let mut row = sorted_g.remove(0);
        row.alts = Vec::new();
        let ghost mut j: int = 0;
        while sorted_g.len() > 0
            invariant
                same_core(row, gs[0]),
                0 <= j,
                j + sorted_g@.len() + 1 == gs.len(),
                row.alts@.len() == j,
                sorted_g@ == gs.skip(j + 1),
                forall|j2: int|
                    0 <= j2 < j ==> is_stripped(#[trigger] row.alts@[j2], gs[j2 + 1]),
            decreases sorted_g@.len(),
        {
            let mut alt = sorted_g.remove(0);
            proof {
                assert(gs.skip(j + 1).remove(0) =~= gs.skip(j + 2));
                assert(alt == gs[j + 1]);
            }
            alt.alts = Vec::new();
            row.alts.push(alt);
            proof {
                j = j + 1;
            }
        }
        proof {
            assert(merged_row_ok(row, gs));
        }
        rows.push(row);
        proof {
            k = k + 1;
        }
    }
    rows
}

} // verus!
