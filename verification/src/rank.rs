//! The ranker: a stable total order of the merged population, ascending by
//! global rank.  Rows with equal rank keep their input order.

use vstd::prelude::*;
use vstd::seq_lib::*;
use vstd::multiset::Multiset;
use crate::player::RankedPlayer;

verus! {

/// Rows ordered by the external service's global rank, smaller first.
pub open spec fn sorted_by_rank(s: Seq<RankedPlayer>) -> bool {
    forall|i: int, j: int|
        0 <= i <= j < s.len() ==> s[i].global_rank <= s[j].global_rank
}

/// Stable insertion of one row into a rank-ordered sequence: it passes every
/// row whose rank is less than or equal to its own, so equal ranks keep
/// their arrival order.
pub open spec fn insert_rank(s: Seq<RankedPlayer>, p: RankedPlayer) -> Seq<RankedPlayer>
    decreases s.len(),
{
    if s.len() == 0 {
        seq![p]
    } else if s[0].global_rank <= p.global_rank {
        seq![s[0]] + insert_rank(s.drop_first(), p)
    } else {
        seq![p] + s
    }
}

/// The stable rank sort: rows are inserted left to right.
pub open spec fn sort_rank_spec(s: Seq<RankedPlayer>) -> Seq<RankedPlayer>
    decreases s.len(),
{
    if s.len() == 0 {
        Seq::empty()
    } else {
        insert_rank(sort_rank_spec(s.drop_last()), s.last())
    }
}

/// The rows holding one given global rank.
pub open spec fn rank_is(r: int) -> spec_fn(RankedPlayer) -> bool {
    |p: RankedPlayer| p.global_rank == r
}

proof fn lemma_insert_rank_len(s: Seq<RankedPlayer>, p: RankedPlayer)
    ensures
        insert_rank(s, p).len() == s.len() + 1,
    decreases s.len(),
{
    if s.len() > 0 && s[0].global_rank <= p.global_rank {
        lemma_insert_rank_len(s.drop_first(), p);
    }
}

proof fn lemma_insert_rank_sorted(s: Seq<RankedPlayer>, p: RankedPlayer)
    requires
        sorted_by_rank(s),
    ensures
        sorted_by_rank(insert_rank(s, p)),
    decreases s.len(),
{
    if s.len() == 0 {
    } else if s[0].global_rank <= p.global_rank {
        assert(sorted_by_rank(s.drop_first()));
        lemma_insert_rank_sorted(s.drop_first(), p);
        lemma_insert_rank_len(s.drop_first(), p);
        let t = seq![s[0]] + insert_rank(s.drop_first(), p);
        assert forall|i: int, j: int| 0 <= i <= j < t.len() implies t[i].global_rank
            <= t[j].global_rank by {
            if i == 0 && j > 0 {
                let u = insert_rank(s.drop_first(), p);
                if s.drop_first().len() == 0 {
                    assert(u == seq![p]);
                } else if s.drop_first()[0].global_rank <= p.global_rank {
                    assert(u[0] == s.drop_first()[0]);
                } else {
                    assert(u[0] == p);
                }
                assert(t[j].global_rank >= t[0].global_rank);
            }
        }
    } else {
        let t = seq![p] + s;
        assert forall|i: int, j: int| 0 <= i <= j < t.len() implies t[i].global_rank
            <= t[j].global_rank by {
            if i == 0 && j > 0 {
                assert(t[j] == s[j - 1]);
                assert(s[0].global_rank <= s[j - 1].global_rank);
            }
        }
    }
}

/// Every result of the stable rank sort is ordered by global rank.
pub proof fn lemma_sort_rank_sorted(s: Seq<RankedPlayer>)
    ensures
        sorted_by_rank(sort_rank_spec(s)),
    decreases s.len(),
{
    if s.len() > 0 {
        lemma_sort_rank_sorted(s.drop_last());
        lemma_insert_rank_sorted(sort_rank_spec(s.drop_last()), s.last());
    }
}

proof fn lemma_insert_rank_multiset(s: Seq<RankedPlayer>, p: RankedPlayer)
    ensures
        insert_rank(s, p).to_multiset() == s.to_multiset().insert(p),
    decreases s.len(),
{
    broadcast use vstd::multiset::group_multiset_axioms;

    if s.len() == 0 {
        s.to_multiset_ensures();
        assert(seq![p] =~= s.push(p));
    } else if s[0].global_rank <= p.global_rank {
        lemma_insert_rank_multiset(s.drop_first(), p);
        lemma_multiset_commutative(seq![s[0]], insert_rank(s.drop_first(), p));
        lemma_multiset_commutative(seq![s[0]], s.drop_first());
        assert(seq![s[0]] + s.drop_first() =~= s);
        assert(seq![s[0]].to_multiset().add(s.drop_first().to_multiset().insert(p)) =~= (seq![
            s[0],
        ].to_multiset().add(s.drop_first().to_multiset())).insert(p));
        assert(insert_rank(s, p).to_multiset() =~= s.to_multiset().insert(p));
    } else {
        lemma_multiset_commutative(seq![p], s);
        s.to_multiset_ensures();
        assert(s.push(p) =~= s + seq![p]);
        lemma_multiset_commutative(s, seq![p]);
        assert(seq![p].to_multiset().add(s.to_multiset()) =~= s.to_multiset().add(
            seq![p].to_multiset(),
        ));
        assert(insert_rank(s, p).to_multiset() =~= s.to_multiset().insert(p));
    }
}

/// The stable rank sort returns exactly the rows it was given.
pub proof fn lemma_sort_rank_multiset(s: Seq<RankedPlayer>)
    ensures
        sort_rank_spec(s).to_multiset() == s.to_multiset(),
    decreases s.len(),
{
    s.to_multiset_ensures();
    if s.len() > 0 {
        lemma_sort_rank_multiset(s.drop_last());
        lemma_insert_rank_multiset(sort_rank_spec(s.drop_last()), s.last());
        s.drop_last().to_multiset_ensures();
        assert(s.drop_last().push(s.last()) =~= s);
    } else {
        assert(sort_rank_spec(s) =~= s);
    }
}

pub(crate) proof fn lemma_filter_singleton(p: RankedPlayer, pred: spec_fn(RankedPlayer) -> bool)
    ensures
        seq![p].filter(pred) == if pred(p) {
            seq![p]
        } else {
            Seq::<RankedPlayer>::empty()
        },
{
    assert(seq![p].drop_last() =~= Seq::<RankedPlayer>::empty());
    reveal_with_fuel(Seq::filter, 2);
    if pred(p) {
        assert(seq![p].filter(pred) =~= seq![p]);
    } else {
        assert(seq![p].filter(pred) =~= Seq::<RankedPlayer>::empty());
    }
}

proof fn lemma_insert_rank_filter(s: Seq<RankedPlayer>, p: RankedPlayer, r: int)
    requires
        sorted_by_rank(s),
    ensures
        insert_rank(s, p).filter(rank_is(r)) == if p.global_rank == r {
            s.filter(rank_is(r)).push(p)
        } else {
            s.filter(rank_is(r))
        },
    decreases s.len(),
{
    let pred = rank_is(r);
    lemma_filter_singleton(p, pred);
    if s.len() == 0 {
        assert(Seq::<RankedPlayer>::empty().filter(pred) =~= Seq::<RankedPlayer>::empty());
        if p.global_rank == r {
            assert(seq![p] =~= Seq::<RankedPlayer>::empty().filter(pred).push(p));
        }
    } else if s[0].global_rank <= p.global_rank {
        assert(sorted_by_rank(s.drop_first()));
        lemma_insert_rank_filter(s.drop_first(), p, r);
        lemma_filter_singleton(s[0], pred);
        Seq::filter_distributes_over_add(seq![s[0]], insert_rank(s.drop_first(), p), pred);
        Seq::filter_distributes_over_add(seq![s[0]], s.drop_first(), pred);
        assert(seq![s[0]] + s.drop_first() =~= s);
        if p.global_rank == r {
            Seq::push_distributes_over_add(
                seq![s[0]].filter(pred),
                s.drop_first().filter(pred),
                p,
            );
        }
    } else {
        // every row of s outranks p, so none of them holds rank r when p does
        Seq::filter_distributes_over_add(seq![p], s, pred);
        if p.global_rank == r {
            assert forall|i: int| 0 <= i < s.len() implies !pred(s[i]) by {
                assert(s[0].global_rank <= s[i].global_rank);
            }
            s.lemma_all_neg_filter_empty(pred);
            assert(insert_rank(s, p).filter(pred) =~= s.filter(pred).push(p));
        } else {
            assert(insert_rank(s, p).filter(pred) =~= s.filter(pred));
        }
    }
}

/// Stability of the ranker: among the rows holding any one global rank, the
/// sort keeps exactly the input order, so re-running the ranker preserves the
/// relative order of equal-rank rows.
pub proof fn lemma_sort_rank_stable(s: Seq<RankedPlayer>, r: int)
    ensures
        sort_rank_spec(s).filter(rank_is(r)) == s.filter(rank_is(r)),
    decreases s.len(),
{
    reveal(Seq::filter);
    if s.len() > 0 {
        lemma_sort_rank_stable(s.drop_last(), r);
        lemma_sort_rank_sorted(s.drop_last());
        lemma_insert_rank_filter(sort_rank_spec(s.drop_last()), s.last(), r);
        let pred = rank_is(r);
        if pred(s.last()) {
            assert(s.filter(pred) == s.drop_last().filter(pred).push(s.last()));
        } else {
            assert(s.filter(pred) == s.drop_last().filter(pred));
        }
    }
}

proof fn lemma_insert_rank_at_end(s: Seq<RankedPlayer>, p: RankedPlayer)
    requires
        forall|i: int| 0 <= i < s.len() ==> s[i].global_rank <= p.global_rank,
    ensures
        insert_rank(s, p) == s.push(p),
    decreases s.len(),
{
    if s.len() == 0 {
        assert(insert_rank(s, p) =~= s.push(p));
    } else {
        lemma_insert_rank_at_end(s.drop_first(), p);
        assert(seq![s[0]] + s.drop_first().push(p) =~= s.push(p));
    }
}

/// The rank sort leaves an already rank-ordered sequence unchanged; with
/// stability, running the ranker a second time changes nothing.
pub proof fn lemma_sort_rank_of_sorted(s: Seq<RankedPlayer>)
    requires
        sorted_by_rank(s),
    ensures
        sort_rank_spec(s) == s,
    decreases s.len(),
{
    if s.len() > 0 {
        assert(sorted_by_rank(s.drop_last()));
        lemma_sort_rank_of_sorted(s.drop_last());
        lemma_insert_rank_at_end(s.drop_last(), s.last());
        assert(s.drop_last().push(s.last()) =~= s);
    }
}

/// Re-running the ranker on its own output returns that output unchanged.
pub proof fn lemma_sort_rank_idempotent(s: Seq<RankedPlayer>)
    ensures
        sort_rank_spec(sort_rank_spec(s)) == sort_rank_spec(s),
{
    lemma_sort_rank_sorted(s);
    lemma_sort_rank_of_sorted(sort_rank_spec(s));
}

proof fn lemma_insert_rank_at(s: Seq<RankedPlayer>, p: RankedPlayer, j: int)
    requires
        0 <= j <= s.len(),
        forall|k: int| 0 <= k < j ==> s[k].global_rank <= p.global_rank,
        j < s.len() ==> s[j].global_rank > p.global_rank,
    ensures
        insert_rank(s, p) == s.insert(j, p),
    decreases j,
{
    if j == 0 {
        if s.len() == 0 {
            assert(insert_rank(s, p) =~= s.insert(0, p));
        } else {
            assert(insert_rank(s, p) =~= s.insert(0, p));
        }
    } else {
        lemma_insert_rank_at(s.drop_first(), p, j - 1);
        assert(seq![s[0]] + s.drop_first().insert(j - 1, p) =~= s.insert(j, p));
    }
}

/// Sorts the population ascending by global rank; the sort is stable, so
/// equal-rank rows keep their input order.
pub fn rank_players(players: Vec<RankedPlayer>) -> (r: Vec<RankedPlayer>)
    ensures
        r@ == sort_rank_spec(players@),
        sorted_by_rank(r@),
        r@.to_multiset() == players@.to_multiset(),
{
    let ghost orig = players@;
    let mut input = players;
    let mut out: Vec<RankedPlayer> = Vec::new();
    let ghost mut taken: int = 0;
    while input.len() > 0
        invariant
            0 <= taken,
            taken + input@.len() == orig.len(),
            input@ == orig.skip(taken),
            out@ == sort_rank_spec(orig.take(taken)),
        decreases input@.len(),
    {
        let p = input.remove(0);
        proof {
            assert(orig.skip(taken).remove(0) =~= orig.skip(taken + 1));
            assert(p == orig[taken]);
        }
        let mut j: usize = 0;
        while j < out.len() && out[j].global_rank <= p.global_rank
            invariant
                j <= out@.len(),
                forall|k: int| 0 <= k < j ==> out@[k].global_rank <= p.global_rank,
            decreases out@.len() - j,
        {
            j = j + 1;
        }
        proof {
            lemma_insert_rank_at(out@, p, j as int);
            assert(orig.take(taken + 1).drop_last() =~= orig.take(taken));
            assert(orig.take(taken + 1).last() == orig[taken]);
            taken = taken + 1;
        }
        out.insert(j, p);
    }
    proof {
        assert(orig.take(taken) =~= orig);
        lemma_sort_rank_sorted(orig);
        lemma_sort_rank_multiset(orig);
    }
    out
}

} // verus!
