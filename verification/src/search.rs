//! Autocomplete over a player name search: hits are ordered best rating
//! first, hits without a ranked summary are dropped, and the first ten are
//! rendered as labelled choices.

use vstd::prelude::*;
use vstd::seq_lib::*;
use vstd::string::*;
use crate::localize::{tier_display, tier_spec};
use crate::numfmt::{i32_to_string, int_to_dec};
use crate::profile::{searched_rating, summary_rating, SearchedPlayer};
use crate::text::append_str;

verus! {

/// Stable insertion of one hit into a rating-ordered sequence: it passes
/// every hit rated at least as high as itself.
pub open spec fn insert_searched(s: Seq<SearchedPlayer>, p: SearchedPlayer) -> Seq<SearchedPlayer>
    decreases s.len(),
{
    if s.len() == 0 {
        seq![p]
    } else if searched_rating(s[0]) >= searched_rating(p) {
        seq![s[0]] + insert_searched(s.drop_first(), p)
    } else {
        seq![p] + s
    }
}

/// The stable descending-rating sort of search hits.
pub open spec fn sort_searched_spec(s: Seq<SearchedPlayer>) -> Seq<SearchedPlayer>
    decreases s.len(),
{
    if s.len() == 0 {
        Seq::empty()
    } else {
        insert_searched(sort_searched_spec(s.drop_last()), s.last())
    }
}

/// The hits that carry a ranked summary.
pub open spec fn has_summary() -> spec_fn(SearchedPlayer) -> bool {
    |p: SearchedPlayer| p.leaderboards.rm_solo is Some
}

/// The ranked hits of a search, best rating first: unranked hits are
/// dropped, the rest keep their rating order.
pub open spec fn ranked_hits(s: Seq<SearchedPlayer>) -> Seq<SearchedPlayer> {
    sort_searched_spec(s).filter(has_summary())
}

/// The label of one ranked hit: name, localized tier, and rating.
pub open spec fn choice_label_spec(p: SearchedPlayer) -> Seq<char>
    recommends
        has_summary()(p),
{
    p.name@ + " - 階級: "@ + tier_spec(p.leaderboards.rm_solo.unwrap().rank_level@) + ", 積分: "@
        + int_to_dec(searched_rating(p) as int)
}

/// One autocomplete choice: the shown label and the player id it stands
/// for.
pub struct SearchChoice {
    pub label: String,
    pub profile_id: i32,
}

/// Choices paired one for one with the ranked hits they were rendered
/// from.
pub open spec fn choices_match(r: Seq<SearchChoice>, hits: Seq<SearchedPlayer>) -> bool {
    &&& r.len() == hits.len()
    &&& forall|j: int|
        0 <= j < r.len() ==> (#[trigger] r[j]).label@ == choice_label_spec(hits[j]) && r[j].profile_id
            == hits[j].profile_id
}

proof fn lemma_insert_searched_at(s: Seq<SearchedPlayer>, p: SearchedPlayer, j: int)
    requires
        0 <= j <= s.len(),
        forall|k: int| 0 <= k < j ==> searched_rating(#[trigger] s[k]) >= searched_rating(p),
        j < s.len() ==> searched_rating(s[j]) < searched_rating(p),
    ensures
        insert_searched(s, p) == s.insert(j, p),
    decreases j,
{
    if j == 0 {
        assert(insert_searched(s, p) =~= s.insert(0, p));
    } else {
        lemma_insert_searched_at(s.drop_first(), p, j - 1);
        assert(seq![s[0]] + s.drop_first().insert(j - 1, p) =~= s.insert(j, p));
    }
}

proof fn lemma_filter_singleton_hit(p: SearchedPlayer, pred: spec_fn(SearchedPlayer) -> bool)
    ensures
        seq![p].filter(pred) == if pred(p) {
            seq![p]
        } else {
            Seq::<SearchedPlayer>::empty()
        },
{
    assert(seq![p].drop_last() =~= Seq::<SearchedPlayer>::empty());
    reveal_with_fuel(Seq::filter, 2);
    if pred(p) {
        assert(seq![p].filter(pred) =~= seq![p]);
    } else {
        assert(seq![p].filter(pred) =~= Seq::<SearchedPlayer>::empty());
    }
}

/// Sorts the search hits descending by rating; the sort is stable.
fn sort_searched(players: Vec<SearchedPlayer>) -> (r: Vec<SearchedPlayer>)
    ensures
        r@ == sort_searched_spec(players@),
{
    let ghost orig = players@;
    let mut input = players;
    let mut out: Vec<SearchedPlayer> = Vec::new();
    let ghost mut taken: int = 0;
    while input.len() > 0
        invariant
            0 <= taken,
            taken + input@.len() == orig.len(),
            input@ == orig.skip(taken),
            out@ == sort_searched_spec(orig.take(taken)),
        decreases input@.len(),
    {
        let p = input.remove(0);
        proof {
            assert(orig.skip(taken).remove(0) =~= orig.skip(taken + 1));
            assert(p == orig[taken]);
        }
        let rating = p.rating();
        let mut j: usize = 0;
        while j < out.len() && out[j].rating() >= rating
            invariant
                j <= out@.len(),
                rating == searched_rating(p),
                forall|k: int|
                    0 <= k < j ==> searched_rating(#[trigger] out@[k]) >= searched_rating(p),
            decreases out@.len() - j,
        {
            j = j + 1;
        }
        proof {
            lemma_insert_searched_at(out@, p, j as int);
            assert(orig.take(taken + 1).drop_last() =~= orig.take(taken));
            assert(orig.take(taken + 1).last() == orig[taken]);
            taken = taken + 1;
        }
        out.insert(j, p);
    }
    proof {
        assert(orig.take(taken) =~= orig);
    }
    out
}

/// Renders one ranked hit's label.
fn render_choice(name: String, tier_key: &str, rating: i32) -> (r: String)
    ensures
        r@ == name@ + " - 階級: "@ + tier_spec(tier_key@) + ", 積分: "@ + int_to_dec(
            rating as int,
        ),
{
    let ghost name0 = name@;
    let mut r = name;
    append_str(&mut r, " - 階級: ");
    let tier = tier_display(tier_key);
    append_str(&mut r, tier.as_str());
    append_str(&mut r, ", 積分: ");
    let score = i32_to_string(rating);
    append_str(&mut r, score.as_str());
    proof {
        assert(r@ =~= name0 + " - 階級: "@ + tier_spec(tier_key@) + ", 積分: "@ + int_to_dec(
            rating as int,
        ));
    }
    r
}

/// Builds the autocomplete choices of a name search: hits ordered best
/// rating first, hits without a ranked summary dropped, and at most the
/// first ten rendered.
pub fn autocomplete_choices(players: Vec<SearchedPlayer>) -> (r: Vec<SearchChoice>)
    ensures
        r@.len() == if ranked_hits(players@).len() < 10 {
            ranked_hits(players@).len() as int
        } else {
            10
        },
        choices_match(r@, ranked_hits(players@).take(r@.len() as int)),
{
    let ghost orig = players@;
    let mut sorted = sort_searched(players);
    let ghost gs = sorted@;
    let mut r: Vec<SearchChoice> = Vec::new();
    let ghost mut i: int = 0;
    while sorted.len() > 0 && r.len() < 10
        invariant
            0 <= i,
            gs == sort_searched_spec(orig),
            i + sorted@.len() == gs.len(),
            sorted@ == gs.skip(i),
            r@.len() <= 10,
            choices_match(r@, gs.take(i).filter(has_summary())),
        decreases sorted@.len(),
    {
        let p = sorted.remove(0);
        proof {
            assert(gs.skip(i).remove(0) =~= gs.skip(i + 1));
            assert(p == gs[i]);
            assert(gs.take(i + 1) =~= gs.take(i) + seq![p]);
            Seq::filter_distributes_over_add(gs.take(i), seq![p], has_summary());
            lemma_filter_singleton_hit(p, has_summary());
        }
        let SearchedPlayer { name, profile_id, leaderboards } = p;
        match leaderboards.rm_solo {
            Option::Some(d) => {
                let rating = d.rating();
                let label = render_choice(name, d.rank_level.as_str(), rating);
                r.push(SearchChoice { label, profile_id });
                proof {
                    assert(gs.take(i + 1).filter(has_summary()) =~= gs.take(i).filter(
                        has_summary(),
                    ).push(p));
                }
            },
            Option::None => {
                proof {
                    assert(gs.take(i + 1).filter(has_summary()) =~= gs.take(i).filter(
                        has_summary(),
                    ));
                }
            },
        }
        proof {
            i = i + 1;
        }
    }
    proof {
        let hits = ranked_hits(orig);
        if sorted@.len() == 0 {
            assert(gs.take(i) =~= gs);
            assert(hits.take(r@.len() as int) =~= hits);
        } else {
            assert(r@.len() == 10);
            Seq::filter_distributes_over_add(gs.take(i), gs.skip(i), has_summary());
            assert(gs.take(i) + gs.skip(i) =~= gs);
            assert(hits =~= gs.take(i).filter(has_summary()) + gs.skip(i).filter(has_summary()));
            assert(hits.take(10) =~= gs.take(i).filter(has_summary()));
        }
    }
    r
}

} // verus!
