//! The refresh pipeline's computation: aggregated rows are merged by
//! member, totally ordered by global rank, and rendered into the message
//! chunks that replace the channel's content.

use vstd::prelude::*;
use crate::channel::{chunk_count, chunk_end, chunk_text, render_chunks};
use crate::merge::{merge_players, merge_result_ok};
use crate::player::RankedPlayer;
use crate::rank::{rank_players, sort_rank_spec, sorted_by_rank};

verus! {

/// Turns the aggregated population into the ordered rows and the message
/// chunks one refresh run publishes: alternate accounts are merged into
/// their member's row, the rows are stably ordered by global rank, and the
/// chunks hold ten numbered entries each with the trailing partial chunk
/// flushed.
pub fn build_rankings(players: Vec<RankedPlayer>, now: i64) -> (r: (
    Vec<RankedPlayer>,
    Vec<String>,
))
    ensures
        exists|merged: Seq<RankedPlayer>|
            #[trigger] merge_result_ok(players@, merged) && r.0@ == sort_rank_spec(merged),
        sorted_by_rank(r.0@),
        r.1@.len() == chunk_count(r.0@.len() as int),
        forall|k: int|
            0 <= k < r.1@.len() ==> #[trigger] r.1@[k]@ == chunk_text(
                r.0@,
                now as int,
                10 * k,
                chunk_end(r.0@.len() as int, k),
            ),
{
    let merged = merge_players(players);
    let ghost merged_view = merged@;
    let rows = rank_players(merged);
    let chunks = render_chunks(&rows, now);
    proof {
        assert(merge_result_ok(players@, merged_view) && rows@ == sort_rank_spec(merged_view));
    }
    (rows, chunks)
}

} // verus!
