//! The channel synchronizer: the ranked population rendered into numbered
//! blocks, closed into a message chunk after every tenth player, and the
//! reconciliation that replaces a channel's whole message list with exactly
//! those chunks.

use vstd::prelude::*;
use vstd::string::*;
use crate::numfmt::{dec_digits, usize_to_string};
use crate::player::{display_spec, RankedPlayer};
use crate::text::append_str;

verus! {

/// How many rendered players close a chunk.
pub const CHUNK_SIZE: usize = 10;

/// One numbered entry: the player's position, its full block, and the
/// spacer line.
pub open spec fn entry_spec(p: RankedPlayer, pos: int, now: int) -> Seq<char> {
    "第"@ + dec_digits(pos) + "名  "@ + display_spec(p, now) + "\n　\n"@
}

/// The text of one chunk: the entries of the players at positions
/// `start..end`, in rank order.
pub open spec fn chunk_text(s: Seq<RankedPlayer>, now: int, start: int, end: int) -> Seq<char>
    decreases end - start,
{
    if start >= end {
        Seq::empty()
    } else {
        chunk_text(s, now, start, end - 1) + entry_spec(s[end - 1], end, now)
    }
}

/// How many chunks a population of `n` players fills: one for each started
/// group of ten.
pub open spec fn chunk_count(n: int) -> int {
    (n + 9) / 10
}

/// The end of chunk `k`: ten players past its start, or the population's
/// end for the trailing partial chunk.
pub open spec fn chunk_end(n: int, k: int) -> int {
    if 10 * k + 10 <= n {
        10 * k + 10
    } else {
        n
    }
}

/// All chunk texts of a population, in rank order.
pub open spec fn chunk_views(s: Seq<RankedPlayer>, now: int) -> Seq<Seq<char>> {
    Seq::new(
        chunk_count(s.len() as int) as nat,
        |k: int| chunk_text(s, now, 10 * k, chunk_end(s.len() as int, k)),
    )
}

/// Renders one numbered entry for the player standing at 1-based position
/// `pos`.
fn render_entry(p: &RankedPlayer, pos: usize, now: i64) -> (r: String)
    ensures
        r@ == entry_spec(*p, pos as int, now as int),
{
    let mut r = String::from_str("第");
    let num = usize_to_string(pos);
    append_str(&mut r, num.as_str());
    append_str(&mut r, "名  ");
    let block = p.display_text(now);
    append_str(&mut r, block.as_str());
    append_str(&mut r, "\n　\n");
    proof {
        assert(r@ =~= entry_spec(*p, pos as int, now as int));
    }
    r
}

/// Renders the ordered population into message chunks: entries are numbered
/// from one, a chunk closes after every tenth player, and a trailing partial
/// chunk is always flushed.
pub fn render_chunks(players: &Vec<RankedPlayer>, now: i64) -> (chunks: Vec<String>)
    ensures
        chunks@.len() == chunk_count(players@.len() as int),
        forall|k: int|
            0 <= k < chunks@.len() ==> #[trigger] chunks@[k]@ == chunk_text(
                players@,
                now as int,
                10 * k,
                chunk_end(players@.len() as int, k),
            ),
{
    let n = players.len();
    let mut chunks: Vec<String> = Vec::new();
    let mut buffer = String::new();
    let mut in_chunk: usize = 0;
    let mut i: usize = 0;
    while i < n
        invariant
            i <= n,
            n == players@.len(),
            in_chunk < 10,
            i == 10 * chunks@.len() + in_chunk,
            buffer@ == chunk_text(players@, now as int, 10 * (chunks@.len() as int), i as int),
            forall|k: int|
                0 <= k < chunks@.len() ==> #[trigger] chunks@[k]@ == chunk_text(
                    players@,
                    now as int,
                    10 * k,
                    10 * k + 10,
                ),
        decreases n - i,
    {
        let entry = render_entry(&players[i], i + 1, now);
        append_str(&mut buffer, entry.as_str());
        i = i + 1;
        in_chunk = in_chunk + 1;
        if in_chunk == 10 {
            chunks.push(buffer);
            buffer = String::new();
            in_chunk = 0;
            proof {
                assert(buffer@ =~= chunk_text(
                    players@,
                    now as int,
                    10 * (chunks@.len() as int),
                    i as int,
                ));
            }
        }
    }
    let ghost full = chunks@.len() as int;
    if in_chunk > 0 {
        chunks.push(buffer);
        proof {
            assert((10 * full + in_chunk + 9) / 10 == full + 1) by (nonlinear_arith)
                requires
                    0 < in_chunk < 10,
                    0 <= full,
            ;
            assert forall|k: int| 0 <= k < chunks@.len() implies #[trigger] chunks@[k]@
                == chunk_text(players@, now as int, 10 * k, chunk_end(n as int, k)) by {
                if k < full {
                    assert(10 * k + 10 <= 10 * full);
                    assert(chunk_end(n as int, k) == 10 * k + 10);
                } else {
                    assert(chunk_end(n as int, k) == n as int);
                }
            }
        }
    } else {
        proof {
            assert((10 * full + 9) / 10 == full) by (nonlinear_arith)
                requires
                    0 <= full,
            ;
            assert forall|k: int| 0 <= k < chunks@.len() implies #[trigger] chunks@[k]@
                == chunk_text(players@, now as int, 10 * k, chunk_end(n as int, k)) by {
                assert(10 * k + 10 <= 10 * full);
                assert(chunk_end(n as int, k) == 10 * k + 10);
            }
        }
    }
    chunks
}

/// A channel's observable state: its message list, oldest first.
pub struct ChannelState {
    pub messages: Vec<String>,
}

impl ChannelState {
    /// An empty channel.
    pub fn new() -> (c: ChannelState)
        ensures
            c.messages@.len() == 0,
    {
        ChannelState { messages: Vec::new() }
    }

    /// Reconciles the channel to exactly the given chunks: every current
    /// message is deleted, then the chunks are posted in order.  The
    /// resulting message list does not depend on what the channel held
    /// before, which makes a re-run with the same chunks converge to the
    /// same observable state.
    pub fn apply_sync(&mut self, chunks: Vec<String>)
        ensures
            final(self).messages@ == chunks@,
    {
        while self.messages.len() > 0
            decreases self.messages@.len(),
        {
            let _removed = self.messages.pop();
        }
        proof {
            assert(self.messages@ =~= Seq::<String>::empty());
        }
        let ghost all = chunks@;
        let mut rest = chunks;
        let ghost mut posted: int = 0;
        while rest.len() > 0
            invariant
                0 <= posted,
                posted + rest@.len() == all.len(),
                rest@ == all.skip(posted),
                self.messages@ == all.take(posted),
            decreases rest@.len(),
        {
            let m = rest.remove(0);
            proof {
                assert(all.skip(posted).remove(0) =~= all.skip(posted + 1));
                assert(m == all[posted]);
                assert(all.take(posted).push(m) =~= all.take(posted + 1));
            }
            self.messages.push(m);
            proof {
                posted = posted + 1;
            }
        }
        proof {
            assert(all.take(posted) =~= all);
        }
    }
}

/// The channel content one synchronization run leaves behind: the previous
/// messages are all deleted, so only the freshly rendered chunks remain.
pub open spec fn channel_after_run(
    prev: Seq<Seq<char>>,
    players: Seq<RankedPlayer>,
    now: int,
) -> Seq<Seq<char>> {
    chunk_views(players, now)
}

/// Idempotent convergence: with an unchanged ordered population, a second
/// synchronization run leaves the channel with exactly the content the first
/// run left, whatever the channel held before either run.
pub proof fn lemma_sync_idempotent(prev: Seq<Seq<char>>, players: Seq<RankedPlayer>, now: int)
    ensures
        channel_after_run(channel_after_run(prev, players, now), players, now)
            == channel_after_run(prev, players, now),
{
}

} // verus!
