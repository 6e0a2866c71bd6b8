//! Data model for the external ranking service's player profiles and search
//! results, held as plain values the verifier can reason about.
//!
//! Rates that the service reports as fractions arrive here already rounded to
//! whole percent; timestamps arrive as whole seconds since the Unix epoch.

use vstd::prelude::*;
use crate::localize::{civ_display, civ_spec, tier_display, tier_spec};

verus! {

/// One civilization a player has picked, with its rounded pick rate in
/// percent.
pub struct CivData {
    pub civilization: String,
    pub pick_rate: i32,
}

impl CivData {
    /// The localized display name of the civilization.
    pub fn civilization(&self) -> (r: String)
        ensures
            r@ == civ_spec(self.civilization@),
    {
        civ_display(self.civilization.as_str())
    }
}

/// The ranked-solo section of a profile.
pub struct RankedData {
    pub rank: i32,
    pub rank_level: String,
    pub rating: i32,
    pub max_rating_1m: i32,
    pub games_count: i32,
    pub win_rate: i32,
    pub civilizations: Vec<CivData>,
    pub last_game_at: i64,
}

/// The ranked-Elo section of a profile.
pub struct RankedEloData {
    pub rating: i32,
}

/// The game modes a profile reports; either section may be absent when the
/// player has no ranked history there.
pub struct Modes {
    pub rm_solo: Option<RankedData>,
    pub rm_1v1_elo: Option<RankedEloData>,
}

/// One player profile as the external service reports it.
pub struct Profile {
    pub name: String,
    pub modes: Modes,
}

/// Ranked-solo summary attached to one player search hit.  A missing rating
/// stands for a player whose summary carries no score yet.
pub struct SearchedRankedData {
    pub rank_level: String,
    pub rating: Option<i32>,
}

/// The rating a ranked summary reports, with zero for a missing value.
pub open spec fn summary_rating(d: SearchedRankedData) -> i32 {
    match d.rating {
        Option::Some(v) => v,
        Option::None => 0,
    }
}

impl SearchedRankedData {
    /// The rating, with zero standing in for a missing value.
    pub fn rating(&self) -> (r: i32)
        ensures
            r == summary_rating(*self),
    {
        match self.rating {
            Option::Some(v) => v,
            Option::None => 0,
        }
    }

    /// The localized name of the summary's rank tier.
    pub fn rank_level(&self) -> (r: String)
        ensures
            r@ == tier_spec(self.rank_level@),
    {
        tier_display(self.rank_level.as_str())
    }
}

/// The leaderboards a search hit carries; no ranked-solo entry means the
/// player has no ranked games.
pub struct LeaderBoards {
    pub rm_solo: Option<SearchedRankedData>,
}

/// One player out of a name search.
pub struct SearchedPlayer {
    pub name: String,
    pub profile_id: i32,
    pub leaderboards: LeaderBoards,
}

/// The rating of a search hit, with zero when it has no ranked summary.
pub open spec fn searched_rating(p: SearchedPlayer) -> i32 {
    match p.leaderboards.rm_solo {
        Option::Some(d) => summary_rating(d),
        Option::None => 0,
    }
}

impl SearchedPlayer {
    /// The rating of the hit's ranked-solo summary, zero when absent.
    pub fn rating(&self) -> (r: i32)
        ensures
            r == searched_rating(*self),
    {
        match &self.leaderboards.rm_solo {
            Option::Some(d) => d.rating(),
            Option::None => 0,
        }
    }
}

/// The full answer of a player name search.
pub struct SearchResult {
    pub players: Vec<SearchedPlayer>,
}

} // verus!
