//! The merged ranking row: one community member's external profile joined
//! with their chat identity, plus the renderers that turn a row into the
//! published message block.

use vstd::prelude::*;
use vstd::string::*;
use crate::clock::relative_time;
use crate::clock::relative_time_text;
use crate::localize::{civ_spec, tier_display, tier_spec};
use crate::numfmt::{i32_to_string, i64_to_string, int_to_dec};
use crate::profile::{CivData, Profile};
use crate::text::{append_str, escape, escaped};

verus! {

/// One durable link between a chat-platform member and an external player
/// account.  A member may hold several; the merge folds them into one row.
pub struct Binding {
    pub user_id: i64,
    pub aoe4_id: i64,
}

/// A member's chat identity as the platform reports it: the stable username,
/// and the optional global display name and guild nickname.
pub struct ChatIdentity {
    pub username: String,
    pub global_name: Option<String>,
    pub nickname: Option<String>,
}

/// The display name a ranking row shows: the nickname, the global display
/// name, then the username — the first non-empty one wins.
pub open spec fn display_of(id: ChatIdentity) -> Seq<char> {
    if id.nickname is Some && id.nickname.unwrap()@.len() > 0 {
        id.nickname.unwrap()@
    } else if id.global_name is Some && id.global_name.unwrap()@.len() > 0 {
        id.global_name.unwrap()@
    } else {
        id.username@
    }
}

/// Picks the candidate name when it is present and non-empty, else the
/// fallback.
fn prefer_nonempty(candidate: Option<String>, fallback: String) -> (r: String)
    ensures
        r@ == if candidate is Some && candidate.unwrap()@.len() > 0 {
            candidate.unwrap()@
        } else {
            fallback@
        },
{
    match candidate {
        Option::Some(s) => {
            if s.as_str().is_empty() {
                fallback
            } else {
                s
            }
        },
        Option::None => fallback,
    }
}

/// One row of the published ranking: a member's best account, with any
/// alternate accounts folded in under `alts`.
pub struct RankedPlayer {
    pub aoe4_name: String,
    pub aoe4_id: i64,
    pub discord_display: String,
    pub discord_username: String,
    pub rank_level: String,
    pub global_rank: i32,
    pub rating: i32,
    pub recent_max_rating: i32,
    pub elo: i32,
    pub favorite_civ: CivData,
    pub games_played: i32,
    pub win_rate: i32,
    pub last_played: i64,
    pub alts: Vec<RankedPlayer>,
}

/// Field-for-field equality of two rows, leaving their alt lists out.
pub open spec fn same_core(a: RankedPlayer, b: RankedPlayer) -> bool {
    &&& a.aoe4_name == b.aoe4_name
    &&& a.aoe4_id == b.aoe4_id
    &&& a.discord_display == b.discord_display
    &&& a.discord_username == b.discord_username
    &&& a.rank_level == b.rank_level
    &&& a.global_rank == b.global_rank
    &&& a.rating == b.rating
    &&& a.recent_max_rating == b.recent_max_rating
    &&& a.elo == b.elo
    &&& a.favorite_civ == b.favorite_civ
    &&& a.games_played == b.games_played
    &&& a.win_rate == b.win_rate
    &&& a.last_played == b.last_played
}

/// The favorite civilization a row built from `civs` must carry: the first
/// entry, or the sentinel unknown civilization with a zero pick rate.
pub open spec fn favorite_matches(c: CivData, civs: Seq<CivData>) -> bool {
    if civs.len() > 0 {
        c == civs[0]
    } else {
        c.civilization@ == "未知"@ && c.pick_rate == 0
    }
}

impl RankedPlayer {
    /// Attaches one alternate account to this row.
    pub fn append_alt(&mut self, alt: RankedPlayer)
        ensures
            same_core(*final(self), *old(self)),
            final(self).alts@ == old(self).alts@.push(alt),
    {
        self.alts.push(alt);
    }

    /// The chat username the row was merged under.
    pub fn discord_username(&self) -> (r: &str)
        ensures
            r@ == self.discord_username@,
    {
        self.discord_username.as_str()
    }

    /// The localized name of the row's rank tier.
    pub fn rank_level(&self) -> (r: String)
        ensures
            r@ == tier_spec(self.rank_level@),
    {
        tier_display(self.rank_level.as_str())
    }

    /// Renders when the row's account last played, relative to `now`.
    pub fn last_played(&self, now: i64) -> (r: String)
        ensures
            r@ == relative_time(self.last_played as int, now as int),
    {
        relative_time_text(self.last_played, now)
    }

    /// Renders the single-player summary block.
    pub fn info(&self, now: i64) -> (r: String)
        ensures
            r@ == info_spec(*self, now as int),
    {
        let mut r = String::from_str("遊戲ID: ");
        append_str(&mut r, self.aoe4_name.as_str());
        append_str(&mut r, "\n階級: ");
        let tier = self.rank_level();
        append_str(&mut r, tier.as_str());
        append_str(&mut r, "\n全球排名: ");
        let rank = i32_to_string(self.global_rank);
        append_str(&mut r, rank.as_str());
        append_str(&mut r, ", 遊戲場次: ");
        let games = i32_to_string(self.games_played);
        append_str(&mut r, games.as_str());
        append_str(&mut r, " (勝率: ");
        let win = i32_to_string(self.win_rate);
        append_str(&mut r, win.as_str());
        append_str(&mut r, "%)\n愛用文明: ");
        let civ = self.favorite_civ.civilization();
        append_str(&mut r, civ.as_str());
        append_str(&mut r, " (出場率 ");
        let pick = i32_to_string(self.favorite_civ.pick_rate);
        append_str(&mut r, pick.as_str());
        append_str(&mut r, "%), 上次遊玩: ");
        let when = self.last_played(now);
        append_str(&mut r, when.as_str());
        append_str(&mut r, "\n排名積分: ");
        let rating = i32_to_string(self.rating);
        append_str(&mut r, rating.as_str());
        append_str(&mut r, ", 近期最高積分: ");
        let max = i32_to_string(self.recent_max_rating);
        append_str(&mut r, max.as_str());
        append_str(&mut r, ", Elo: ");
        let elo = i32_to_string(self.elo);
        append_str(&mut r, elo.as_str());
        proof {
            assert(r@ =~= info_spec(*self, now as int));
        }
        r
    }

    /// Renders the full ranking block for this row, alternate accounts
    /// included.
    pub fn display_text(&self, now: i64) -> (r: String)
        ensures
            r@ == display_spec(*self, now as int),
    {
        let mut r = String::new();
        append_str(&mut r, self.discord_display.as_str());
        append_str(&mut r, " (");
        let user = escape(self.discord_username.as_str());
        append_str(&mut r, user.as_str());
        append_str(&mut r, ")\n遊戲ID: [");
        append_str(&mut r, self.aoe4_name.as_str());
        append_str(&mut r, "](https://aoe4world.com/players/");
        let ident = i64_to_string(self.aoe4_id);
        append_str(&mut r, ident.as_str());
        append_str(&mut r, ")\n階級: ");
        let tier = self.rank_level();
        append_str(&mut r, tier.as_str());
        append_str(&mut r, "\n全球排名: ");
        let rank = i32_to_string(self.global_rank);
        append_str(&mut r, rank.as_str());
        append_str(&mut r, ", 遊戲場次: ");
        let games = i32_to_string(self.games_played);
        append_str(&mut r, games.as_str());
        append_str(&mut r, " (勝率: ");
        let win = i32_to_string(self.win_rate);
        append_str(&mut r, win.as_str());
        append_str(&mut r, "%)\n愛用文明: ");
        let civ = self.favorite_civ.civilization();
        append_str(&mut r, civ.as_str());
        append_str(&mut r, " ,出場率 ");
        let pick = i32_to_string(self.favorite_civ.pick_rate);
        append_str(&mut r, pick.as_str());
        append_str(&mut r, "%\n排名積分: ");
        let rating = i32_to_string(self.rating);
        append_str(&mut r, rating.as_str());
        append_str(&mut r, ", 近期最高積分: ");
        let max = i32_to_string(self.recent_max_rating);
        append_str(&mut r, max.as_str());
        append_str(&mut r, ", Elo: ");
        let elo = i32_to_string(self.elo);
        append_str(&mut r, elo.as_str());
        append_str(&mut r, ", 上次遊玩: ");
        let when = self.last_played(now);
        append_str(&mut r, when.as_str());
        proof {
            assert(r@ =~= head_spec(*self, now as int));
        }
        if self.alts.len() > 0 {
            append_str(&mut r, "\n其他小號:");
            let mut i: usize = 0;
            while i < self.alts.len()
                invariant
                    i <= self.alts@.len(),
                    r@ == head_spec(*self, now as int) + "\n其他小號:"@ + alt_lines(
                        self.alts@.take(i as int),
                    ),
                decreases self.alts@.len() - i,
            {
                append_str(&mut r, "\n  ");
                append_str(&mut r, self.alts[i].aoe4_name.as_str());
                append_str(&mut r, ": ");
                let alt_rating = i32_to_string(self.alts[i].rating);
                append_str(&mut r, alt_rating.as_str());
                i = i + 1;
                proof {
                    assert(self.alts@.take(i as int).drop_last() =~= self.alts@.take(i - 1));
                    assert(self.alts@.take(i as int).last() == self.alts@[i - 1]);
                    assert(r@ =~= head_spec(*self, now as int) + "\n其他小號:"@ + alt_lines(
                        self.alts@.take(i as int),
                    ));
                }
            }
            proof {
                assert(self.alts@.take(self.alts@.len() as int) =~= self.alts@);
                assert(r@ =~= display_spec(*self, now as int));
            }
            r
        } else {
            proof {
                assert(r@ =~= display_spec(*self, now as int));
            }
            r
        }
    }
}

/// The single-player summary block, character for character.
pub open spec fn info_spec(p: RankedPlayer, now: int) -> Seq<char> {
    "遊戲ID: "@ + p.aoe4_name@ + "\n階級: "@ + tier_spec(p.rank_level@) + "\n全球排名: "@
        + int_to_dec(p.global_rank as int) + ", 遊戲場次: "@ + int_to_dec(p.games_played as int)
        + " (勝率: "@ + int_to_dec(p.win_rate as int) + "%)\n愛用文明: "@ + civ_spec(
        p.favorite_civ.civilization@,
    ) + " (出場率 "@ + int_to_dec(p.favorite_civ.pick_rate as int) + "%), 上次遊玩: "@
        + relative_time(p.last_played as int, now) + "\n排名積分: "@ + int_to_dec(p.rating as int)
        + ", 近期最高積分: "@ + int_to_dec(p.recent_max_rating as int) + ", Elo: "@ + int_to_dec(
        p.elo as int,
    )
}

/// The ranking block without the alternate-account lines.
pub open spec fn head_spec(p: RankedPlayer, now: int) -> Seq<char> {
    p.discord_display@ + " ("@ + escaped(p.discord_username@) + ")\n遊戲ID: ["@ + p.aoe4_name@
        + "](https://aoe4world.com/players/"@ + int_to_dec(p.aoe4_id as int) + ")\n階級: "@
        + tier_spec(p.rank_level@) + "\n全球排名: "@ + int_to_dec(p.global_rank as int)
        + ", 遊戲場次: "@ + int_to_dec(p.games_played as int) + " (勝率: "@ + int_to_dec(
        p.win_rate as int,
    ) + "%)\n愛用文明: "@ + civ_spec(p.favorite_civ.civilization@) + " ,出場率 "@ + int_to_dec(
        p.favorite_civ.pick_rate as int,
    ) + "%\n排名積分: "@ + int_to_dec(p.rating as int) + ", 近期最高積分: "@ + int_to_dec(
        p.recent_max_rating as int,
    ) + ", Elo: "@ + int_to_dec(p.elo as int) + ", 上次遊玩: "@ + relative_time(
        p.last_played as int,
        now,
    )
}

/// One line per alternate account, each with its name and rating.
pub open spec fn alt_lines(alts: Seq<RankedPlayer>) -> Seq<char>
    decreases alts.len(),
{
    if alts.len() == 0 {
        Seq::empty()
    } else {
        alt_lines(alts.drop_last()) + "\n  "@ + alts.last().aoe4_name@ + ": "@ + int_to_dec(
            alts.last().rating as int,
        )
    }
}

/// The full ranking block: the head, then the alternate-account section when
/// there is one.
pub open spec fn display_spec(p: RankedPlayer, now: int) -> Seq<char> {
    if p.alts@.len() == 0 {
        head_spec(p, now)
    } else {
        head_spec(p, now) + "\n其他小號:"@ + alt_lines(p.alts@)
    }
}

/// Joins one external profile with a chat identity into a ranking row.
/// Yields nothing exactly when the profile lacks its ranked-solo or
/// ranked-Elo section; a profile without civilizations falls back to the
/// sentinel unknown civilization.
pub fn build_player(profile: Profile, aoe4_id: i64, identity: ChatIdentity) -> (r: Option<
    RankedPlayer,
>)
    ensures
        r is None <==> (profile.modes.rm_solo is None || profile.modes.rm_1v1_elo is None),
        r is Some ==> {
            let solo = profile.modes.rm_solo.unwrap();
            let p = r.unwrap();
            &&& p.aoe4_name == profile.name
            &&& p.aoe4_id == aoe4_id
            &&& p.discord_display@ == display_of(identity)
            &&& p.discord_username == identity.username
            &&& p.rank_level == solo.rank_level
            &&& p.global_rank == solo.rank
            &&& p.rating == solo.rating
            &&& p.recent_max_rating == solo.max_rating_1m
            &&& p.elo == profile.modes.rm_1v1_elo.unwrap().rating
            &&& favorite_matches(p.favorite_civ, solo.civilizations@)
            &&& p.games_played == solo.games_count
            &&& p.win_rate == solo.win_rate
            &&& p.last_played == solo.last_game_at
            &&& p.alts@.len() == 0
        },
{
    let Profile { name, modes } = profile;
    let solo = match modes.rm_solo {
        Option::Some(solo) => solo,
        Option::None => {
            return Option::None;
        },
    };
    let elo = match modes.rm_1v1_elo {
        Option::Some(elo) => elo,
        Option::None => {
            return Option::None;
        },
    };
    let username = identity.username;
    let discord_display = prefer_nonempty(
        identity.nickname,
        prefer_nonempty(identity.global_name, username.clone()),
    );
    let mut civs = solo.civilizations;
    let favorite_civ = if civs.len() > 0 {
        civs.remove(0)
    } else {
        CivData { civilization: String::from_str("未知"), pick_rate: 0 }
    };
    Option::Some(
        RankedPlayer {
            aoe4_name: name,
            aoe4_id,
            discord_display,
            discord_username: username,
            rank_level: solo.rank_level,
            global_rank: solo.rank,
            rating: solo.rating,
            recent_max_rating: solo.max_rating_1m,
            elo: elo.rating,
            favorite_civ,
            games_played: solo.games_count,
            win_rate: solo.win_rate,
            last_played: solo.last_game_at,
            alts: Vec::new(),
        },
    )
}

} // verus!
