use aoe4_ladder::localize::{civ_display, tier_display};
use aoe4_ladder::numfmt::{i32_to_string, i64_to_string, u64_to_string, usize_to_string};
use aoe4_ladder::player::{ChatIdentity, RankedPlayer};
use aoe4_ladder::profile::CivData;
use aoe4_ladder::text::{escape, replace_underscores};

const NOW: i64 = 1_700_000_000;

fn sample_player() -> RankedPlayer {
    RankedPlayer {
        aoe4_name: "Jumper".to_string(),
        aoe4_id: 13753974,
        discord_display: "跳跳".to_string(),
        discord_username: "jump__".to_string(),
        rank_level: "conqueror_2".to_string(),
        global_rank: 42,
        rating: 1650,
        recent_max_rating: 1700,
        elo: 1580,
        favorite_civ: CivData { civilization: "english".to_string(), pick_rate: 37 },
        games_played: 812,
        win_rate: 52,
        last_played: NOW - 3 * 86400,
        alts: Vec::new(),
    }
}

#[test]
fn escape_escapes_underscores() {
    assert_eq!(escape("jump__"), "jump\\_\\_");
    assert_eq!(escape("no-underscore"), "no-underscore");
    assert_eq!(escape(""), "");
}

#[test]
fn replace_underscores_spaces() {
    assert_eq!(replace_underscores("order_of_the_dragon"), "order of the dragon");
    assert_eq!(replace_underscores("plain"), "plain");
}

#[test]
fn tier_table_and_fallback() {
    assert_eq!(tier_display("conqueror_3"), "征服者3");
    assert_eq!(tier_display("gold_1"), "黃金1");
    assert_eq!(tier_display("bronze_2"), "青銅2");
    assert_eq!(tier_display("unranked_tier"), "unranked tier");
}

#[test]
fn civ_table_and_fallback() {
    assert_eq!(civ_display("english"), "英格蘭(English)");
    assert_eq!(civ_display("zhu_xis_legacy"), "朱熹");
    assert_eq!(civ_display("mystery_civ"), "mystery civ");
}

#[test]
fn civ_method_localizes() {
    let civ = CivData { civilization: "rus".to_string(), pick_rate: 12 };
    assert_eq!(civ.civilization(), "羅斯(Русь)");
}

#[test]
fn numbers_render_in_decimal() {
    assert_eq!(u64_to_string(0), "0");
    assert_eq!(u64_to_string(9007), "9007");
    assert_eq!(i64_to_string(-5), "-5");
    assert_eq!(i64_to_string(9223372036854775807), "9223372036854775807");
    assert_eq!(i64_to_string(-9223372036854775808), "-9223372036854775808");
    assert_eq!(i32_to_string(-2147483648), "-2147483648");
    assert_eq!(usize_to_string(10), "10");
}

#[test]
fn relative_time_recent_and_days() {
    let p = sample_player();
    assert_eq!(p.last_played(NOW), "3天前");
    let mut q = sample_player();
    q.last_played = NOW - 86399;
    assert_eq!(q.last_played(NOW), "最近");
    q.last_played = NOW + 2 * 86400;
    assert_eq!(q.last_played(NOW), "-2天前");
}

#[test]
fn info_block_bytes() {
    let p = sample_player();
    let expected = format!(
        "遊戲ID: {}\n階級: {}\n全球排名: {}, 遊戲場次: {} (勝率: {}%)\n愛用文明: {} (出場率 {}%), 上次遊玩: {}\n排名積分: {}, 近期最高積分: {}, Elo: {}",
        "Jumper", "征服者2", 42, 812, 52, "英格蘭(English)", 37, "3天前", 1650, 1700, 1580
    );
    assert_eq!(p.info(NOW), expected);
}

#[test]
fn display_block_bytes() {
    let p = sample_player();
    let expected = format!(
        "{} ({})\n遊戲ID: [{}](https://aoe4world.com/players/{})\n階級: {}\n全球排名: {}, 遊戲場次: {} (勝率: {}%)\n愛用文明: {} ,出場率 {}%\n排名積分: {}, 近期最高積分: {}, Elo: {}, 上次遊玩: {}",
        "跳跳", "jump\\_\\_", "Jumper", 13753974, "征服者2", 42, 812, 52,
        "英格蘭(English)", 37, 1650, 1700, 1580, "3天前"
    );
    assert_eq!(p.display_text(NOW), expected);
}

#[test]
fn display_block_with_alts() {
    let mut p = sample_player();
    let mut alt = sample_player();
    alt.aoe4_name = "JumperSmurf".to_string();
    alt.rating = 1400;
    p.append_alt(alt);
    let text = p.display_text(NOW);
    let tail = format!("\n其他小號:\n  {}: {}", "JumperSmurf", 1400);
    assert!(text.ends_with(&tail));
    assert!(text.starts_with("跳跳 (jump\\_\\_)\n"));
}

#[test]
fn discord_username_accessor() {
    let p = sample_player();
    assert_eq!(p.discord_username(), "jump__");
}

#[test]
fn rank_level_method_localizes() {
    let p = sample_player();
    assert_eq!(p.rank_level(), "征服者2");
}

#[test]
fn display_name_preference() {
    let nickname = ChatIdentity {
        username: "user".to_string(),
        global_name: Some("global".to_string()),
        nickname: Some("nick".to_string()),
    };
    let global = ChatIdentity {
        username: "user".to_string(),
        global_name: Some("global".to_string()),
        nickname: None,
    };
    let bare = ChatIdentity { username: "user".to_string(), global_name: None, nickname: None };
    let empty_nickname = ChatIdentity {
        username: "user".to_string(),
        global_name: Some("global".to_string()),
        nickname: Some("".to_string()),
    };
    let all_empty = ChatIdentity {
        username: "user".to_string(),
        global_name: Some("".to_string()),
        nickname: Some("".to_string()),
    };
    for (identity, expected) in [
        (nickname, "nick"),
        (global, "global"),
        (bare, "user"),
        (empty_nickname, "global"),
        (all_empty, "user"),
    ] {
        let profile = aoe4_ladder::profile::Profile {
            name: "X".to_string(),
            modes: aoe4_ladder::profile::Modes {
                rm_solo: Some(aoe4_ladder::profile::RankedData {
                    rank: 1,
                    rank_level: "gold_1".to_string(),
                    rating: 1000,
                    max_rating_1m: 1100,
                    games_count: 10,
                    win_rate: 50,
                    civilizations: vec![],
                    last_game_at: NOW,
                }),
                rm_1v1_elo: Some(aoe4_ladder::profile::RankedEloData { rating: 900 }),
            },
        };
        let p = aoe4_ladder::player::build_player(profile, 1, identity).unwrap();
        assert_eq!(p.discord_display, expected);
    }
}
