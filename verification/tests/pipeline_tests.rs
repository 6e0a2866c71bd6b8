use aoe4_ladder::channel::{render_chunks, ChannelState};
use aoe4_ladder::merge::merge_players;
use aoe4_ladder::pipeline::build_rankings;
use aoe4_ladder::player::{build_player, ChatIdentity, RankedPlayer};
use aoe4_ladder::profile::{CivData, Modes, Profile, RankedData, RankedEloData};
use aoe4_ladder::rank::rank_players;

const NOW: i64 = 1_700_000_000;

fn player(name: &str, username: &str, global_rank: i32, rating: i32) -> RankedPlayer {
    RankedPlayer {
        aoe4_name: name.to_string(),
        aoe4_id: 1000 + global_rank as i64,
        discord_display: username.to_string(),
        discord_username: username.to_string(),
        rank_level: "gold_2".to_string(),
        global_rank,
        rating,
        recent_max_rating: rating + 20,
        elo: rating - 30,
        favorite_civ: CivData { civilization: "mongols".to_string(), pick_rate: 25 },
        games_played: 100,
        win_rate: 50,
        last_played: NOW - 2 * 86400,
        alts: Vec::new(),
    }
}

fn profile_with(
    rm_solo: Option<RankedData>,
    rm_1v1_elo: Option<RankedEloData>,
) -> Profile {
    Profile { name: "Someone".to_string(), modes: Modes { rm_solo, rm_1v1_elo } }
}

fn solo_section() -> RankedData {
    RankedData {
        rank: 7,
        rank_level: "diamond_1".to_string(),
        rating: 1500,
        max_rating_1m: 1550,
        games_count: 321,
        win_rate: 55,
        civilizations: vec![CivData { civilization: "french".to_string(), pick_rate: 40 }],
        last_game_at: NOW - 86400,
    }
}

fn identity() -> ChatIdentity {
    ChatIdentity { username: "someone".to_string(), global_name: None, nickname: None }
}

#[test]
fn merge_folds_alts_by_username() {
    let players = vec![
        player("Main", "alice", 5, 1700),
        player("Second", "alice", 9, 1600),
        player("Third", "alice", 30, 1500),
    ];
    let rows = merge_players(players);
    assert_eq!(rows.len(), 1);
    let row = &rows[0];
    assert_eq!(row.aoe4_name, "Main");
    assert_eq!(row.rating, 1700);
    assert_eq!(row.alts.len(), 2);
    assert_eq!(row.alts[0].aoe4_name, "Second");
    assert_eq!(row.alts[0].rating, 1600);
    assert!(row.alts[0].alts.is_empty());
    assert_eq!(row.alts[1].aoe4_name, "Third");
    assert_eq!(row.alts[1].rating, 1500);
    assert!(row.alts[1].alts.is_empty());
}

#[test]
fn merge_picks_best_rating_regardless_of_order() {
    let players = vec![
        player("Weak", "bob", 40, 1200),
        player("Strong", "bob", 3, 1800),
    ];
    let rows = merge_players(players);
    assert_eq!(rows.len(), 1);
    assert_eq!(rows[0].aoe4_name, "Strong");
    assert_eq!(rows[0].alts.len(), 1);
    assert_eq!(rows[0].alts[0].aoe4_name, "Weak");
}

#[test]
fn merge_leaves_singletons_alone() {
    let players = vec![
        player("A", "alice", 5, 1700),
        player("B", "bob", 9, 1600),
    ];
    let rows = merge_players(players);
    assert_eq!(rows.len(), 2);
    assert_eq!(rows[0].aoe4_name, "A");
    assert!(rows[0].alts.is_empty());
    assert_eq!(rows[1].aoe4_name, "B");
    assert!(rows[1].alts.is_empty());
}

#[test]
fn rank_sort_is_ascending_and_stable() {
    let players = vec![
        player("Late", "u1", 10, 1500),
        player("First", "u2", 3, 1400),
        player("TiedOne", "u3", 7, 1300),
        player("TiedTwo", "u4", 7, 1600),
        player("Last", "u5", 90, 1200),
    ];
    let sorted = rank_players(players);
    let names: Vec<&str> = sorted.iter().map(|p| p.aoe4_name.as_str()).collect();
    assert_eq!(names, vec!["First", "TiedOne", "TiedTwo", "Late", "Last"]);
    let resorted = rank_players(sorted);
    let names2: Vec<&str> = resorted.iter().map(|p| p.aoe4_name.as_str()).collect();
    assert_eq!(names2, vec!["First", "TiedOne", "TiedTwo", "Late", "Last"]);
}

#[test]
fn chunking_23_players_gives_10_10_3() {
    let mut players = Vec::new();
    for i in 0..23 {
        players.push(player(&format!("P{}", i), &format!("u{}", i), i + 1, 1500));
    }
    let chunks = render_chunks(&players, NOW);
    assert_eq!(chunks.len(), 3);
    let counts: Vec<usize> = chunks.iter().map(|c| c.matches("遊戲ID:").count()).collect();
    assert_eq!(counts, vec![10, 10, 3]);
    assert!(chunks[0].starts_with("第1名  "));
    assert!(chunks[1].starts_with("第11名  "));
    assert!(chunks[2].starts_with("第21名  "));
    let mut expected_last = String::new();
    for (offset, p) in players[20..23].iter().enumerate() {
        expected_last.push_str(&format!("第{}名  {}\n　\n", 21 + offset, p.display_text(NOW)));
    }
    assert_eq!(chunks[2], expected_last);
}

#[test]
fn chunking_exact_multiple_has_no_partial_chunk() {
    let mut players = Vec::new();
    for i in 0..20 {
        players.push(player(&format!("P{}", i), &format!("u{}", i), i + 1, 1500));
    }
    let chunks = render_chunks(&players, NOW);
    assert_eq!(chunks.len(), 2);
    let chunks_empty = render_chunks(&Vec::new(), NOW);
    assert!(chunks_empty.is_empty());
}

#[test]
fn synchronize_twice_is_byte_identical() {
    let players = vec![
        player("A", "alice", 5, 1700),
        player("B", "bob", 9, 1600),
        player("C", "carol", 2, 1800),
    ];
    let (_, chunks) = build_rankings(players, NOW);
    let mut channel = ChannelState { messages: vec!["stale one".to_string(), "stale two".to_string()] };
    channel.apply_sync(chunks.clone());
    let after_first = channel.messages.clone();
    channel.apply_sync(chunks.clone());
    assert_eq!(channel.messages, after_first);
    assert_eq!(channel.messages, chunks);
}

#[test]
fn build_rankings_merges_then_orders() {
    let players = vec![
        player("AliceMain", "alice", 20, 1700),
        player("Bob", "bob", 4, 1500),
        player("AliceAlt", "alice", 2, 1400),
    ];
    let (rows, chunks) = build_rankings(players, NOW);
    assert_eq!(rows.len(), 2);
    assert_eq!(rows[0].aoe4_name, "Bob");
    assert_eq!(rows[1].aoe4_name, "AliceMain");
    assert_eq!(rows[1].alts.len(), 1);
    assert_eq!(rows[1].alts[0].aoe4_name, "AliceAlt");
    assert_eq!(chunks.len(), 1);
    assert!(chunks[0].starts_with("第1名  "));
}

#[test]
fn missing_ranked_solo_yields_no_player() {
    let profile = profile_with(None, Some(RankedEloData { rating: 1000 }));
    assert!(build_player(profile, 77, identity()).is_none());
}

#[test]
fn missing_elo_yields_no_player() {
    let profile = profile_with(Some(solo_section()), None);
    assert!(build_player(profile, 77, identity()).is_none());
}

#[test]
fn missing_data_binding_contributes_nothing() {
    let mut population = Vec::new();
    let dropped = build_player(profile_with(None, None), 1, identity());
    if let Some(p) = dropped {
        population.push(p);
    }
    let kept = build_player(profile_with(Some(solo_section()), Some(RankedEloData { rating: 900 })), 2, identity());
    if let Some(p) = kept {
        population.push(p);
    }
    let rows = merge_players(population);
    assert_eq!(rows.len(), 1);
    assert_eq!(rows[0].aoe4_id, 2);
}

#[test]
fn built_player_carries_profile_fields() {
    let profile = profile_with(Some(solo_section()), Some(RankedEloData { rating: 912 }));
    let p = build_player(profile, 55, identity()).unwrap();
    assert_eq!(p.aoe4_name, "Someone");
    assert_eq!(p.aoe4_id, 55);
    assert_eq!(p.discord_username, "someone");
    assert_eq!(p.rank_level, "diamond_1");
    assert_eq!(p.global_rank, 7);
    assert_eq!(p.rating, 1500);
    assert_eq!(p.recent_max_rating, 1550);
    assert_eq!(p.elo, 912);
    assert_eq!(p.favorite_civ.civilization, "french");
    assert_eq!(p.favorite_civ.pick_rate, 40);
    assert_eq!(p.games_played, 321);
    assert_eq!(p.win_rate, 55);
    assert_eq!(p.last_played, NOW - 86400);
    assert!(p.alts.is_empty());
}

#[test]
fn empty_civilizations_fall_back_to_unknown() {
    let mut solo = solo_section();
    solo.civilizations = Vec::new();
    let profile = profile_with(Some(solo), Some(RankedEloData { rating: 900 }));
    let p = build_player(profile, 55, identity()).unwrap();
    assert_eq!(p.favorite_civ.civilization, "未知");
    assert_eq!(p.favorite_civ.pick_rate, 0);
    let text = p.display_text(NOW);
    assert!(text.contains("愛用文明: 未知 ,出場率 0%"));
}
