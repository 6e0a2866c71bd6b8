use aoe4_ladder::profile::{LeaderBoards, SearchedPlayer, SearchedRankedData};
use aoe4_ladder::search::autocomplete_choices;

fn ranked_hit(name: &str, profile_id: i32, rank_level: &str, rating: Option<i32>) -> SearchedPlayer {
    SearchedPlayer {
        name: name.to_string(),
        profile_id,
        leaderboards: LeaderBoards {
            rm_solo: Some(SearchedRankedData { rank_level: rank_level.to_string(), rating }),
        },
    }
}

fn unranked_hit(name: &str, profile_id: i32) -> SearchedPlayer {
    SearchedPlayer {
        name: name.to_string(),
        profile_id,
        leaderboards: LeaderBoards { rm_solo: None },
    }
}

#[test]
fn summary_rating_defaults_to_zero() {
    let with = SearchedRankedData { rank_level: "gold_1".to_string(), rating: Some(1234) };
    assert_eq!(with.rating(), 1234);
    let without = SearchedRankedData { rank_level: "gold_1".to_string(), rating: None };
    assert_eq!(without.rating(), 0);
    assert_eq!(unranked_hit("X", 1).rating(), 0);
    assert_eq!(ranked_hit("Y", 2, "gold_1", Some(900)).rating(), 900);
}

#[test]
fn summary_rank_level_localizes() {
    let d = SearchedRankedData { rank_level: "platinum_3".to_string(), rating: Some(1) };
    assert_eq!(d.rank_level(), "白金3");
    let raw = SearchedRankedData { rank_level: "odd_key".to_string(), rating: Some(1) };
    assert_eq!(raw.rank_level(), "odd key");
}

#[test]
fn autocomplete_orders_and_labels() {
    let players = vec![
        ranked_hit("Mid", 10, "gold_1", Some(1200)),
        unranked_hit("Nobody", 11),
        ranked_hit("Top", 12, "conqueror_1", Some(1800)),
        ranked_hit("Low", 13, "silver_2", Some(700)),
    ];
    let choices = autocomplete_choices(players);
    assert_eq!(choices.len(), 3);
    assert_eq!(choices[0].label, "Top - 階級: 征服者1, 積分: 1800");
    assert_eq!(choices[0].profile_id, 12);
    assert_eq!(choices[1].label, "Mid - 階級: 黃金1, 積分: 1200");
    assert_eq!(choices[1].profile_id, 10);
    assert_eq!(choices[2].label, "Low - 階級: 白銀2, 積分: 700");
    assert_eq!(choices[2].profile_id, 13);
}

#[test]
fn autocomplete_caps_at_ten() {
    let mut players = Vec::new();
    for i in 0..12 {
        players.push(ranked_hit(&format!("P{}", i), i, "gold_1", Some(1000 + i)));
    }
    let choices = autocomplete_choices(players);
    assert_eq!(choices.len(), 10);
    assert_eq!(choices[0].label, "P11 - 階級: 黃金1, 積分: 1011");
    assert_eq!(choices[9].label, "P2 - 階級: 黃金1, 積分: 1002");
}

#[test]
fn autocomplete_ties_keep_input_order() {
    let players = vec![
        ranked_hit("First", 1, "gold_1", Some(1500)),
        ranked_hit("Second", 2, "gold_1", Some(1500)),
        ranked_hit("Third", 3, "gold_1", Some(1500)),
    ];
    let choices = autocomplete_choices(players);
    let names: Vec<&str> = choices.iter().map(|c| c.label.split(' ').next().unwrap()).collect();
    assert_eq!(names, vec!["First", "Second", "Third"]);
}

#[test]
fn autocomplete_missing_rating_counts_as_zero() {
    let players = vec![
        ranked_hit("NoScore", 5, "bronze_1", None),
        ranked_hit("Scored", 6, "gold_3", Some(100)),
    ];
    let choices = autocomplete_choices(players);
    assert_eq!(choices.len(), 2);
    assert_eq!(choices[0].label, "Scored - 階級: 黃金3, 積分: 100");
    assert_eq!(choices[1].label, "NoScore - 階級: 青銅1, 積分: 0");
}
