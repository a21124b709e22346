use dodgetracker::dodges::{dodged_ids, find_dodges};
use dodgetracker::entities::{LadderEntry, PlayerRow, RankTier};

fn db_player(id: &str, lp: i32, wins: i32, losses: i32) -> PlayerRow {
    PlayerRow {
        summoner_id: id.to_string(),
        region: "EUW1".to_string(),
        rank_tier: RankTier::Challenger,
        current_lp: lp,
        wins,
        losses,
        updated_at_ms: 0,
    }
}

fn api_entry(id: &str, lp: i32, wins: i32, losses: i32) -> (LadderEntry, RankTier) {
    (
        LadderEntry {
            summoner_id: id.to_string(),
            league_points: lp,
            wins,
            losses,
        },
        RankTier::Challenger,
    )
}

#[test]
fn can_find_dodge() {
    let summoner_id_a = "summoner1".to_string();
    let db_players = vec![db_player("summoner1", 100, 10, 5)];
    let api_players = vec![api_entry("summoner1", 95, 10, 5)];

    let dodges = find_dodges(&db_players, &api_players);
    assert_eq!(dodges.len(), 1);
    let dodge = &dodges[0];
    assert_eq!(dodge.summoner_id, summoner_id_a);
}

#[test]
fn discards_decay() {
    let db_players = vec![db_player("summoner1", 200, 10, 5)];
    let api_players = vec![api_entry("summoner1", 50, 10, 5)];

    let dodges = find_dodges(&db_players, &api_players);
    assert_eq!(dodges.len(), 0);
}

#[test]
fn higher_lp() {
    let db_players = vec![db_player("summoner1", 100, 10, 5)];
    let api_players = vec![api_entry("summoner1", 105, 10, 5)];

    let dodges = find_dodges(&db_players, &api_players);
    assert_eq!(dodges.len(), 0);
}

#[test]
fn handles_different_games_played() {
    let db_players = vec![db_player("summoner1", 100, 10, 5)];
    let api_players = vec![api_entry("summoner1", 95, 11, 5)];

    let dodges = find_dodges(&db_players, &api_players);
    assert_eq!(dodges.len(), 0);
}

#[test]
fn detects_15_lp_loss_dodges() {
    let summoner_id_a = "summoner1".to_string();
    let db_players = vec![db_player("summoner1", 100, 10, 5)];
    let api_players = vec![api_entry("summoner1", 85, 10, 5)];

    let dodges = find_dodges(&db_players, &api_players);
    assert_eq!(dodges.len(), 1);
    let dodge = &dodges[0];
    assert_eq!(dodge.summoner_id, summoner_id_a);
}

#[test]
fn detects_1_lp_loss_dodges() {
    let summoner_id_a = "summoner1".to_string();
    let db_players = vec![db_player("summoner1", 1, 10, 5)];
    let api_players = vec![api_entry("summoner1", 0, 10, 5)];

    let dodges = find_dodges(&db_players, &api_players);
    assert_eq!(dodges.len(), 1);
    let dodge = &dodges[0];
    assert_eq!(dodge.summoner_id, summoner_id_a);
}

#[test]
fn dodge_record_captures_before_and_after() {
    let db_players = vec![db_player("summoner1", 100, 10, 5)];
    let api_players = vec![api_entry("summoner1", 95, 10, 5)];

    let dodges = find_dodges(&db_players, &api_players);
    assert_eq!(dodges.len(), 1);
    let dodge = &dodges[0];
    assert_eq!(dodge.lp_before, 100);
    assert_eq!(dodge.lp_after, 95);
    assert_eq!(dodge.at_wins, 10);
    assert_eq!(dodge.at_losses, 5);
    assert_eq!(dodge.region, "EUW1");
    assert!(matches!(dodge.rank_tier, RankTier::Challenger));
}

#[test]
fn sixteen_lp_loss_is_decay_not_dodge() {
    let db_players = vec![db_player("summoner1", 100, 10, 5)];
    let api_players = vec![api_entry("summoner1", 84, 10, 5)];

    let dodges = find_dodges(&db_players, &api_players);
    assert_eq!(dodges.len(), 0);
}

#[test]
fn unknown_player_is_no_dodge() {
    let db_players = vec![db_player("summoner1", 100, 10, 5)];
    let api_players = vec![api_entry("summoner2", 95, 10, 5)];

    let dodges = find_dodges(&db_players, &api_players);
    assert_eq!(dodges.len(), 0);
}

#[test]
fn extreme_values_do_not_trip_the_detector() {
    // A gain from the bottom of the range is no dodge, however large.
    let db_players = vec![db_player("summoner1", i32::MIN, i32::MAX, i32::MAX)];
    let api_players = vec![api_entry("summoner1", i32::MAX, i32::MAX, i32::MAX)];
    assert_eq!(find_dodges(&db_players, &api_players).len(), 0);

    // A loss within the ceiling at the top of the range still is one.
    let db_players = vec![db_player("summoner1", i32::MAX, i32::MAX, i32::MAX)];
    let api_players = vec![api_entry("summoner1", i32::MAX - 15, i32::MAX, i32::MAX)];
    assert_eq!(find_dodges(&db_players, &api_players).len(), 1);
}

#[test]
fn dodged_ids_lists_each_dodge() {
    let db_players = vec![
        db_player("summoner1", 100, 10, 5),
        db_player("summoner2", 50, 3, 4),
    ];
    let api_players = vec![
        api_entry("summoner1", 95, 10, 5),
        api_entry("summoner2", 45, 3, 4),
    ];

    let dodges = find_dodges(&db_players, &api_players);
    let ids = dodged_ids(&dodges);
    assert_eq!(ids, vec!["summoner1".to_string(), "summoner2".to_string()]);
}
