use dodgetracker::config::Region;
use dodgetracker::entities::{LadderEntry, PlayerRow, DemotionRow, RankTier};
use dodgetracker::promotions_demotions::{
    find_demotions, find_promotions, group_demotions, has_demoted, has_promoted,
};

fn row(id: &str, lp: i32, wins: i32, losses: i32, updated_at_ms: i64) -> PlayerRow {
    PlayerRow {
        summoner_id: id.to_string(),
        region: "EUW1".to_string(),
        rank_tier: RankTier::Master,
        current_lp: lp,
        wins,
        losses,
        updated_at_ms,
    }
}

fn entry(id: &str, lp: i32, wins: i32, losses: i32) -> (LadderEntry, RankTier) {
    (
        LadderEntry {
            summoner_id: id.to_string(),
            league_points: lp,
            wins,
            losses,
        },
        RankTier::Master,
    )
}

fn demotion_row(id: &str, at: i64) -> DemotionRow {
    DemotionRow {
        summoner_id: id.to_string(),
        created_at_ms: at,
    }
}

#[test]
fn promotion_on_first_sight() {
    let db: Vec<PlayerRow> = vec![];
    let api = vec![entry("playerB", 500, 20, 10)];
    let groups = group_demotions(&vec![]);

    let promotions = find_promotions(&api, &db, &groups, Region::Euw1);
    assert_eq!(promotions.len(), 1);
    assert_eq!(promotions[0].summoner_id, "playerB");
    assert_eq!(promotions[0].region, "EUW1");
    assert_eq!(promotions[0].at_wins, 20);
    assert_eq!(promotions[0].at_losses, 10);
}

#[test]
fn tracked_player_is_not_repromoted() {
    let db = vec![row("playerA", 100, 10, 5, 1000)];
    let api = vec![entry("playerA", 120, 11, 5)];
    let groups = group_demotions(&vec![]);

    let promotions = find_promotions(&api, &db, &groups, Region::Euw1);
    assert_eq!(promotions.len(), 0);
}

#[test]
fn returning_after_demotion_is_promoted_again() {
    let db = vec![row("playerA", 100, 10, 5, 1000)];
    let api = vec![entry("playerA", 120, 11, 5)];
    // Demoted after the stored row was written: a fresh tenure.
    let groups = group_demotions(&vec![demotion_row("playerA", 2000)]);

    let promotions = find_promotions(&api, &db, &groups, Region::Euw1);
    assert_eq!(promotions.len(), 1);
    assert_eq!(promotions[0].summoner_id, "playerA");
}

#[test]
fn stale_demotion_does_not_repromote() {
    // The demotion predates the stored row: it belongs to an older tenure.
    let db = vec![row("playerA", 100, 10, 5, 3000)];
    let api = vec![entry("playerA", 120, 11, 5)];
    let groups = group_demotions(&vec![demotion_row("playerA", 2000)]);

    let promotions = find_promotions(&api, &db, &groups, Region::Euw1);
    assert_eq!(promotions.len(), 0);
}

#[test]
fn first_absence_is_demoted_once() {
    let db = vec![row("playerC", 100, 10, 5, 1000)];
    let api: Vec<(LadderEntry, RankTier)> = vec![];
    let groups = group_demotions(&vec![]);

    let demotions = find_demotions(&api, &db, &groups, Region::Euw1);
    assert_eq!(demotions.len(), 1);
    assert_eq!(demotions[0].summoner_id, "playerC");
    assert_eq!(demotions[0].at_wins, 10);
    assert_eq!(demotions[0].at_losses, 5);
}

#[test]
fn recorded_demotion_is_not_reflagged() {
    let db = vec![row("playerC", 100, 10, 5, 1000)];
    let api: Vec<(LadderEntry, RankTier)> = vec![];
    // A demotion recorded after the row was written covers this tenure.
    let groups = group_demotions(&vec![demotion_row("playerC", 2000)]);

    let demotions = find_demotions(&api, &db, &groups, Region::Euw1);
    assert_eq!(demotions.len(), 0);
}

#[test]
fn present_player_is_never_demoted() {
    let db = vec![row("playerC", 100, 10, 5, 1000)];
    let api = vec![entry("playerC", 100, 10, 5)];
    let groups = group_demotions(&vec![]);

    let demotions = find_demotions(&api, &db, &groups, Region::Euw1);
    assert_eq!(demotions.len(), 0);
}

#[test]
fn grouping_collects_times_per_player() {
    let rows = vec![
        demotion_row("a", 1),
        demotion_row("b", 2),
        demotion_row("a", 3),
    ];
    let groups = group_demotions(&rows);
    assert_eq!(groups.len(), 2);
    assert_eq!(groups[0].summoner_id, "a");
    assert_eq!(groups[0].times, vec![1, 3]);
    assert_eq!(groups[1].summoner_id, "b");
    assert_eq!(groups[1].times, vec![2]);
}

#[test]
fn has_promoted_and_has_demoted_agree_with_history() {
    let db = vec![row("a", 100, 10, 5, 1000)];
    let groups = group_demotions(&vec![demotion_row("a", 1500)]);
    assert!(has_promoted(&"a".to_string(), &db, &groups));
    assert!(has_promoted(&"unknown".to_string(), &db, &groups));
    assert!(!has_demoted(&db[0], &groups));

    let stale = group_demotions(&vec![demotion_row("a", 500)]);
    assert!(!has_promoted(&"a".to_string(), &db, &stale));
    assert!(has_demoted(&db[0], &stale));
}
