use dodgetracker::apex_tier_players::{apply_upsert, merge_tiers, snapshot_rows};
use dodgetracker::config::Region;
use dodgetracker::SyncError;
use dodgetracker::entities::{LadderEntry, PlayerRow, RankTier, TierCounts};
use dodgetracker::store::{finish_cycle, run_cycle, StoreState};

fn row(id: &str, lp: i32, wins: i32, losses: i32, updated_at_ms: i64) -> PlayerRow {
    PlayerRow {
        summoner_id: id.to_string(),
        region: "EUW1".to_string(),
        rank_tier: RankTier::Master,
        current_lp: lp,
        wins,
        losses,
        updated_at_ms,
    }
}

fn raw(id: &str, lp: i32, wins: i32, losses: i32) -> LadderEntry {
    LadderEntry {
        summoner_id: id.to_string(),
        league_points: lp,
        wins,
        losses,
    }
}

fn entry(id: &str, lp: i32, wins: i32, losses: i32, tier: RankTier) -> (LadderEntry, RankTier) {
    (raw(id, lp, wins, losses), tier)
}

fn assert_rows_equal(a: &[PlayerRow], b: &[PlayerRow]) {
    assert_eq!(a.len(), b.len());
    for (x, y) in a.iter().zip(b.iter()) {
        assert_eq!(x.summoner_id, y.summoner_id);
        assert_eq!(x.region, y.region);
        assert!(x.rank_tier == y.rank_tier);
        assert_eq!(x.current_lp, y.current_lp);
        assert_eq!(x.wins, y.wins);
        assert_eq!(x.losses, y.losses);
        assert_eq!(x.updated_at_ms, y.updated_at_ms);
    }
}

#[test]
fn merge_tags_each_tier_and_counts_sizes() {
    let master = vec![raw("m1", 10, 1, 1), raw("m2", 20, 2, 2)];
    let grandmaster = vec![raw("g1", 30, 3, 3)];
    let challenger = vec![raw("c1", 40, 4, 4)];

    let (ladder, counts) = merge_tiers(&master, &grandmaster, &challenger).unwrap();
    assert_eq!(ladder.len(), 4);
    assert_eq!(ladder[0].0.summoner_id, "m1");
    assert!(ladder[0].1 == RankTier::Master);
    assert!(ladder[2].1 == RankTier::Grandmaster);
    assert!(ladder[3].1 == RankTier::Challenger);
    assert_eq!(
        counts,
        TierCounts {
            master: 2,
            grandmaster: 1,
            challenger: 1
        }
    );
}

#[test]
fn merge_refuses_player_in_two_tiers() {
    let master = vec![raw("dup", 10, 1, 1)];
    let grandmaster = vec![raw("dup", 30, 3, 3)];
    let challenger = vec![];

    let result = merge_tiers(&master, &grandmaster, &challenger);
    assert!(matches!(result, Err(SyncError::DataIntegrityAnomaly)));
}

#[test]
fn merge_refuses_duplicate_within_one_tier() {
    let master = vec![raw("dup", 10, 1, 1), raw("dup", 11, 1, 1)];
    let result = merge_tiers(&master, &vec![], &vec![]);
    assert!(matches!(result, Err(SyncError::DataIntegrityAnomaly)));
}

#[test]
fn upsert_overwrites_keeps_and_appends() {
    let db = vec![row("a", 100, 10, 5, 1000), row("b", 50, 3, 4, 1000)];
    let api = vec![
        entry("a", 95, 10, 5, RankTier::Challenger),
        entry("c", 70, 7, 7, RankTier::Master),
    ];
    let out = apply_upsert(&db, &api, Region::Euw1, 2000);
    assert_eq!(out.len(), 3);
    // "a" is overwritten with the fresh data and time.
    assert_eq!(out[0].summoner_id, "a");
    assert_eq!(out[0].current_lp, 95);
    assert!(out[0].rank_tier == RankTier::Challenger);
    assert_eq!(out[0].updated_at_ms, 2000);
    // "b" left the ladder but keeps its row untouched.
    assert_eq!(out[1].summoner_id, "b");
    assert_eq!(out[1].current_lp, 50);
    assert_eq!(out[1].updated_at_ms, 1000);
    // "c" is new and appended.
    assert_eq!(out[2].summoner_id, "c");
    assert_eq!(out[2].current_lp, 70);
    assert_eq!(out[2].updated_at_ms, 2000);
}

#[test]
fn upsert_twice_equals_upsert_once() {
    let db = vec![row("a", 100, 10, 5, 1000)];
    let api = vec![
        entry("a", 95, 10, 5, RankTier::Master),
        entry("c", 70, 7, 7, RankTier::Master),
    ];
    let once = apply_upsert(&db, &api, Region::Euw1, 2000);
    let twice = apply_upsert(&once, &api, Region::Euw1, 2000);
    assert_rows_equal(&once, &twice);
}

#[test]
fn snapshot_rows_carry_region_and_time() {
    let api = vec![entry("a", 95, 10, 5, RankTier::Grandmaster)];
    let rows = snapshot_rows(&api, Region::Kr, 777);
    assert_eq!(rows.len(), 1);
    assert_eq!(rows[0].summoner_id, "a");
    assert_eq!(rows[0].region, "KR");
    assert!(rows[0].rank_tier == RankTier::Grandmaster);
    assert_eq!(rows[0].updated_at_ms, 777);
}

#[test]
fn cycle_derives_dodge_and_updates_snapshot() {
    let mut store = StoreState::new();
    store.players = vec![row("a", 100, 10, 5, 1000)];
    let api = vec![entry("a", 95, 10, 5, RankTier::Master)];
    let counts = TierCounts {
        master: 1,
        grandmaster: 0,
        challenger: 0,
    };

    let (store, events) = run_cycle(store, &api, counts, Region::Euw1, 2000);
    assert_eq!(events.dodges.len(), 1);
    assert_eq!(events.dodges[0].lp_before, 100);
    assert_eq!(events.dodges[0].lp_after, 95);
    assert_eq!(events.promotions.len(), 0);
    assert_eq!(events.demotions.len(), 0);
    // Fresh store: the population write is due, one row per tier.
    assert_eq!(events.populations.len(), 3);
    assert_eq!(store.dodge_log.len(), 1);
    assert_eq!(store.players[0].current_lp, 95);
    assert_eq!(store.players[0].updated_at_ms, 2000);
}

#[test]
fn absent_player_demoted_once_across_cycles() {
    let mut store = StoreState::new();
    store.players = vec![row("c", 100, 10, 5, 1000)];
    let api: Vec<(LadderEntry, RankTier)> = vec![];
    let counts = TierCounts {
        master: 0,
        grandmaster: 0,
        challenger: 0,
    };

    let (store, events1) = run_cycle(store, &api, counts, Region::Euw1, 2000);
    assert_eq!(events1.demotions.len(), 1);
    assert_eq!(events1.demotions[0].summoner_id, "c");

    let (store, events2) = run_cycle(store, &api, counts, Region::Euw1, 3000);
    assert_eq!(events2.demotions.len(), 0);

    let (store, events3) = run_cycle(store, &api, counts, Region::Euw1, 4000);
    assert_eq!(events3.demotions.len(), 0);
    // Exactly one demotion row over all three cycles, and the snapshot
    // row is never deleted.
    assert_eq!(store.demotion_log.len(), 1);
    assert_eq!(store.players.len(), 1);
    assert_eq!(store.players[0].updated_at_ms, 1000);
}

#[test]
fn promoted_once_then_tracked() {
    let store = StoreState::new();
    let api = vec![entry("a", 500, 20, 10, RankTier::Challenger)];
    let counts = TierCounts {
        master: 0,
        grandmaster: 0,
        challenger: 1,
    };

    let (store, events1) = run_cycle(store, &api, counts, Region::Euw1, 1000);
    assert_eq!(events1.promotions.len(), 1);

    let (store, events2) = run_cycle(store, &api, counts, Region::Euw1, 2000);
    assert_eq!(events2.promotions.len(), 0);
    assert_eq!(store.promotion_log.len(), 1);
}

#[test]
fn demoted_then_returning_player_is_repromoted() {
    let mut store = StoreState::new();
    store.players = vec![row("a", 100, 10, 5, 1000)];
    let counts = TierCounts {
        master: 0,
        grandmaster: 0,
        challenger: 0,
    };

    let empty: Vec<(LadderEntry, RankTier)> = vec![];
    let (store, events1) = run_cycle(store, &empty, counts, Region::Euw1, 2000);
    assert_eq!(events1.demotions.len(), 1);

    let back = vec![entry("a", 20, 11, 5, RankTier::Master)];
    let (store, events2) = run_cycle(store, &back, counts, Region::Euw1, 3000);
    assert_eq!(events2.promotions.len(), 1);
    assert_eq!(store.promotion_log.len(), 1);
    assert_eq!(store.demotion_log.len(), 1);
}

#[test]
fn population_write_skipped_while_fresh() {
    let store = StoreState::new();
    let api: Vec<(LadderEntry, RankTier)> = vec![];
    let counts = TierCounts {
        master: 5,
        grandmaster: 6,
        challenger: 7,
    };

    let (store, events1) = run_cycle(store, &api, counts, Region::Euw1, 1_000_000);
    assert_eq!(events1.populations.len(), 3);

    // Half an hour later: still fresh, skipped.
    let (store, events2) = run_cycle(store, &api, counts, Region::Euw1, 2_800_000);
    assert_eq!(events2.populations.len(), 0);

    // A full hour after the first write: due again.
    let (store, events3) = run_cycle(store, &api, counts, Region::Euw1, 4_600_000);
    assert_eq!(events3.populations.len(), 3);
    assert_eq!(store.population_rows.len(), 6);
}

#[test]
fn rollback_leaves_store_untouched() {
    let mut store = StoreState::new();
    store.players = vec![row("a", 100, 10, 5, 1000)];
    let api = vec![entry("a", 95, 10, 5, RankTier::Master)];
    let counts = TierCounts {
        master: 1,
        grandmaster: 0,
        challenger: 0,
    };

    // The cycle would write a snapshot update, a dodge row and three
    // population rows — but it fails before the commit.
    let store = finish_cycle(store, &api, counts, Region::Euw1, 2000, false);
    assert_eq!(store.dodge_log.len(), 0);
    assert_eq!(store.population_rows.len(), 0);
    assert_eq!(store.players.len(), 1);
    assert_eq!(store.players[0].current_lp, 100);
    assert_eq!(store.players[0].updated_at_ms, 1000);

    // The retried cycle commits, and everything lands together.
    let store = finish_cycle(store, &api, counts, Region::Euw1, 3000, true);
    assert_eq!(store.dodge_log.len(), 1);
    assert_eq!(store.population_rows.len(), 3);
    assert_eq!(store.players[0].current_lp, 95);
    assert_eq!(store.players[0].updated_at_ms, 3000);
}
