use dodgetracker::batching::chunked;
use dodgetracker::entities::{DemotionRow, PopulationRow, RankTier, TierCounts};
use dodgetracker::lolpros::{first_slug, lolpros_query_url};
use dodgetracker::player_counts::{counts_due, latest_count_time, population_rows};
use dodgetracker::config::Region;
use dodgetracker::riot_ids::{identity_of, slug_updates, RiotIdentity};

#[test]
fn query_url_percent_encodes_name_and_tag() {
    let url = lolpros_query_url(&"a b".to_string(), &"c#1".to_string());
    assert_eq!(
        url,
        "https://api.lolpros.gg/es/search?query=a%20b%23c%231"
    );
}

#[test]
fn query_url_keeps_safe_characters() {
    let url = lolpros_query_url(&"Player".to_string(), &"EUW".to_string());
    assert_eq!(url, "https://api.lolpros.gg/es/search?query=Player%23EUW");
}

#[test]
fn first_slug_picks_the_first_profile() {
    assert_eq!(first_slug(&vec![]), None);
    assert_eq!(
        first_slug(&vec!["alpha".to_string(), "beta".to_string()]),
        Some("alpha".to_string())
    );
}

#[test]
fn identity_needs_both_name_parts() {
    let kept = identity_of(
        "puuid-1".to_string(),
        Some("Name".to_string()),
        Some("TAG".to_string()),
    );
    let kept = kept.unwrap();
    assert_eq!(kept.puuid, "puuid-1");
    assert_eq!(kept.game_name, "Name");
    assert_eq!(kept.tag_line, "TAG");

    assert!(identity_of("p".to_string(), None, Some("TAG".to_string())).is_none());
    assert!(identity_of("p".to_string(), Some("Name".to_string()), None).is_none());
}

#[test]
fn slug_updates_keep_only_resolved_accounts() {
    let accounts = vec![
        RiotIdentity {
            puuid: "p1".to_string(),
            game_name: "a".to_string(),
            tag_line: "1".to_string(),
        },
        RiotIdentity {
            puuid: "p2".to_string(),
            game_name: "b".to_string(),
            tag_line: "2".to_string(),
        },
    ];
    let slugs = vec![Some("slug-a".to_string()), None];
    let updates = slug_updates(&accounts, &slugs);
    assert_eq!(updates.len(), 1);
    assert_eq!(updates[0].puuid, "p1");
    assert_eq!(updates[0].slug, "slug-a");
}

#[test]
fn chunking_splits_and_restores() {
    let rows: Vec<DemotionRow> = (0..5)
        .map(|i| DemotionRow {
            summoner_id: format!("s{}", i),
            created_at_ms: i,
        })
        .collect();
    let batches = chunked(&rows, 2);
    assert_eq!(batches.len(), 3);
    assert_eq!(batches[0].len(), 2);
    assert_eq!(batches[1].len(), 2);
    assert_eq!(batches[2].len(), 1);
    let flat: Vec<&DemotionRow> = batches.iter().flatten().collect();
    assert_eq!(flat.len(), 5);
    for (i, r) in flat.iter().enumerate() {
        assert_eq!(r.summoner_id, format!("s{}", i));
    }
}

#[test]
fn empty_input_yields_no_batch() {
    let rows: Vec<DemotionRow> = vec![];
    let batches = chunked(&rows, 2000);
    assert_eq!(batches.len(), 0);
}

#[test]
fn staleness_window_gates_count_writes() {
    assert!(counts_due(5_000_000, None));
    assert!(!counts_due(5_000_000, Some(5_000_000 - 3_599_999)));
    assert!(counts_due(5_000_000, Some(5_000_000 - 3_600_000)));
}

#[test]
fn latest_count_time_reads_the_last_row() {
    let empty: Vec<PopulationRow> = vec![];
    assert_eq!(latest_count_time(&empty), None);
    let rows = population_rows(
        TierCounts {
            master: 1,
            grandmaster: 2,
            challenger: 3,
        },
        Region::Oc1,
        42,
    );
    assert_eq!(latest_count_time(&rows), Some(42));
}

#[test]
fn population_rows_cover_all_three_tiers() {
    let rows = population_rows(
        TierCounts {
            master: 700,
            grandmaster: 500,
            challenger: 300,
        },
        Region::Na1,
        9000,
    );
    assert_eq!(rows.len(), 3);
    assert!(rows[0].rank_tier == RankTier::Master);
    assert_eq!(rows[0].player_count, 700);
    assert!(rows[1].rank_tier == RankTier::Grandmaster);
    assert_eq!(rows[1].player_count, 500);
    assert!(rows[2].rank_tier == RankTier::Challenger);
    assert_eq!(rows[2].player_count, 300);
    assert!(rows.iter().all(|r| r.region == "NA1" && r.at_time_ms == 9000));
}
