//! The rows the tracker reads and writes, as plain values, together with
//! their mathematical views.
//!
//! Every exec type here has a ghost counterpart (`...V`) in which identities
//! are character sequences and numbers are unbounded integers; contracts
//! throughout the crate speak of those views.

use vstd::prelude::*;

verus! {

/// One of the three tracked apex tiers, ordered from lowest to highest.
#[derive(Clone, Copy, Debug, PartialEq, Eq, Structural)]
pub enum RankTier {
    Master,
    Grandmaster,
    Challenger,
}

impl View for RankTier {
    type V = RankTier;

    open spec fn view(&self) -> RankTier {
        *self
    }
}

impl DeepView for RankTier {
    type V = RankTier;

    open spec fn deep_view(&self) -> RankTier {
        *self
    }
}

/// A value that can be copied so that the copy's view equals the
/// original's.  The record types here hold `String`s, so a plain derived
/// clone would say nothing about the copy; this says exactly what a copy
/// is.
pub trait Duplicable: DeepView + Sized {
    /// A fresh copy whose view equals this value's.
    fn duplicate(&self) -> (r: Self)
        ensures
            r.deep_view() == self.deep_view(),
    ;
}

/// One leaderboard entry as the provider reports it, before the merge tags
/// it with the tier it came from.
pub struct LadderEntry {
    pub summoner_id: String,
    pub league_points: i32,
    pub wins: i32,
    pub losses: i32,
}

/// Ghost view of [`LadderEntry`].
pub struct LadderEntryV {
    pub summoner_id: Seq<char>,
    pub league_points: int,
    pub wins: int,
    pub losses: int,
}

impl View for LadderEntry {
    type V = LadderEntryV;

    open spec fn view(&self) -> LadderEntryV {
        LadderEntryV {
            summoner_id: self.summoner_id@,
            league_points: self.league_points as int,
            wins: self.wins as int,
            losses: self.losses as int,
        }
    }
}

impl DeepView for LadderEntry {
    type V = LadderEntryV;

    open spec fn deep_view(&self) -> LadderEntryV {
        self.view()
    }
}

impl Duplicable for LadderEntry {
    fn duplicate(&self) -> (r: LadderEntry) {
        LadderEntry {
            summoner_id: self.summoner_id.clone(),
            league_points: self.league_points,
            wins: self.wins,
            losses: self.losses,
        }
    }
}

/// One stored snapshot row: the last state seen for a player in a region.
/// The store holds at most one row per (player identity, region).
pub struct PlayerRow {
    pub summoner_id: String,
    pub region: String,
    pub rank_tier: RankTier,
    pub current_lp: i32,
    pub wins: i32,
    pub losses: i32,
    /// When this row was last written, in milliseconds.
    pub updated_at_ms: i64,
}

/// Ghost view of [`PlayerRow`].
pub struct PlayerRowV {
    pub summoner_id: Seq<char>,
    pub region: Seq<char>,
    pub rank_tier: RankTier,
    pub current_lp: int,
    pub wins: int,
    pub losses: int,
    pub updated_at_ms: int,
}

impl View for PlayerRow {
    type V = PlayerRowV;

    open spec fn view(&self) -> PlayerRowV {
        PlayerRowV {
            summoner_id: self.summoner_id@,
            region: self.region@,
            rank_tier: self.rank_tier,
            current_lp: self.current_lp as int,
            wins: self.wins as int,
            losses: self.losses as int,
            updated_at_ms: self.updated_at_ms as int,
        }
    }
}

impl DeepView for PlayerRow {
    type V = PlayerRowV;

    open spec fn deep_view(&self) -> PlayerRowV {
        self.view()
    }
}

impl Duplicable for PlayerRow {
    fn duplicate(&self) -> (r: PlayerRow) {
        PlayerRow {
            summoner_id: self.summoner_id.clone(),
            region: self.region.clone(),
            rank_tier: self.rank_tier,
            current_lp: self.current_lp,
            wins: self.wins,
            losses: self.losses,
            updated_at_ms: self.updated_at_ms,
        }
    }
}

/// An immutable dodge log row: a rank-point loss without a recorded game.
pub struct DodgeRecord {
    pub summoner_id: String,
    pub region: String,
    pub lp_before: i32,
    pub lp_after: i32,
    pub rank_tier: RankTier,
    pub at_wins: i32,
    pub at_losses: i32,
}

/// Ghost view of [`DodgeRecord`].
pub struct DodgeRecordV {
    pub summoner_id: Seq<char>,
    pub region: Seq<char>,
    pub lp_before: int,
    pub lp_after: int,
    pub rank_tier: RankTier,
    pub at_wins: int,
    pub at_losses: int,
}

impl View for DodgeRecord {
    type V = DodgeRecordV;

    open spec fn view(&self) -> DodgeRecordV {
        DodgeRecordV {
            summoner_id: self.summoner_id@,
            region: self.region@,
            lp_before: self.lp_before as int,
            lp_after: self.lp_after as int,
            rank_tier: self.rank_tier,
            at_wins: self.at_wins as int,
            at_losses: self.at_losses as int,
        }
    }
}

impl DeepView for DodgeRecord {
    type V = DodgeRecordV;

    open spec fn deep_view(&self) -> DodgeRecordV {
        self.view()
    }
}

/// An immutable promotion log row: a player newly entering the tracked tiers.
pub struct PromotionRecord {
    pub summoner_id: String,
    pub region: String,
    pub at_wins: i32,
    pub at_losses: i32,
}

/// Ghost view of [`PromotionRecord`].
pub struct PromotionRecordV {
    pub summoner_id: Seq<char>,
    pub region: Seq<char>,
    pub at_wins: int,
    pub at_losses: int,
}

impl View for PromotionRecord {
    type V = PromotionRecordV;

    open spec fn view(&self) -> PromotionRecordV {
        PromotionRecordV {
            summoner_id: self.summoner_id@,
            region: self.region@,
            at_wins: self.at_wins as int,
            at_losses: self.at_losses as int,
        }
    }
}

impl DeepView for PromotionRecord {
    type V = PromotionRecordV;

    open spec fn deep_view(&self) -> PromotionRecordV {
        self.view()
    }
}

/// An immutable demotion log row: a player dropping out of all tracked tiers.
pub struct DemotionRecord {
    pub summoner_id: String,
    pub region: String,
    pub at_wins: i32,
    pub at_losses: i32,
}

/// Ghost view of [`DemotionRecord`].
pub struct DemotionRecordV {
    pub summoner_id: Seq<char>,
    pub region: Seq<char>,
    pub at_wins: int,
    pub at_losses: int,
}

impl View for DemotionRecord {
    type V = DemotionRecordV;

    open spec fn view(&self) -> DemotionRecordV {
        DemotionRecordV {
            summoner_id: self.summoner_id@,
            region: self.region@,
            at_wins: self.at_wins as int,
            at_losses: self.at_losses as int,
        }
    }
}

impl DeepView for DemotionRecord {
    type V = DemotionRecordV;

    open spec fn deep_view(&self) -> DemotionRecordV {
        self.view()
    }
}

/// What a stored demotion row gives back to the diff: who was demoted and
/// when the row was created.  The next cycles read these to avoid flagging
/// the same demotion twice.
pub struct DemotionRow {
    pub summoner_id: String,
    pub created_at_ms: i64,
}

/// Ghost view of [`DemotionRow`].
pub struct DemotionRowV {
    pub summoner_id: Seq<char>,
    pub created_at_ms: int,
}

impl View for DemotionRow {
    type V = DemotionRowV;

    open spec fn view(&self) -> DemotionRowV {
        DemotionRowV { summoner_id: self.summoner_id@, created_at_ms: self.created_at_ms as int }
    }
}

impl DeepView for DemotionRow {
    type V = DemotionRowV;

    open spec fn deep_view(&self) -> DemotionRowV {
        self.view()
    }
}

/// One tier-population observation: how many players a tier held in a
/// region at one point in time.  Append-only.
pub struct PopulationRow {
    pub region: String,
    pub rank_tier: RankTier,
    pub player_count: usize,
    pub at_time_ms: i64,
}

/// Ghost view of [`PopulationRow`].
pub struct PopulationRowV {
    pub region: Seq<char>,
    pub rank_tier: RankTier,
    pub player_count: int,
    pub at_time_ms: int,
}

impl View for PopulationRow {
    type V = PopulationRowV;

    open spec fn view(&self) -> PopulationRowV {
        PopulationRowV {
            region: self.region@,
            rank_tier: self.rank_tier,
            player_count: self.player_count as int,
            at_time_ms: self.at_time_ms as int,
        }
    }
}

impl DeepView for PopulationRow {
    type V = PopulationRowV;

    open spec fn deep_view(&self) -> PopulationRowV {
        self.view()
    }
}

/// The sizes of the three raw tier result sets of one fetch, used for the
/// population counters.
#[derive(Clone, Copy, Debug, PartialEq, Eq, Structural)]
pub struct TierCounts {
    pub master: usize,
    pub grandmaster: usize,
    pub challenger: usize,
}

impl Duplicable for DodgeRecord {
    fn duplicate(&self) -> (r: DodgeRecord) {
        DodgeRecord {
            summoner_id: self.summoner_id.clone(),
            region: self.region.clone(),
            lp_before: self.lp_before,
            lp_after: self.lp_after,
            rank_tier: self.rank_tier,
            at_wins: self.at_wins,
            at_losses: self.at_losses,
        }
    }
}

impl Duplicable for PromotionRecord {
    fn duplicate(&self) -> (r: PromotionRecord) {
        PromotionRecord {
            summoner_id: self.summoner_id.clone(),
            region: self.region.clone(),
            at_wins: self.at_wins,
            at_losses: self.at_losses,
        }
    }
}

impl Duplicable for DemotionRecord {
    fn duplicate(&self) -> (r: DemotionRecord) {
        DemotionRecord {
            summoner_id: self.summoner_id.clone(),
            region: self.region.clone(),
            at_wins: self.at_wins,
            at_losses: self.at_losses,
        }
    }
}

impl Duplicable for DemotionRow {
    fn duplicate(&self) -> (r: DemotionRow) {
        DemotionRow {
            summoner_id: self.summoner_id.clone(),
            created_at_ms: self.created_at_ms,
        }
    }
}

impl Duplicable for PopulationRow {
    fn duplicate(&self) -> (r: PopulationRow) {
        PopulationRow {
            region: self.region.clone(),
            rank_tier: self.rank_tier,
            player_count: self.player_count,
            at_time_ms: self.at_time_ms,
        }
    }
}

/// Appends a copy of every element of `src` to `dst`.
#[verifier::loop_isolation(false)]
pub fn append_all<T: Duplicable>(dst: &mut Vec<T>, src: &Vec<T>)
    ensures
        final(dst).deep_view() == old(dst).deep_view() + src.deep_view(),
{
    let ghost base = old(dst).deep_view();
    let ghost sv = src.deep_view();
    let n = src.len();
    let mut i: usize = 0;
    while i < n
        invariant
            i <= n,
            dst.deep_view() =~= base + sv.take(i as int),
        decreases n - i,
    {
        let ghost pre = dst.deep_view();
        dst.push(src[i].duplicate());
        proof {
            assert(dst.deep_view() =~= pre.push(sv[i as int]));
            assert(base + sv.take(i + 1 as int) =~= (base + sv.take(i as int)).push(
                sv[i as int],
            ));
        }
        i += 1;
    }
    proof {
        assert(sv.take(n as int) =~= sv);
    }
}

} // verus!
