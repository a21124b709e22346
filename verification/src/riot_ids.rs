//! Identity enrichment for dodge-implicated players: which looked-up
//! accounts are kept, and which slug updates the lookups produce.
//!
//! The lookups themselves are outside calls with soft failures; what is
//! decided here is pure: an account is kept only when both halves of its
//! display identity came back, and a slug update is written only for an
//! account whose resolution succeeded.

use vstd::prelude::*;

verus! {

/// A resolved player identity: the account id and both halves of the
/// display identity.
pub struct RiotIdentity {
    pub puuid: String,
    pub game_name: String,
    pub tag_line: String,
}

/// Ghost view of [`RiotIdentity`].
pub struct RiotIdentityV {
    pub puuid: Seq<char>,
    pub game_name: Seq<char>,
    pub tag_line: Seq<char>,
}

impl View for RiotIdentity {
    type V = RiotIdentityV;

    open spec fn view(&self) -> RiotIdentityV {
        RiotIdentityV {
            puuid: self.puuid@,
            game_name: self.game_name@,
            tag_line: self.tag_line@,
        }
    }
}

impl DeepView for RiotIdentity {
    type V = RiotIdentityV;

    open spec fn deep_view(&self) -> RiotIdentityV {
        self.view()
    }
}

/// One slug to be written onto an identity record.
pub struct SlugUpdate {
    pub puuid: String,
    pub slug: String,
}

/// Ghost view of [`SlugUpdate`].
pub struct SlugUpdateV {
    pub puuid: Seq<char>,
    pub slug: Seq<char>,
}

impl View for SlugUpdate {
    type V = SlugUpdateV;

    open spec fn view(&self) -> SlugUpdateV {
        SlugUpdateV { puuid: self.puuid@, slug: self.slug@ }
    }
}

impl DeepView for SlugUpdate {
    type V = SlugUpdateV;

    open spec fn deep_view(&self) -> SlugUpdateV {
        self.view()
    }
}

/// Keeps a looked-up account only when both halves of the display
/// identity are present; an account missing either is dropped from the
/// enrichment, never from the cycle.
pub fn identity_of(
    puuid: String,
    game_name: Option<String>,
    tag_line: Option<String>,
) -> (r: Option<RiotIdentity>)
    ensures
        match r {
            Some(ident) => {
                &&& game_name is Some
                &&& tag_line is Some
                &&& ident@.puuid == puuid@
                &&& ident@.game_name == (game_name->Some_0)@
                &&& ident@.tag_line == (tag_line->Some_0)@
            },
            None => game_name is None || tag_line is None,
        },
{
    match (game_name, tag_line) {
        (Some(game_name), Some(tag_line)) => Some(RiotIdentity { puuid, game_name, tag_line }),
        _ => None,
    }
}

/// What one account and the outcome of its slug lookup contribute: an
/// update when a slug came back, nothing when the lookup failed, timed
/// out or found no profile.
pub open spec fn slug_update_picker() -> spec_fn(
    (RiotIdentityV, Option<Seq<char>>),
) -> Option<SlugUpdateV> {
    |p: (RiotIdentityV, Option<Seq<char>>)|
        match p.1 {
            Some(s) => Some(SlugUpdateV { puuid: p.0.puuid, slug: s }),
            None => None,
        }
}

/// The slug updates of one enrichment round, accounts paired with their
/// lookup outcomes positionally.
pub open spec fn slug_updates_of(
    accounts: Seq<RiotIdentityV>,
    slugs: Seq<Option<Seq<char>>>,
) -> Seq<SlugUpdateV> {
    Seq::new(accounts.len(), |i: int| (accounts[i], slugs[i])).filter_map(slug_update_picker())
}

/// Pairs each account with its lookup outcome and keeps the successful
/// ones as slug updates.
#[verifier::loop_isolation(false)]
pub fn slug_updates(accounts: &Vec<RiotIdentity>, slugs: &Vec<Option<String>>) -> (r: Vec<
    SlugUpdate,
>)
    requires
        accounts@.len() == slugs@.len(),
    ensures
        r.deep_view() == slug_updates_of(accounts.deep_view(), slugs.deep_view()),
{
    let ghost av = accounts.deep_view();
    let ghost sv = slugs.deep_view();
    let ghost zipped = Seq::new(av.len(), |i: int| (av[i], sv[i]));
    let ghost picker = slug_update_picker();
    let mut out: Vec<SlugUpdate> = Vec::new();
    let n = accounts.len();
    let mut i: usize = 0;
    while i < n
        invariant
            i <= n,
            out.deep_view() =~= zipped.take(i as int).filter_map(picker),
        decreases n - i,
    {
        let ghost pre = out.deep_view();
        match &slugs[i] {
            Some(slug) => {
                let update = SlugUpdate {
                    puuid: accounts[i].puuid.clone(),
                    slug: slug.clone(),
                };
                proof {
                    assert(picker(zipped[i as int]) == Some(update.deep_view()));
                }
                out.push(update);
                proof {
                    assert(out.deep_view() =~= pre.push(update.deep_view()));
                }
            },
            None => {
                proof {
                    assert(picker(zipped[i as int]) is None);
                }
            },
        }
        proof {
            zipped.lemma_filter_map_take_succ(picker, i as int);
            assert(out.deep_view() =~= zipped.take(i + 1 as int).filter_map(picker));
        }
        i += 1;
    }
    proof {
        assert(zipped.take(n as int) =~= zipped);
    }
    out
}

} // verus!
