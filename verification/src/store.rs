//! The entity store: the authoritative record of campaigns, characters,
//! maps and assets, with atomic sparse patches and cascading deletes.
//!
//! Every record carries an opaque string id, unique within its kind. A
//! patch mutates only the fields it lists and stamps `updated_at`
//! unconditionally; sibling blocks of a record are never clobbered by a
//! patch that does not name them. Deleting a campaign cascades to its
//! characters, maps and assets.

use vstd::multiset::Multiset;
use vstd::prelude::*;

use crate::errors::{AppError, AppResult};
use crate::models::{
    Asset, AssetType, Campaign, Character, CombatStats, CreateCampaignData, CreateCharacterRequest,
    CreateMapRequest, Equipment, FogOfWar, GameMap, Skills, Token, UpdateCampaignRequest,
    UpdateCharacterRequest, default_currency, default_skills, lemma_str_le_total,
    lemma_str_le_trans, opt_str_view, str_le, str_le_exec,
};
use crate::ext;

verus! {

// =========================================================================
// Survivors of a delete, and the records a filter selects
// =========================================================================

/// The campaigns that survive deleting the one with the given id, in order.
pub open spec fn campaigns_without(s: Seq<Campaign>, id: Seq<char>) -> Seq<Campaign>
    decreases s.len(),
{
    if s.len() == 0 {
        Seq::empty()
    } else {
        let rest = campaigns_without(s.drop_last(), id);
        if s.last().id@ != id {
            rest.push(s.last())
        } else {
            rest
        }
    }
}

/// The characters that survive deleting the one with the given id.
pub open spec fn characters_without(s: Seq<Character>, id: Seq<char>) -> Seq<Character>
    decreases s.len(),
{
    if s.len() == 0 {
        Seq::empty()
    } else {
        let rest = characters_without(s.drop_last(), id);
        if s.last().id@ != id {
            rest.push(s.last())
        } else {
            rest
        }
    }
}

/// A freshly created character: the request's identity fields and stats,
/// with every other block at its default — empty combat stats, untrained
/// skills, empty equipment, no spells, features, notes or portrait — and
/// both timestamps equal.
pub open spec fn fresh_character_record(c: Character, data: CreateCharacterRequest) -> bool {
    &&& c.campaign_id == data.campaign_id
    &&& c.name == data.name
    &&& c.player_name == data.player_name
    &&& c.character_class == data.character_class
    &&& c.level == data.level
    &&& c.race == data.race
    &&& c.background == data.background
    &&& c.stats == data.stats
    &&& c.combat_stats.armor_class == 0
    &&& c.combat_stats.hit_points == 0
    &&& c.combat_stats.max_hit_points == 0
    &&& c.combat_stats.temporary_hit_points == 0
    &&& c.combat_stats.speed == 0
    &&& c.combat_stats.initiative_bonus == 0
    &&& c.combat_stats.death_saves_success == 0
    &&& c.combat_stats.death_saves_failure == 0
    &&& c.combat_stats.conditions@ == Seq::<crate::models::Condition>::empty()
    &&& c.skills == default_skills()
    &&& c.equipment.items@ == Seq::<crate::models::Item>::empty()
    &&& c.equipment.weapons@ == Seq::<crate::models::Weapon>::empty()
    &&& c.equipment.armor@ == Seq::<crate::models::Armor>::empty()
    &&& c.equipment.currency == default_currency()
    &&& c.spells@ == Seq::<crate::models::Spell>::empty()
    &&& c.features@ == Seq::<crate::models::Feature>::empty()
    &&& c.notes@ == Seq::<char>::empty()
    &&& c.avatar_url is None
    &&& c.is_npc == data.is_npc
    &&& c.created_at == c.updated_at
}

/// The characters that survive a cascade delete of the given campaign.
pub open spec fn characters_without_campaign(s: Seq<Character>, cid: Seq<char>) -> Seq<Character>
    decreases s.len(),
{
    if s.len() == 0 {
        Seq::empty()
    } else {
        let rest = characters_without_campaign(s.drop_last(), cid);
        if s.last().campaign_id@ != cid {
            rest.push(s.last())
        } else {
            rest
        }
    }
}

/// The characters of one campaign, in creation order.
pub open spec fn characters_of_campaign(s: Seq<Character>, cid: Seq<char>) -> Seq<Character>
    decreases s.len(),
{
    if s.len() == 0 {
        Seq::empty()
    } else {
        let rest = characters_of_campaign(s.drop_last(), cid);
        if s.last().campaign_id@ == cid {
            rest.push(s.last())
        } else {
            rest
        }
    }
}

/// The maps that survive a cascade delete of the given campaign.
pub open spec fn maps_without_campaign(s: Seq<GameMap>, cid: Seq<char>) -> Seq<GameMap>
    decreases s.len(),
{
    if s.len() == 0 {
        Seq::empty()
    } else {
        let rest = maps_without_campaign(s.drop_last(), cid);
        if s.last().campaign_id@ != cid {
            rest.push(s.last())
        } else {
            rest
        }
    }
}

/// The maps of one campaign, in creation order.
pub open spec fn maps_of_campaign(s: Seq<GameMap>, cid: Seq<char>) -> Seq<GameMap>
    decreases s.len(),
{
    if s.len() == 0 {
        Seq::empty()
    } else {
        let rest = maps_of_campaign(s.drop_last(), cid);
        if s.last().campaign_id@ == cid {
            rest.push(s.last())
        } else {
            rest
        }
    }
}

/// The assets that survive deleting the one with the given id.
pub open spec fn assets_without(s: Seq<Asset>, id: Seq<char>) -> Seq<Asset>
    decreases s.len(),
{
    if s.len() == 0 {
        Seq::empty()
    } else {
        let rest = assets_without(s.drop_last(), id);
        if s.last().id@ != id {
            rest.push(s.last())
        } else {
            rest
        }
    }
}

/// The assets that survive a cascade delete of the given campaign. A global
/// asset, owned by no campaign, always survives.
pub open spec fn assets_without_campaign(s: Seq<Asset>, cid: Seq<char>) -> Seq<Asset>
    decreases s.len(),
{
    if s.len() == 0 {
        Seq::empty()
    } else {
        let rest = assets_without_campaign(s.drop_last(), cid);
        if opt_str_view(s.last().campaign_id) != Option::Some(cid) {
            rest.push(s.last())
        } else {
            rest
        }
    }
}

/// Every map that survives a cascade delete is one of the original
/// records, untouched.
pub proof fn lemma_maps_without_campaign_contains(s: Seq<GameMap>, cid: Seq<char>)
    ensures
        forall|i: int|
            0 <= i < maps_without_campaign(s, cid).len() ==> s.contains(
                #[trigger] maps_without_campaign(s, cid)[i],
            ),
    decreases s.len(),
{
    if s.len() == 0 {
    } else {
        lemma_maps_without_campaign_contains(s.drop_last(), cid);
        let res = maps_without_campaign(s, cid);
        let rest = maps_without_campaign(s.drop_last(), cid);
        assert forall|i: int| 0 <= i < res.len() implies s.contains(res[i]) by {
            if s.last().campaign_id@ != cid && i == res.len() - 1 {
                assert(res[i] == s.last());
                assert(s[s.len() - 1] == s.last());
            } else {
                assert(res[i] == rest[i]);
                assert(s.drop_last().contains(rest[i]));
                let w = choose|w: int|
                    0 <= w < s.drop_last().len() && s.drop_last()[w] == rest[i];
                assert(s[w] == rest[i]);
            }
        }
    }
}

/// Whether an asset is visible to a query: a query for a campaign sees that
/// campaign's assets and the global ones; a query without a campaign sees
/// only the global ones.
pub open spec fn asset_visible(a: Asset, q: Option<Seq<char>>) -> bool {
    match q {
        Option::Some(cid) => opt_str_view(a.campaign_id) == Option::Some(cid) || a.campaign_id
            is None,
        Option::None => a.campaign_id is None,
    }
}

/// The assets a query selects, in creation order.
pub open spec fn assets_visible(s: Seq<Asset>, q: Option<Seq<char>>) -> Seq<Asset>
    decreases s.len(),
{
    if s.len() == 0 {
        Seq::empty()
    } else {
        let rest = assets_visible(s.drop_last(), q);
        if asset_visible(s.last(), q) {
            rest.push(s.last())
        } else {
            rest
        }
    }
}

/// A map record after replacing its live state: the token set and fog are
/// the new ones, `updated_at` becomes `t`, everything else is kept.
pub open spec fn map_with_state(
    m: GameMap,
    tokens: Vec<Token>,
    fog: Option<FogOfWar>,
    t: i64,
) -> GameMap {
    GameMap {
        id: m.id,
        campaign_id: m.campaign_id,
        name: m.name,
        description: m.description,
        image_url: m.image_url,
        grid_size: m.grid_size,
        width: m.width,
        height: m.height,
        tokens: tokens,
        fog_of_war: fog,
        created_at: m.created_at,
        updated_at: t,
    }
}

/// The view of an optional campaign filter.
pub open spec fn query_view(q: Option<&String>) -> Option<Seq<char>> {
    match q {
        Option::Some(c) => Option::Some(c@),
        Option::None => Option::None,
    }
}

// =========================================================================
// Listing order
// =========================================================================

/// Sorts campaign references most recently updated first: a selection
/// sort that repeatedly pulls a most recent record, so the result is a
/// permutation of its input.
fn sort_campaigns_newest_first(v: Vec<&Campaign>) -> (r: Vec<&Campaign>)
    ensures
        r@.map_values(|c: &Campaign| *c).to_multiset() == v@.map_values(
            |c: &Campaign| *c,
        ).to_multiset(),
        forall|i: int, j: int| 0 <= i < j < r@.len() ==> r@[i].updated_at >= r@[j].updated_at,
{
    let mut rest = v;
    let mut out: Vec<&Campaign> = Vec::new();
    proof {
        broadcast use vstd::seq_lib::group_to_multiset_ensures;
        broadcast use vstd::multiset::group_multiset_axioms;
        broadcast use vstd::multiset::lemma_multiset_empty_len;

        assert(out@.map_values(|c: &Campaign| *c).to_multiset().len() == 0);
        assert(out@.map_values(|c: &Campaign| *c).to_multiset() =~= Multiset::<Campaign>::empty());
        assert(out@.map_values(|c: &Campaign| *c).to_multiset().add(
            rest@.map_values(|c: &Campaign| *c).to_multiset(),
        ) =~= rest@.map_values(|c: &Campaign| *c).to_multiset());
    }
    while rest.len() > 0
        invariant
            out@.map_values(|c: &Campaign| *c).to_multiset().add(
                rest@.map_values(|c: &Campaign| *c).to_multiset(),
            ) =~= v@.map_values(|c: &Campaign| *c).to_multiset(),
            forall|i: int, j: int| 0 <= i < j < out@.len() ==> out@[i].updated_at
                >= out@[j].updated_at,
            forall|i: int, j: int|
                0 <= i < out@.len() && 0 <= j < rest@.len() ==> out@[i].updated_at
                    >= rest@[j].updated_at,
        decreases rest@.len(),
    {
        let mut mi: usize = 0;
        let mut t: usize = 1;
        while t < rest.len()
            invariant
                mi < rest@.len(),
                t <= rest@.len(),
                forall|u: int| 0 <= u < t ==> rest@[mi as int].updated_at >= rest@[u].updated_at,
            decreases rest@.len() - t,
        {
            if rest[t].updated_at > rest[mi].updated_at {
                mi = t;
            }
            t = t + 1;
        }
        let ghost pre = rest@;
        let x = rest.remove(mi);
        proof {
            broadcast use vstd::seq_lib::group_to_multiset_ensures;
            broadcast use vstd::multiset::group_multiset_axioms;

            let pm = pre.map_values(|c: &Campaign| *c);
            assert(pre[mi as int] == x);
            assert(pm[mi as int] == *x);
            assert(rest@ == pre.remove(mi as int));
            assert(rest@.map_values(|c: &Campaign| *c) =~= pm.remove(mi as int));
            assert(pm.remove(mi as int).to_multiset() =~= pm.to_multiset().remove(pm[mi as int]));
        }
        let ghost pre_out = out@;
        out.push(x);
        proof {
            broadcast use vstd::seq_lib::group_to_multiset_ensures;
            broadcast use vstd::multiset::group_multiset_axioms;

            let pom = pre_out.map_values(|c: &Campaign| *c);
            assert(out@ == pre_out.push(x));
            assert(out@.map_values(|c: &Campaign| *c) =~= pom.push(*x));
            assert(pom.push(*x).to_multiset() =~= pom.to_multiset().insert(*x));
            assert(out@.map_values(|c: &Campaign| *c).to_multiset().add(
                rest@.map_values(|c: &Campaign| *c).to_multiset(),
            ) =~= v@.map_values(|c: &Campaign| *c).to_multiset());
        }
    }
    proof {
        broadcast use vstd::seq_lib::group_to_multiset_ensures;
        broadcast use vstd::multiset::group_multiset_axioms;
        broadcast use vstd::multiset::lemma_multiset_empty_len;

        assert(rest@.map_values(|c: &Campaign| *c).to_multiset().len() == 0);
        assert(rest@.map_values(|c: &Campaign| *c).to_multiset() =~= Multiset::<
            Campaign,
        >::empty());
        assert(out@.map_values(|c: &Campaign| *c).to_multiset() =~= v@.map_values(
            |c: &Campaign| *c,
        ).to_multiset());
    }
    out
}


/// Sorts character references by name, in the name order: a selection sort
/// that repeatedly pulls a least name, so the result is a permutation of
/// its input.
fn sort_characters_by_name(v: Vec<&Character>) -> (r: Vec<&Character>)
    ensures
        r@.map_values(|c: &Character| *c).to_multiset() == v@.map_values(
            |c: &Character| *c,
        ).to_multiset(),
        forall|i: int, j: int|
            0 <= i < j < r@.len() ==> str_le(#[trigger] r@[i].name@, #[trigger] r@[j].name@),
{
    let mut rest = v;
    let mut out: Vec<&Character> = Vec::new();
    proof {
        broadcast use vstd::seq_lib::group_to_multiset_ensures;
        broadcast use vstd::multiset::group_multiset_axioms;
        broadcast use vstd::multiset::lemma_multiset_empty_len;

        assert(out@.map_values(|c: &Character| *c).to_multiset().len() == 0);
        assert(out@.map_values(|c: &Character| *c).to_multiset() =~= Multiset::<Character>::empty());
        assert(out@.map_values(|c: &Character| *c).to_multiset().add(
            rest@.map_values(|c: &Character| *c).to_multiset(),
        ) =~= rest@.map_values(|c: &Character| *c).to_multiset());
    }
    while rest.len() > 0
        invariant
            out@.map_values(|c: &Character| *c).to_multiset().add(
                rest@.map_values(|c: &Character| *c).to_multiset(),
            ) =~= v@.map_values(|c: &Character| *c).to_multiset(),
            forall|i: int, j: int|
                0 <= i < j < out@.len() ==> str_le(
                    #[trigger] out@[i].name@,
                    #[trigger] out@[j].name@,
                ),
            forall|i: int, j: int|
                0 <= i < out@.len() && 0 <= j < rest@.len() ==> str_le(
                    #[trigger] out@[i].name@,
                    #[trigger] rest@[j].name@,
                ),
        decreases rest@.len(),
    {
        let mut mi: usize = 0;
        proof {
            lemma_str_le_total(rest@[0].name@, rest@[0].name@);
        }
        let mut t: usize = 1;
        while t < rest.len()
            invariant
                mi < rest@.len(),
                t <= rest@.len(),
                forall|u: int|
                    0 <= u < t ==> str_le(rest@[mi as int].name@, #[trigger] rest@[u].name@),
            decreases rest@.len() - t,
        {
            if str_le_exec(rest[t].name.as_str(), rest[mi].name.as_str()) {
                proof {
                    assert forall|u: int|
                        0 <= u < t + 1 implies str_le(
                        rest@[t as int].name@,
                        #[trigger] rest@[u].name@,
                    ) by {
                        if u < t {
                            lemma_str_le_trans(
                                rest@[t as int].name@,
                                rest@[mi as int].name@,
                                rest@[u].name@,
                            );
                        } else {
                            lemma_str_le_total(rest@[t as int].name@, rest@[t as int].name@);
                        }
                    }
                }
                mi = t;
            } else {
                proof {
                    lemma_str_le_total(rest@[t as int].name@, rest@[mi as int].name@);
                }
            }
            t = t + 1;
        }
        let ghost pre = rest@;
        let x = rest.remove(mi);
        proof {
            broadcast use vstd::seq_lib::group_to_multiset_ensures;
            broadcast use vstd::multiset::group_multiset_axioms;

            let pm = pre.map_values(|c: &Character| *c);
            assert(pre[mi as int] == x);
            assert(pm[mi as int] == *x);
            assert(rest@ == pre.remove(mi as int));
            assert(rest@.map_values(|c: &Character| *c) =~= pm.remove(mi as int));
            assert(pm.remove(mi as int).to_multiset() =~= pm.to_multiset().remove(pm[mi as int]));
            assert forall|j: int|
                0 <= j < rest@.len() implies str_le(x.name@, #[trigger] rest@[j].name@) by {
                if j < mi {
                    assert(rest@[j] == pre[j]);
                } else {
                    assert(rest@[j] == pre[j + 1]);
                }
            }
        }
        let ghost pre_out = out@;
        out.push(x);
        proof {
            broadcast use vstd::seq_lib::group_to_multiset_ensures;
            broadcast use vstd::multiset::group_multiset_axioms;

            let pom = pre_out.map_values(|c: &Character| *c);
            assert(out@ == pre_out.push(x));
            assert(out@.map_values(|c: &Character| *c) =~= pom.push(*x));
            assert(pom.push(*x).to_multiset() =~= pom.to_multiset().insert(*x));
            assert(out@.map_values(|c: &Character| *c).to_multiset().add(
                rest@.map_values(|c: &Character| *c).to_multiset(),
            ) =~= v@.map_values(|c: &Character| *c).to_multiset());
            assert forall|i: int, j: int|
                0 <= i < j < out@.len() implies str_le(
                #[trigger] out@[i].name@,
                #[trigger] out@[j].name@,
            ) by {
                if j == out@.len() - 1 {
                    assert(str_le(pre_out[i].name@, pre[mi as int].name@));
                }
            }
        }
    }
    proof {
        broadcast use vstd::seq_lib::group_to_multiset_ensures;
        broadcast use vstd::multiset::group_multiset_axioms;
        broadcast use vstd::multiset::lemma_multiset_empty_len;

        assert(rest@.map_values(|c: &Character| *c).to_multiset().len() == 0);
        assert(rest@.map_values(|c: &Character| *c).to_multiset() =~= Multiset::<Character>::empty());
        assert(out@.map_values(|c: &Character| *c).to_multiset() =~= v@.map_values(
            |c: &Character| *c,
        ).to_multiset());
    }
    out
}

/// Sorts map references by name, in the name order: a selection sort
/// that repeatedly pulls a least name, so the result is a permutation of
/// its input.
fn sort_maps_by_name(v: Vec<&GameMap>) -> (r: Vec<&GameMap>)
    ensures
        r@.map_values(|c: &GameMap| *c).to_multiset() == v@.map_values(
            |c: &GameMap| *c,
        ).to_multiset(),
        forall|i: int, j: int|
            0 <= i < j < r@.len() ==> str_le(#[trigger] r@[i].name@, #[trigger] r@[j].name@),
{
    let mut rest = v;
    let mut out: Vec<&GameMap> = Vec::new();
    proof {
        broadcast use vstd::seq_lib::group_to_multiset_ensures;
        broadcast use vstd::multiset::group_multiset_axioms;
        broadcast use vstd::multiset::lemma_multiset_empty_len;

        assert(out@.map_values(|c: &GameMap| *c).to_multiset().len() == 0);
        assert(out@.map_values(|c: &GameMap| *c).to_multiset() =~= Multiset::<GameMap>::empty());
        assert(out@.map_values(|c: &GameMap| *c).to_multiset().add(
            rest@.map_values(|c: &GameMap| *c).to_multiset(),
        ) =~= rest@.map_values(|c: &GameMap| *c).to_multiset());
    }
    while rest.len() > 0
        invariant
            out@.map_values(|c: &GameMap| *c).to_multiset().add(
                rest@.map_values(|c: &GameMap| *c).to_multiset(),
            ) =~= v@.map_values(|c: &GameMap| *c).to_multiset(),
            forall|i: int, j: int|
                0 <= i < j < out@.len() ==> str_le(
                    #[trigger] out@[i].name@,
                    #[trigger] out@[j].name@,
                ),
            forall|i: int, j: int|
                0 <= i < out@.len() && 0 <= j < rest@.len() ==> str_le(
                    #[trigger] out@[i].name@,
                    #[trigger] rest@[j].name@,
                ),
        decreases rest@.len(),
    {
        let mut mi: usize = 0;
        proof {
            lemma_str_le_total(rest@[0].name@, rest@[0].name@);
        }
        let mut t: usize = 1;
        while t < rest.len()
            invariant
                mi < rest@.len(),
                t <= rest@.len(),
                forall|u: int|
                    0 <= u < t ==> str_le(rest@[mi as int].name@, #[trigger] rest@[u].name@),
            decreases rest@.len() - t,
        {
            if str_le_exec(rest[t].name.as_str(), rest[mi].name.as_str()) {
                proof {
                    assert forall|u: int|
                        0 <= u < t + 1 implies str_le(
                        rest@[t as int].name@,
                        #[trigger] rest@[u].name@,
                    ) by {
                        if u < t {
                            lemma_str_le_trans(
                                rest@[t as int].name@,
                                rest@[mi as int].name@,
                                rest@[u].name@,
                            );
                        } else {
                            lemma_str_le_total(rest@[t as int].name@, rest@[t as int].name@);
                        }
                    }
                }
                mi = t;
            } else {
                proof {
                    lemma_str_le_total(rest@[t as int].name@, rest@[mi as int].name@);
                }
            }
            t = t + 1;
        }
        let ghost pre = rest@;
        let x = rest.remove(mi);
        proof {
            broadcast use vstd::seq_lib::group_to_multiset_ensures;
            broadcast use vstd::multiset::group_multiset_axioms;

            let pm = pre.map_values(|c: &GameMap| *c);
            assert(pre[mi as int] == x);
            assert(pm[mi as int] == *x);
            assert(rest@ == pre.remove(mi as int));
            assert(rest@.map_values(|c: &GameMap| *c) =~= pm.remove(mi as int));
            assert(pm.remove(mi as int).to_multiset() =~= pm.to_multiset().remove(pm[mi as int]));
            assert forall|j: int|
                0 <= j < rest@.len() implies str_le(x.name@, #[trigger] rest@[j].name@) by {
                if j < mi {
                    assert(rest@[j] == pre[j]);
                } else {
                    assert(rest@[j] == pre[j + 1]);
                }
            }
        }
        let ghost pre_out = out@;
        out.push(x);
        proof {
            broadcast use vstd::seq_lib::group_to_multiset_ensures;
            broadcast use vstd::multiset::group_multiset_axioms;

            let pom = pre_out.map_values(|c: &GameMap| *c);
            assert(out@ == pre_out.push(x));
            assert(out@.map_values(|c: &GameMap| *c) =~= pom.push(*x));
            assert(pom.push(*x).to_multiset() =~= pom.to_multiset().insert(*x));
            assert(out@.map_values(|c: &GameMap| *c).to_multiset().add(
                rest@.map_values(|c: &GameMap| *c).to_multiset(),
            ) =~= v@.map_values(|c: &GameMap| *c).to_multiset());
            assert forall|i: int, j: int|
                0 <= i < j < out@.len() implies str_le(
                #[trigger] out@[i].name@,
                #[trigger] out@[j].name@,
            ) by {
                if j == out@.len() - 1 {
                    assert(str_le(pre_out[i].name@, pre[mi as int].name@));
                }
            }
        }
    }
    proof {
        broadcast use vstd::seq_lib::group_to_multiset_ensures;
        broadcast use vstd::multiset::group_multiset_axioms;
        broadcast use vstd::multiset::lemma_multiset_empty_len;

        assert(rest@.map_values(|c: &GameMap| *c).to_multiset().len() == 0);
        assert(rest@.map_values(|c: &GameMap| *c).to_multiset() =~= Multiset::<GameMap>::empty());
        assert(out@.map_values(|c: &GameMap| *c).to_multiset() =~= v@.map_values(
            |c: &GameMap| *c,
        ).to_multiset());
    }
    out
}

/// Sorts asset references by name, in the name order: a selection sort
/// that repeatedly pulls a least name, so the result is a permutation of
/// its input.
fn sort_assets_by_name(v: Vec<&Asset>) -> (r: Vec<&Asset>)
    ensures
        r@.map_values(|c: &Asset| *c).to_multiset() == v@.map_values(
            |c: &Asset| *c,
        ).to_multiset(),
        forall|i: int, j: int|
            0 <= i < j < r@.len() ==> str_le(#[trigger] r@[i].name@, #[trigger] r@[j].name@),
{
    let mut rest = v;
    let mut out: Vec<&Asset> = Vec::new();
    proof {
        broadcast use vstd::seq_lib::group_to_multiset_ensures;
        broadcast use vstd::multiset::group_multiset_axioms;
        broadcast use vstd::multiset::lemma_multiset_empty_len;

        assert(out@.map_values(|c: &Asset| *c).to_multiset().len() == 0);
        assert(out@.map_values(|c: &Asset| *c).to_multiset() =~= Multiset::<Asset>::empty());
        assert(out@.map_values(|c: &Asset| *c).to_multiset().add(
            rest@.map_values(|c: &Asset| *c).to_multiset(),
        ) =~= rest@.map_values(|c: &Asset| *c).to_multiset());
    }
    while rest.len() > 0
        invariant
            out@.map_values(|c: &Asset| *c).to_multiset().add(
                rest@.map_values(|c: &Asset| *c).to_multiset(),
            ) =~= v@.map_values(|c: &Asset| *c).to_multiset(),
            forall|i: int, j: int|
                0 <= i < j < out@.len() ==> str_le(
                    #[trigger] out@[i].name@,
                    #[trigger] out@[j].name@,
                ),
            forall|i: int, j: int|
                0 <= i < out@.len() && 0 <= j < rest@.len() ==> str_le(
                    #[trigger] out@[i].name@,
                    #[trigger] rest@[j].name@,
                ),
        decreases rest@.len(),
    {
        let mut mi: usize = 0;
        proof {
            lemma_str_le_total(rest@[0].name@, rest@[0].name@);
        }
        let mut t: usize = 1;
        while t < rest.len()
            invariant
                mi < rest@.len(),
                t <= rest@.len(),
                forall|u: int|
                    0 <= u < t ==> str_le(rest@[mi as int].name@, #[trigger] rest@[u].name@),
            decreases rest@.len() - t,
        {
            if str_le_exec(rest[t].name.as_str(), rest[mi].name.as_str()) {
                proof {
                    assert forall|u: int|
                        0 <= u < t + 1 implies str_le(
                        rest@[t as int].name@,
                        #[trigger] rest@[u].name@,
                    ) by {
                        if u < t {
                            lemma_str_le_trans(
                                rest@[t as int].name@,
                                rest@[mi as int].name@,
                                rest@[u].name@,
                            );
                        } else {
                            lemma_str_le_total(rest@[t as int].name@, rest@[t as int].name@);
                        }
                    }
                }
                mi = t;
            } else {
                proof {
                    lemma_str_le_total(rest@[t as int].name@, rest@[mi as int].name@);
                }
            }
            t = t + 1;
        }
        let ghost pre = rest@;
        let x = rest.remove(mi);
        proof {
            broadcast use vstd::seq_lib::group_to_multiset_ensures;
            broadcast use vstd::multiset::group_multiset_axioms;

            let pm = pre.map_values(|c: &Asset| *c);
            assert(pre[mi as int] == x);
            assert(pm[mi as int] == *x);
            assert(rest@ == pre.remove(mi as int));
            assert(rest@.map_values(|c: &Asset| *c) =~= pm.remove(mi as int));
            assert(pm.remove(mi as int).to_multiset() =~= pm.to_multiset().remove(pm[mi as int]));
            assert forall|j: int|
                0 <= j < rest@.len() implies str_le(x.name@, #[trigger] rest@[j].name@) by {
                if j < mi {
                    assert(rest@[j] == pre[j]);
                } else {
                    assert(rest@[j] == pre[j + 1]);
                }
            }
        }
        let ghost pre_out = out@;
        out.push(x);
        proof {
            broadcast use vstd::seq_lib::group_to_multiset_ensures;
            broadcast use vstd::multiset::group_multiset_axioms;

            let pom = pre_out.map_values(|c: &Asset| *c);
            assert(out@ == pre_out.push(x));
            assert(out@.map_values(|c: &Asset| *c) =~= pom.push(*x));
            assert(pom.push(*x).to_multiset() =~= pom.to_multiset().insert(*x));
            assert(out@.map_values(|c: &Asset| *c).to_multiset().add(
                rest@.map_values(|c: &Asset| *c).to_multiset(),
            ) =~= v@.map_values(|c: &Asset| *c).to_multiset());
            assert forall|i: int, j: int|
                0 <= i < j < out@.len() implies str_le(
                #[trigger] out@[i].name@,
                #[trigger] out@[j].name@,
            ) by {
                if j == out@.len() - 1 {
                    assert(str_le(pre_out[i].name@, pre[mi as int].name@));
                }
            }
        }
    }
    proof {
        broadcast use vstd::seq_lib::group_to_multiset_ensures;
        broadcast use vstd::multiset::group_multiset_axioms;
        broadcast use vstd::multiset::lemma_multiset_empty_len;

        assert(rest@.map_values(|c: &Asset| *c).to_multiset().len() == 0);
        assert(rest@.map_values(|c: &Asset| *c).to_multiset() =~= Multiset::<Asset>::empty());
        assert(out@.map_values(|c: &Asset| *c).to_multiset() =~= v@.map_values(
            |c: &Asset| *c,
        ).to_multiset());
    }
    out
}

// =========================================================================
// Record lookup
// =========================================================================

pub open spec fn campaign_ids_unique(s: Seq<Campaign>) -> bool {
    forall|i: int, j: int| 0 <= i < j < s.len() ==> s[i].id@ != s[j].id@
}

pub open spec fn character_ids_unique(s: Seq<Character>) -> bool {
    forall|i: int, j: int| 0 <= i < j < s.len() ==> s[i].id@ != s[j].id@
}

pub open spec fn map_ids_unique(s: Seq<GameMap>) -> bool {
    forall|i: int, j: int| 0 <= i < j < s.len() ==> s[i].id@ != s[j].id@
}

pub open spec fn asset_ids_unique(s: Seq<Asset>) -> bool {
    forall|i: int, j: int| 0 <= i < j < s.len() ==> s[i].id@ != s[j].id@
}

pub open spec fn has_campaign(s: Seq<Campaign>, id: Seq<char>) -> bool {
    exists|i: int| 0 <= i < s.len() && s[i].id@ == id
}

pub open spec fn has_character(s: Seq<Character>, id: Seq<char>) -> bool {
    exists|i: int| 0 <= i < s.len() && s[i].id@ == id
}

pub open spec fn has_map(s: Seq<GameMap>, id: Seq<char>) -> bool {
    exists|i: int| 0 <= i < s.len() && s[i].id@ == id
}

pub open spec fn has_asset(s: Seq<Asset>, id: Seq<char>) -> bool {
    exists|i: int| 0 <= i < s.len() && s[i].id@ == id
}

fn campaign_index(v: &Vec<Campaign>, id: &String) -> (r: Option<usize>)
    ensures
        match r {
            Option::Some(i) => i < v.len() && v@[i as int].id@ == id@,
            Option::None => !has_campaign(v@, id@),
        },
{
    let mut i: usize = 0;
    while i < v.len()
        invariant
            i <= v.len(),
            forall|j: int| 0 <= j < i ==> v@[j].id@ != id@,
        decreases v.len() - i,
    {
        if v[i].id == *id {
            return Option::Some(i);
        }
        i = i + 1;
    }
    Option::None
}

fn character_index(v: &Vec<Character>, id: &String) -> (r: Option<usize>)
    ensures
        match r {
            Option::Some(i) => i < v.len() && v@[i as int].id@ == id@,
            Option::None => !has_character(v@, id@),
        },
{
    let mut i: usize = 0;
    while i < v.len()
        invariant
            i <= v.len(),
            forall|j: int| 0 <= j < i ==> v@[j].id@ != id@,
        decreases v.len() - i,
    {
        if v[i].id == *id {
            return Option::Some(i);
        }
        i = i + 1;
    }
    Option::None
}

fn map_index(v: &Vec<GameMap>, id: &String) -> (r: Option<usize>)
    ensures
        match r {
            Option::Some(i) => i < v.len() && v@[i as int].id@ == id@,
            Option::None => !has_map(v@, id@),
        },
{
    let mut i: usize = 0;
    while i < v.len()
        invariant
            i <= v.len(),
            forall|j: int| 0 <= j < i ==> v@[j].id@ != id@,
        decreases v.len() - i,
    {
        if v[i].id == *id {
            return Option::Some(i);
        }
        i = i + 1;
    }
    Option::None
}

fn asset_index(v: &Vec<Asset>, id: &String) -> (r: Option<usize>)
    ensures
        match r {
            Option::Some(i) => i < v.len() && v@[i as int].id@ == id@,
            Option::None => !has_asset(v@, id@),
        },
{
    let mut i: usize = 0;
    while i < v.len()
        invariant
            i <= v.len(),
            forall|j: int| 0 <= j < i ==> v@[j].id@ != id@,
        decreases v.len() - i,
    {
        if v[i].id == *id {
            return Option::Some(i);
        }
        i = i + 1;
    }
    Option::None
}

// =========================================================================
// Sparse patches
// =========================================================================

/// A campaign record after a sparse patch: the fields the patch lists take
/// their new values, `updated_at` becomes `t`, everything else is kept.
pub open spec fn patched_campaign(c: Campaign, p: UpdateCampaignRequest, t: i64) -> Campaign {
    Campaign {
        id: c.id,
        name: match p.name {
            Option::Some(n) => n,
            Option::None => c.name,
        },
        description: match p.description {
            Option::Some(d) => Option::Some(d),
            Option::None => c.description,
        },
        dm_name: c.dm_name,
        settings: match p.settings {
            Option::Some(s) => s,
            Option::None => c.settings,
        },
        created_at: c.created_at,
        updated_at: t,
        is_active: c.is_active,
    }
}

/// A character record after a sparse patch: each listed block replaces its
/// old value whole, `updated_at` becomes `t`, and sibling blocks are kept.
pub open spec fn patched_character(c: Character, p: UpdateCharacterRequest, t: i64) -> Character {
    Character {
        id: c.id,
        campaign_id: c.campaign_id,
        name: match p.name {
            Option::Some(n) => n,
            Option::None => c.name,
        },
        player_name: c.player_name,
        character_class: c.character_class,
        level: match p.level {
            Option::Some(l) => l,
            Option::None => c.level,
        },
        race: c.race,
        background: c.background,
        stats: match p.stats {
            Option::Some(s) => s,
            Option::None => c.stats,
        },
        combat_stats: match p.combat_stats {
            Option::Some(s) => s,
            Option::None => c.combat_stats,
        },
        skills: c.skills,
        equipment: match p.equipment {
            Option::Some(e) => e,
            Option::None => c.equipment,
        },
        spells: c.spells,
        features: c.features,
        notes: match p.notes {
            Option::Some(n) => n,
            Option::None => c.notes,
        },
        avatar_url: c.avatar_url,
        is_npc: c.is_npc,
        created_at: c.created_at,
        updated_at: t,
    }
}

// =========================================================================
// In-place removal loops
// =========================================================================

fn retain_campaigns_not_id(v: &mut Vec<Campaign>, cid: &String)
    requires
        campaign_ids_unique(old(v)@),
    ensures
        final(v)@ == campaigns_without(old(v)@, cid@),
        campaign_ids_unique(final(v)@),
{
    let ghost g = v@;
    let mut i: usize = 0;
    let ghost mut k: int = 0;
    while i < v.len()
        invariant
            0 <= k <= g.len(),
            i <= v.len(),
            i as int == campaigns_without(g.subrange(0, k), cid@).len(),
            v@ =~= campaigns_without(g.subrange(0, k), cid@) + g.subrange(k, g.len() as int),
            campaign_ids_unique(v@),
        decreases g.len() - k,
    {
        proof {
            assert(v@[i as int] == g.subrange(k, g.len() as int)[0]);
            assert(g.subrange(0, k + 1).drop_last() =~= g.subrange(0, k));
            assert(g.subrange(0, k + 1).last() == g[k]);
        }
        if v[i].id == *cid {
            let ghost pre = v@;
            let _ = v.remove(i);
            proof {
                assert(campaigns_without(g.subrange(0, k + 1), cid@) =~= campaigns_without(
                    g.subrange(0, k),
                    cid@,
                ));
                assert(v@ =~= campaigns_without(g.subrange(0, k + 1), cid@) + g.subrange(
                    k + 1,
                    g.len() as int,
                ));
                assert forall|a: int, b: int|
                    0 <= a < b < v@.len() implies v@[a].id@ != v@[b].id@ by {
                    if i <= a {
                        assert(v@[a] == pre[a + 1]);
                    }
                    if i <= b {
                        assert(v@[b] == pre[b + 1]);
                    }
                }
                k = k + 1;
            }
        } else {
            i = i + 1;
            proof {
                assert(campaigns_without(g.subrange(0, k + 1), cid@) =~= campaigns_without(
                    g.subrange(0, k),
                    cid@,
                ).push(g[k]));
                assert(v@ =~= campaigns_without(g.subrange(0, k + 1), cid@) + g.subrange(
                    k + 1,
                    g.len() as int,
                ));
                k = k + 1;
            }
        }
    }
    proof {
        assert(g.subrange(0, k) =~= g);
        assert(v@ =~= campaigns_without(g, cid@));
    }
}

fn retain_characters_not_id(v: &mut Vec<Character>, id: &String)
    requires
        character_ids_unique(old(v)@),
    ensures
        final(v)@ == characters_without(old(v)@, id@),
        character_ids_unique(final(v)@),
{
    let ghost g = v@;
    let mut i: usize = 0;
    let ghost mut k: int = 0;
    while i < v.len()
        invariant
            0 <= k <= g.len(),
            i <= v.len(),
            i as int == characters_without(g.subrange(0, k), id@).len(),
            v@ =~= characters_without(g.subrange(0, k), id@) + g.subrange(k, g.len() as int),
            character_ids_unique(v@),
        decreases g.len() - k,
    {
        proof {
            assert(v@[i as int] == g.subrange(k, g.len() as int)[0]);
            assert(g.subrange(0, k + 1).drop_last() =~= g.subrange(0, k));
            assert(g.subrange(0, k + 1).last() == g[k]);
        }
        if v[i].id == *id {
            let ghost pre = v@;
            let _ = v.remove(i);
            proof {
                assert(characters_without(g.subrange(0, k + 1), id@) =~= characters_without(
                    g.subrange(0, k),
                    id@,
                ));
                assert(v@ =~= characters_without(g.subrange(0, k + 1), id@) + g.subrange(
                    k + 1,
                    g.len() as int,
                ));
                assert forall|a: int, b: int|
                    0 <= a < b < v@.len() implies v@[a].id@ != v@[b].id@ by {
                    if i <= a {
                        assert(v@[a] == pre[a + 1]);
                    }
                    if i <= b {
                        assert(v@[b] == pre[b + 1]);
                    }
                }
                k = k + 1;
            }
        } else {
            i = i + 1;
            proof {
                assert(characters_without(g.subrange(0, k + 1), id@) =~= characters_without(
                    g.subrange(0, k),
                    id@,
                ).push(g[k]));
                assert(v@ =~= characters_without(g.subrange(0, k + 1), id@) + g.subrange(
                    k + 1,
                    g.len() as int,
                ));
                k = k + 1;
            }
        }
    }
    proof {
        assert(g.subrange(0, k) =~= g);
        assert(v@ =~= characters_without(g, id@));
    }
}

fn retain_characters_not_of(v: &mut Vec<Character>, cid: &String)
    requires
        character_ids_unique(old(v)@),
    ensures
        final(v)@ == characters_without_campaign(old(v)@, cid@),
        character_ids_unique(final(v)@),
{
    let ghost g = v@;
    let mut i: usize = 0;
    let ghost mut k: int = 0;
    while i < v.len()
        invariant
            0 <= k <= g.len(),
            i <= v.len(),
            i as int == characters_without_campaign(g.subrange(0, k), cid@).len(),
            v@ =~= characters_without_campaign(g.subrange(0, k), cid@) + g.subrange(
                k,
                g.len() as int,
            ),
            character_ids_unique(v@),
        decreases g.len() - k,
    {
        proof {
            assert(v@[i as int] == g.subrange(k, g.len() as int)[0]);
            assert(g.subrange(0, k + 1).drop_last() =~= g.subrange(0, k));
            assert(g.subrange(0, k + 1).last() == g[k]);
        }
        if v[i].campaign_id == *cid {
            let ghost pre = v@;
            let _ = v.remove(i);
            proof {
                assert(characters_without_campaign(g.subrange(0, k + 1), cid@)
                    =~= characters_without_campaign(g.subrange(0, k), cid@));
                assert(v@ =~= characters_without_campaign(g.subrange(0, k + 1), cid@) + g.subrange(
                    k + 1,
                    g.len() as int,
                ));
                assert forall|a: int, b: int|
                    0 <= a < b < v@.len() implies v@[a].id@ != v@[b].id@ by {
                    if i <= a {
                        assert(v@[a] == pre[a + 1]);
                    }
                    if i <= b {
                        assert(v@[b] == pre[b + 1]);
                    }
                }
                k = k + 1;
            }
        } else {
            i = i + 1;
            proof {
                assert(characters_without_campaign(g.subrange(0, k + 1), cid@)
                    =~= characters_without_campaign(g.subrange(0, k), cid@).push(g[k]));
                assert(v@ =~= characters_without_campaign(g.subrange(0, k + 1), cid@) + g.subrange(
                    k + 1,
                    g.len() as int,
                ));
                k = k + 1;
            }
        }
    }
    proof {
        assert(g.subrange(0, k) =~= g);
        assert(v@ =~= characters_without_campaign(g, cid@));
    }
}

fn retain_maps_not_of(v: &mut Vec<GameMap>, cid: &String)
    requires
        map_ids_unique(old(v)@),
    ensures
        final(v)@ == maps_without_campaign(old(v)@, cid@),
        map_ids_unique(final(v)@),
{
    let ghost g = v@;
    let mut i: usize = 0;
    let ghost mut k: int = 0;
    while i < v.len()
        invariant
            0 <= k <= g.len(),
            i <= v.len(),
            i as int == maps_without_campaign(g.subrange(0, k), cid@).len(),
            v@ =~= maps_without_campaign(g.subrange(0, k), cid@) + g.subrange(k, g.len() as int),
            map_ids_unique(v@),
        decreases g.len() - k,
    {
        proof {
            assert(v@[i as int] == g.subrange(k, g.len() as int)[0]);
            assert(g.subrange(0, k + 1).drop_last() =~= g.subrange(0, k));
            assert(g.subrange(0, k + 1).last() == g[k]);
        }
        if v[i].campaign_id == *cid {
            let ghost pre = v@;
            let _ = v.remove(i);
            proof {
                assert(maps_without_campaign(g.subrange(0, k + 1), cid@) =~= maps_without_campaign(
                    g.subrange(0, k),
                    cid@,
                ));
                assert(v@ =~= maps_without_campaign(g.subrange(0, k + 1), cid@) + g.subrange(
                    k + 1,
                    g.len() as int,
                ));
                assert forall|a: int, b: int|
                    0 <= a < b < v@.len() implies v@[a].id@ != v@[b].id@ by {
                    if i <= a {
                        assert(v@[a] == pre[a + 1]);
                    }
                    if i <= b {
                        assert(v@[b] == pre[b + 1]);
                    }
                }
                k = k + 1;
            }
        } else {
            i = i + 1;
            proof {
                assert(maps_without_campaign(g.subrange(0, k + 1), cid@) =~= maps_without_campaign(
                    g.subrange(0, k),
                    cid@,
                ).push(g[k]));
                assert(v@ =~= maps_without_campaign(g.subrange(0, k + 1), cid@) + g.subrange(
                    k + 1,
                    g.len() as int,
                ));
                k = k + 1;
            }
        }
    }
    proof {
        assert(g.subrange(0, k) =~= g);
        assert(v@ =~= maps_without_campaign(g, cid@));
    }
}

fn retain_assets_not_id(v: &mut Vec<Asset>, id: &String)
    requires
        asset_ids_unique(old(v)@),
    ensures
        final(v)@ == assets_without(old(v)@, id@),
        asset_ids_unique(final(v)@),
{
    let ghost g = v@;
    let mut i: usize = 0;
    let ghost mut k: int = 0;
    while i < v.len()
        invariant
            0 <= k <= g.len(),
            i <= v.len(),
            i as int == assets_without(g.subrange(0, k), id@).len(),
            v@ =~= assets_without(g.subrange(0, k), id@) + g.subrange(k, g.len() as int),
            asset_ids_unique(v@),
        decreases g.len() - k,
    {
        proof {
            assert(v@[i as int] == g.subrange(k, g.len() as int)[0]);
            assert(g.subrange(0, k + 1).drop_last() =~= g.subrange(0, k));
            assert(g.subrange(0, k + 1).last() == g[k]);
        }
        if v[i].id == *id {
            let ghost pre = v@;
            let _ = v.remove(i);
            proof {
                assert(assets_without(g.subrange(0, k + 1), id@) =~= assets_without(
                    g.subrange(0, k),
                    id@,
                ));
                assert(v@ =~= assets_without(g.subrange(0, k + 1), id@) + g.subrange(
                    k + 1,
                    g.len() as int,
                ));
                assert forall|a: int, b: int|
                    0 <= a < b < v@.len() implies v@[a].id@ != v@[b].id@ by {
                    if i <= a {
                        assert(v@[a] == pre[a + 1]);
                    }
                    if i <= b {
                        assert(v@[b] == pre[b + 1]);
                    }
                }
                k = k + 1;
            }
        } else {
            i = i + 1;
            proof {
                assert(assets_without(g.subrange(0, k + 1), id@) =~= assets_without(
                    g.subrange(0, k),
                    id@,
                ).push(g[k]));
                assert(v@ =~= assets_without(g.subrange(0, k + 1), id@) + g.subrange(
                    k + 1,
                    g.len() as int,
                ));
                k = k + 1;
            }
        }
    }
    proof {
        assert(g.subrange(0, k) =~= g);
        assert(v@ =~= assets_without(g, id@));
    }
}

fn retain_assets_not_of(v: &mut Vec<Asset>, cid: &String)
    requires
        asset_ids_unique(old(v)@),
    ensures
        final(v)@ == assets_without_campaign(old(v)@, cid@),
        asset_ids_unique(final(v)@),
{
    let ghost g = v@;
    let mut i: usize = 0;
    let ghost mut k: int = 0;
    while i < v.len()
        invariant
            0 <= k <= g.len(),
            i <= v.len(),
            i as int == assets_without_campaign(g.subrange(0, k), cid@).len(),
            v@ =~= assets_without_campaign(g.subrange(0, k), cid@) + g.subrange(k, g.len() as int),
            asset_ids_unique(v@),
        decreases g.len() - k,
    {
        proof {
            assert(v@[i as int] == g.subrange(k, g.len() as int)[0]);
            assert(g.subrange(0, k + 1).drop_last() =~= g.subrange(0, k));
            assert(g.subrange(0, k + 1).last() == g[k]);
        }
        let owned_by_cid = match &v[i].campaign_id {
            Option::Some(c) => *c == *cid,
            Option::None => false,
        };
        if owned_by_cid {
            let ghost pre = v@;
            let _ = v.remove(i);
            proof {
                assert(assets_without_campaign(g.subrange(0, k + 1), cid@)
                    =~= assets_without_campaign(g.subrange(0, k), cid@));
                assert(v@ =~= assets_without_campaign(g.subrange(0, k + 1), cid@) + g.subrange(
                    k + 1,
                    g.len() as int,
                ));
                assert forall|a: int, b: int|
                    0 <= a < b < v@.len() implies v@[a].id@ != v@[b].id@ by {
                    if i <= a {
                        assert(v@[a] == pre[a + 1]);
                    }
                    if i <= b {
                        assert(v@[b] == pre[b + 1]);
                    }
                }
                k = k + 1;
            }
        } else {
            i = i + 1;
            proof {
                assert(assets_without_campaign(g.subrange(0, k + 1), cid@)
                    =~= assets_without_campaign(g.subrange(0, k), cid@).push(g[k]));
                assert(v@ =~= assets_without_campaign(g.subrange(0, k + 1), cid@) + g.subrange(
                    k + 1,
                    g.len() as int,
                ));
                k = k + 1;
            }
        }
    }
    proof {
        assert(g.subrange(0, k) =~= g);
        assert(v@ =~= assets_without_campaign(g, cid@));
    }
}

// =========================================================================
// The store
// =========================================================================

pub struct EntityStore {
    pub campaigns: Vec<Campaign>,
    pub characters: Vec<Character>,
    pub maps: Vec<GameMap>,
    pub assets: Vec<Asset>,
}

impl EntityStore {
    /// Well-formedness: ids are unique within each kind of record.
    pub open spec fn wf(&self) -> bool {
        &&& campaign_ids_unique(self.campaigns@)
        &&& character_ids_unique(self.characters@)
        &&& map_ids_unique(self.maps@)
        &&& asset_ids_unique(self.assets@)
    }

    pub fn new() -> (s: Self)
        ensures
            s.wf(),
            s.campaigns@ =~= Seq::<Campaign>::empty(),
            s.characters@ =~= Seq::<Character>::empty(),
            s.maps@ =~= Seq::<GameMap>::empty(),
            s.assets@ =~= Seq::<Asset>::empty(),
    {
        EntityStore {
            campaigns: Vec::new(),
            characters: Vec::new(),
            maps: Vec::new(),
            assets: Vec::new(),
        }
    }

    // ---------------------------------------------------------------------
    // Campaigns
    // ---------------------------------------------------------------------

    /// The deterministic heart of campaign creation: inserts a record under
    /// the given id with both timestamps set to `now`, and fails with
    /// `Conflict` exactly when the id is already taken.
    pub fn insert_campaign(&mut self, id: String, now: i64, data: CreateCampaignData) -> (r:
        AppResult<String>)
        requires
            old(self).wf(),
        ensures
            final(self).wf(),
            final(self).characters@ == old(self).characters@,
            final(self).maps@ == old(self).maps@,
            final(self).assets@ == old(self).assets@,
            has_campaign(old(self).campaigns@, id@) ==> r == AppResult::<String>::Err(
                AppError::Conflict,
            ) && final(self).campaigns@ == old(self).campaigns@,
            !has_campaign(old(self).campaigns@, id@) ==> {
                &&& r matches Result::Ok(rid) && rid@ == id@
                &&& final(self).campaigns@ == old(self).campaigns@.push(
                    final(self).campaigns@.last(),
                )
                &&& {
                    let c = final(self).campaigns@.last();
                    &&& c.id@ == id@
                    &&& c.name == data.name
                    &&& c.description == data.description
                    &&& c.dm_name == data.dm_name
                    &&& c.settings == data.settings
                    &&& c.created_at == now
                    &&& c.updated_at == now
                    &&& c.is_active == true
                }
            },
    {
        if let Option::Some(_i) = campaign_index(&self.campaigns, &id) {
            return Result::Err(AppError::Conflict);
        }
        let out = id.clone();
        let record = Campaign {
            id,
            name: data.name,
            description: data.description,
            dm_name: data.dm_name,
            settings: data.settings,
            created_at: now,
            updated_at: now,
            is_active: true,
        };
        self.campaigns.push(record);
        Result::Ok(out)
    }

    /// Creates a campaign under a fresh random id, stamped with the current
    /// time. Fails with `Conflict` only if the drawn id is already taken.
    pub fn create_campaign(&mut self, data: CreateCampaignData) -> (r: AppResult<String>)
        requires
            old(self).wf(),
        ensures
            final(self).wf(),
            final(self).characters@ == old(self).characters@,
            final(self).maps@ == old(self).maps@,
            final(self).assets@ == old(self).assets@,
            match r {
                Result::Ok(rid) => {
                    &&& final(self).campaigns@ == old(self).campaigns@.push(
                        final(self).campaigns@.last(),
                    )
                    &&& {
                        let c = final(self).campaigns@.last();
                        &&& c.id@ == rid@
                        &&& !has_campaign(old(self).campaigns@, rid@)
                        &&& c.name == data.name
                        &&& c.description == data.description
                        &&& c.dm_name == data.dm_name
                        &&& c.settings == data.settings
                        &&& c.created_at == c.updated_at
                        &&& c.is_active == true
                    }
                },
                Result::Err(e) => e == AppError::Conflict && final(self).campaigns@ == old(
                    self,
                ).campaigns@,
            },
    {
        let id = ext::new_uuid();
        let now = ext::now_millis();
        self.insert_campaign(id, now, data)
    }

    /// Every campaign record, most recently updated first, as the
    /// session browser lists them.
    pub fn get_all_campaigns(&self) -> (r: Vec<&Campaign>)
        ensures
            r@.map_values(|c: &Campaign| *c).to_multiset() == self.campaigns@.to_multiset(),
            forall|i: int, j: int| 0 <= i < j < r@.len() ==> r@[i].updated_at >= r@[j].updated_at,
    {
        let mut refs: Vec<&Campaign> = Vec::new();
        let mut i: usize = 0;
        while i < self.campaigns.len()
            invariant
                i <= self.campaigns@.len(),
                refs@.map_values(|c: &Campaign| *c) =~= self.campaigns@.subrange(0, i as int),
            decreases self.campaigns@.len() - i,
        {
            refs.push(&self.campaigns[i]);
            proof {
                assert(self.campaigns@.subrange(0, i + 1) =~= self.campaigns@.subrange(
                    0,
                    i as int,
                ).push(self.campaigns@[i as int]));
                assert(refs@.map_values(|c: &Campaign| *c) =~= self.campaigns@.subrange(0, i + 1));
            }
            i = i + 1;
        }
        proof {
            assert(self.campaigns@.subrange(0, self.campaigns@.len() as int) =~= self.campaigns@);
        }
        sort_campaigns_newest_first(refs)
    }

    /// The campaign with the given id, if the store holds one.
    pub fn get_campaign(&self, campaign_id: &String) -> (r: Option<&Campaign>)
        ensures
            match r {
                Option::Some(c) => c.id@ == campaign_id@ && exists|i: int|
                    0 <= i < self.campaigns@.len() && self.campaigns@[i] == *c,
                Option::None => !has_campaign(self.campaigns@, campaign_id@),
            },
    {
        match campaign_index(&self.campaigns, campaign_id) {
            Option::Some(i) => Option::Some(&self.campaigns[i]),
            Option::None => Option::None,
        }
    }

    /// Applies a sparse campaign patch at a given time: only the listed
    /// fields mutate, `updated_at` is stamped unconditionally, and every
    /// other record is untouched.
    pub fn apply_campaign_patch(
        &mut self,
        campaign_id: &String,
        data: UpdateCampaignRequest,
        now: i64,
    ) -> (r: AppResult<()>)
        requires
            old(self).wf(),
        ensures
            final(self).wf(),
            final(self).characters@ == old(self).characters@,
            final(self).maps@ == old(self).maps@,
            final(self).assets@ == old(self).assets@,
            final(self).campaigns@.len() == old(self).campaigns@.len(),
            forall|j: int|
                0 <= j < old(self).campaigns@.len() ==> final(self).campaigns@[j] == (if old(
                    self,
                ).campaigns@[j].id@ == campaign_id@ {
                    patched_campaign(old(self).campaigns@[j], data, now)
                } else {
                    old(self).campaigns@[j]
                }),
            has_campaign(old(self).campaigns@, campaign_id@) ==> r == AppResult::<()>::Ok(()),
            !has_campaign(old(self).campaigns@, campaign_id@) ==> r == AppResult::<()>::Err(
                AppError::NotFound,
            ),
    {
        match campaign_index(&self.campaigns, campaign_id) {
            Option::None => Result::Err(AppError::NotFound),
            Option::Some(i) => {
                let mut c = self.campaigns.remove(i);
                let UpdateCampaignRequest { name, description, settings } = data;
                match name {
                    Option::Some(n) => {
                        c.name = n;
                    },
                    Option::None => {},
                }
                match description {
                    Option::Some(d) => {
                        c.description = Option::Some(d);
                    },
                    Option::None => {},
                }
                match settings {
                    Option::Some(s) => {
                        c.settings = s;
                    },
                    Option::None => {},
                }
                c.updated_at = now;
                self.campaigns.insert(i, c);
                proof {
                    assert(final(self).campaigns@ =~= old(self).campaigns@.update(
                        i as int,
                        patched_campaign(old(self).campaigns@[i as int], data, now),
                    ));
                }
                Result::Ok(())
            },
        }
    }

    /// Applies a sparse campaign patch stamped with the current time.
    pub fn update_campaign(&mut self, campaign_id: String, data: UpdateCampaignRequest) -> (r:
        AppResult<()>)
        requires
            old(self).wf(),
        ensures
            final(self).wf(),
            final(self).characters@ == old(self).characters@,
            final(self).maps@ == old(self).maps@,
            final(self).assets@ == old(self).assets@,
            final(self).campaigns@.len() == old(self).campaigns@.len(),
            forall|j: int|
                0 <= j < old(self).campaigns@.len() ==> final(self).campaigns@[j] == (if old(
                    self,
                ).campaigns@[j].id@ == campaign_id@ {
                    patched_campaign(
                        old(self).campaigns@[j],
                        data,
                        final(self).campaigns@[j].updated_at,
                    )
                } else {
                    old(self).campaigns@[j]
                }),
            has_campaign(old(self).campaigns@, campaign_id@) ==> r == AppResult::<()>::Ok(()),
            !has_campaign(old(self).campaigns@, campaign_id@) ==> r == AppResult::<()>::Err(
                AppError::NotFound,
            ),
    {
        let now = ext::now_millis();
        self.apply_campaign_patch(&campaign_id, data, now)
    }

    // ---------------------------------------------------------------------
    // Characters
    // ---------------------------------------------------------------------

    /// The deterministic heart of character creation: inserts a record
    /// under the given id, with empty combat stats, skills, equipment,
    /// spell list, feature list and notes, and fails with `Conflict`
    /// exactly when the id is already taken.
    pub fn insert_character(&mut self, id: String, now: i64, data: CreateCharacterRequest) -> (r:
        AppResult<String>)
        requires
            old(self).wf(),
        ensures
            final(self).wf(),
            final(self).campaigns@ == old(self).campaigns@,
            final(self).maps@ == old(self).maps@,
            final(self).assets@ == old(self).assets@,
            has_character(old(self).characters@, id@) ==> r == AppResult::<String>::Err(
                AppError::Conflict,
            ) && final(self).characters@ == old(self).characters@,
            !has_character(old(self).characters@, id@) ==> {
                &&& r matches Result::Ok(rid) && rid@ == id@
                &&& final(self).characters@ == old(self).characters@.push(
                    final(self).characters@.last(),
                )
                &&& {
                    let c = final(self).characters@.last();
                    &&& c.id@ == id@
                    &&& fresh_character_record(c, data)
                    &&& c.created_at == now
                    &&& c.updated_at == now
                }
            },
    {
        if let Option::Some(_i) = character_index(&self.characters, &id) {
            return Result::Err(AppError::Conflict);
        }
        let out = id.clone();
        let record = Character {
            id,
            campaign_id: data.campaign_id,
            name: data.name,
            player_name: data.player_name,
            character_class: data.character_class,
            level: data.level,
            race: data.race,
            background: data.background,
            stats: data.stats,
            combat_stats: CombatStats::default(),
            skills: Skills::default(),
            equipment: Equipment::default(),
            spells: Vec::new(),
            features: Vec::new(),
            notes: String::new(),
            avatar_url: Option::None,
            is_npc: data.is_npc,
            created_at: now,
            updated_at: now,
        };
        self.characters.push(record);
        Result::Ok(out)
    }

    /// Creates a character under a fresh random id, stamped with the
    /// current time. Fails with `Conflict` only if the drawn id is taken.
    pub fn create_character(&mut self, data: CreateCharacterRequest) -> (r: AppResult<String>)
        requires
            old(self).wf(),
        ensures
            final(self).wf(),
            final(self).campaigns@ == old(self).campaigns@,
            final(self).maps@ == old(self).maps@,
            final(self).assets@ == old(self).assets@,
            match r {
                Result::Ok(rid) => {
                    &&& final(self).characters@ == old(self).characters@.push(
                        final(self).characters@.last(),
                    )
                    &&& {
                        let c = final(self).characters@.last();
                        &&& c.id@ == rid@
                        &&& !has_character(old(self).characters@, rid@)
                        &&& fresh_character_record(c, data)
                    }
                },
                Result::Err(e) => e == AppError::Conflict && final(self).characters@ == old(
                    self,
                ).characters@,
            },
    {
        let id = ext::new_uuid();
        let now = ext::now_millis();
        self.insert_character(id, now, data)
    }

    /// The characters of one campaign, sorted by name in the name order.
    pub fn get_characters(&self, campaign_id: &String) -> (r: Vec<&Character>)
        ensures
            r@.map_values(|c: &Character| *c).to_multiset() == characters_of_campaign(
                self.characters@,
                campaign_id@,
            ).to_multiset(),
            forall|i: int, j: int|
                0 <= i < j < r@.len() ==> str_le(#[trigger] r@[i].name@, #[trigger] r@[j].name@),
    {
        let ghost g = self.characters@;
        let mut out: Vec<&Character> = Vec::new();
        let mut i: usize = 0;
        while i < self.characters.len()
            invariant
                i <= g.len(),
                g == self.characters@,
                out@.map_values(|c: &Character| *c) =~= characters_of_campaign(
                    g.subrange(0, i as int),
                    campaign_id@,
                ),
            decreases g.len() - i,
        {
            proof {
                assert(g.subrange(0, i + 1).drop_last() =~= g.subrange(0, i as int));
                assert(g.subrange(0, i + 1).last() == g[i as int]);
            }
            if self.characters[i].campaign_id == *campaign_id {
                out.push(&self.characters[i]);
            }
            proof {
                assert(out@.map_values(|c: &Character| *c) =~= characters_of_campaign(
                    g.subrange(0, i + 1),
                    campaign_id@,
                ));
            }
            i = i + 1;
        }
        proof {
            assert(g.subrange(0, g.len() as int) =~= g);
        }
        sort_characters_by_name(out)
    }

    /// The coherent behaviour of the campaign-character lookup: the same
    /// records as `get_characters`.
    pub fn get_characters_for_campaign(&self, campaign_id: &String) -> (r: Vec<&Character>)
        ensures
            r@.map_values(|c: &Character| *c).to_multiset() == characters_of_campaign(
                self.characters@,
                campaign_id@,
            ).to_multiset(),
            forall|i: int, j: int|
                0 <= i < j < r@.len() ==> str_le(#[trigger] r@[i].name@, #[trigger] r@[j].name@),
    {
        self.get_characters(campaign_id)
    }

    /// The character with the given id, if the store holds one.
    pub fn get_character(&self, character_id: &String) -> (r: Option<&Character>)
        ensures
            match r {
                Option::Some(c) => c.id@ == character_id@ && exists|i: int|
                    0 <= i < self.characters@.len() && self.characters@[i] == *c,
                Option::None => !has_character(self.characters@, character_id@),
            },
    {
        match character_index(&self.characters, character_id) {
            Option::Some(i) => Option::Some(&self.characters[i]),
            Option::None => Option::None,
        }
    }

    /// Applies a sparse character patch at a given time: each listed block
    /// replaces its old value whole; sibling blocks are never clobbered.
    pub fn apply_character_patch(
        &mut self,
        character_id: &String,
        data: UpdateCharacterRequest,
        now: i64,
    ) -> (r: AppResult<()>)
        requires
            old(self).wf(),
        ensures
            final(self).wf(),
            final(self).campaigns@ == old(self).campaigns@,
            final(self).maps@ == old(self).maps@,
            final(self).assets@ == old(self).assets@,
            final(self).characters@.len() == old(self).characters@.len(),
            forall|j: int|
                0 <= j < old(self).characters@.len() ==> final(self).characters@[j] == (if old(
                    self,
                ).characters@[j].id@ == character_id@ {
                    patched_character(old(self).characters@[j], data, now)
                } else {
                    old(self).characters@[j]
                }),
            has_character(old(self).characters@, character_id@) ==> r == AppResult::<()>::Ok(()),
            !has_character(old(self).characters@, character_id@) ==> r == AppResult::<()>::Err(
                AppError::NotFound,
            ),
    {
        match character_index(&self.characters, character_id) {
            Option::None => Result::Err(AppError::NotFound),
            Option::Some(i) => {
                let mut c = self.characters.remove(i);
                let UpdateCharacterRequest { name, level, stats, combat_stats, equipment, notes } =
                    data;
                match name {
                    Option::Some(n) => {
                        c.name = n;
                    },
                    Option::None => {},
                }
                match level {
                    Option::Some(l) => {
                        c.level = l;
                    },
                    Option::None => {},
                }
                match stats {
                    Option::Some(s) => {
                        c.stats = s;
                    },
                    Option::None => {},
                }
                match combat_stats {
                    Option::Some(s) => {
                        c.combat_stats = s;
                    },
                    Option::None => {},
                }
                match equipment {
                    Option::Some(e) => {
                        c.equipment = e;
                    },
                    Option::None => {},
                }
                match notes {
                    Option::Some(n) => {
                        c.notes = n;
                    },
                    Option::None => {},
                }
                c.updated_at = now;
                self.characters.insert(i, c);
                proof {
                    assert(final(self).characters@ =~= old(self).characters@.update(
                        i as int,
                        patched_character(old(self).characters@[i as int], data, now),
                    ));
                }
                Result::Ok(())
            },
        }
    }

    /// Applies a sparse character patch stamped with the current time.
    pub fn update_character(&mut self, character_id: &String, data: UpdateCharacterRequest) -> (r:
        AppResult<()>)
        requires
            old(self).wf(),
        ensures
            final(self).wf(),
            final(self).campaigns@ == old(self).campaigns@,
            final(self).maps@ == old(self).maps@,
            final(self).assets@ == old(self).assets@,
            final(self).characters@.len() == old(self).characters@.len(),
            forall|j: int|
                0 <= j < old(self).characters@.len() ==> final(self).characters@[j] == (if old(
                    self,
                ).characters@[j].id@ == character_id@ {
                    patched_character(
                        old(self).characters@[j],
                        data,
                        final(self).characters@[j].updated_at,
                    )
                } else {
                    old(self).characters@[j]
                }),
            has_character(old(self).characters@, character_id@) ==> r == AppResult::<()>::Ok(()),
            !has_character(old(self).characters@, character_id@) ==> r == AppResult::<()>::Err(
                AppError::NotFound,
            ),
    {
        let now = ext::now_millis();
        self.apply_character_patch(character_id, data, now)
    }

    /// Deletes one character. Fails with `NotFound` when no such record
    /// exists, leaving the store untouched.
    pub fn delete_character(&mut self, character_id: &String) -> (r: AppResult<()>)
        requires
            old(self).wf(),
        ensures
            final(self).wf(),
            final(self).campaigns@ == old(self).campaigns@,
            final(self).maps@ == old(self).maps@,
            final(self).assets@ == old(self).assets@,
            !has_character(old(self).characters@, character_id@) ==> r == AppResult::<()>::Err(
                AppError::NotFound,
            ) && final(self).characters@ == old(self).characters@,
            has_character(old(self).characters@, character_id@) ==> r == AppResult::<()>::Ok(())
                && final(self).characters@ == characters_without(
                old(self).characters@,
                character_id@,
            ),
    {
        match character_index(&self.characters, character_id) {
            Option::None => Result::Err(AppError::NotFound),
            Option::Some(_i) => {
                retain_characters_not_id(&mut self.characters, character_id);
                Result::Ok(())
            },
        }
    }

    // ---------------------------------------------------------------------
    // Maps
    // ---------------------------------------------------------------------

    /// The deterministic heart of map creation: inserts a record under the
    /// given id with an empty token set and no fog, and fails with
    /// `Conflict` exactly when the id is already taken.
    pub fn insert_map(&mut self, id: String, now: i64, data: CreateMapRequest) -> (r: AppResult<
        String,
    >)
        requires
            old(self).wf(),
        ensures
            final(self).wf(),
            final(self).campaigns@ == old(self).campaigns@,
            final(self).characters@ == old(self).characters@,
            final(self).assets@ == old(self).assets@,
            has_map(old(self).maps@, id@) ==> r == AppResult::<String>::Err(AppError::Conflict)
                && final(self).maps@ == old(self).maps@,
            !has_map(old(self).maps@, id@) ==> {
                &&& r matches Result::Ok(rid) && rid@ == id@
                &&& final(self).maps@ == old(self).maps@.push(final(self).maps@.last())
                &&& {
                    let m = final(self).maps@.last();
                    &&& m.id@ == id@
                    &&& m.campaign_id == data.campaign_id
                    &&& m.name == data.name
                    &&& m.description == data.description
                    &&& m.image_url == data.image_url
                    &&& m.grid_size == data.grid_size
                    &&& m.width == data.width
                    &&& m.height == data.height
                    &&& m.tokens@ =~= Seq::<Token>::empty()
                    &&& m.fog_of_war is None
                    &&& m.created_at == now
                    &&& m.updated_at == now
                }
            },
    {
        if let Option::Some(_i) = map_index(&self.maps, &id) {
            return Result::Err(AppError::Conflict);
        }
        let out = id.clone();
        let record = GameMap {
            id,
            campaign_id: data.campaign_id,
            name: data.name,
            description: data.description,
            image_url: data.image_url,
            grid_size: data.grid_size,
            width: data.width,
            height: data.height,
            tokens: Vec::new(),
            fog_of_war: Option::None,
            created_at: now,
            updated_at: now,
        };
        self.maps.push(record);
        Result::Ok(out)
    }

    /// Creates a map under a fresh random id, stamped with the current
    /// time. Fails with `Conflict` only if the drawn id is already taken.
    pub fn create_map(&mut self, data: CreateMapRequest) -> (r: AppResult<String>)
        requires
            old(self).wf(),
        ensures
            final(self).wf(),
            final(self).campaigns@ == old(self).campaigns@,
            final(self).characters@ == old(self).characters@,
            final(self).assets@ == old(self).assets@,
            match r {
                Result::Ok(rid) => {
                    &&& final(self).maps@ == old(self).maps@.push(final(self).maps@.last())
                    &&& {
                        let m = final(self).maps@.last();
                        &&& m.id@ == rid@
                        &&& !has_map(old(self).maps@, rid@)
                        &&& m.campaign_id == data.campaign_id
                        &&& m.name == data.name
                        &&& m.grid_size == data.grid_size
                        &&& m.width == data.width
                        &&& m.height == data.height
                        &&& m.tokens@ =~= Seq::<Token>::empty()
                        &&& m.fog_of_war is None
                        &&& m.created_at == m.updated_at
                    }
                },
                Result::Err(e) => e == AppError::Conflict && final(self).maps@ == old(self).maps@,
            },
    {
        let id = ext::new_uuid();
        let now = ext::now_millis();
        self.insert_map(id, now, data)
    }

    /// The maps of one campaign, sorted by name in the name order.
    pub fn get_maps(&self, campaign_id: &String) -> (r: Vec<&GameMap>)
        ensures
            r@.map_values(|m: &GameMap| *m).to_multiset() == maps_of_campaign(
                self.maps@,
                campaign_id@,
            ).to_multiset(),
            forall|i: int, j: int|
                0 <= i < j < r@.len() ==> str_le(#[trigger] r@[i].name@, #[trigger] r@[j].name@),
    {
        let ghost g = self.maps@;
        let mut out: Vec<&GameMap> = Vec::new();
        let mut i: usize = 0;
        while i < self.maps.len()
            invariant
                i <= g.len(),
                g == self.maps@,
                out@.map_values(|m: &GameMap| *m) =~= maps_of_campaign(
                    g.subrange(0, i as int),
                    campaign_id@,
                ),
            decreases g.len() - i,
        {
            proof {
                assert(g.subrange(0, i + 1).drop_last() =~= g.subrange(0, i as int));
                assert(g.subrange(0, i + 1).last() == g[i as int]);
            }
            if self.maps[i].campaign_id == *campaign_id {
                out.push(&self.maps[i]);
            }
            proof {
                assert(out@.map_values(|m: &GameMap| *m) =~= maps_of_campaign(
                    g.subrange(0, i + 1),
                    campaign_id@,
                ));
            }
            i = i + 1;
        }
        proof {
            assert(g.subrange(0, g.len() as int) =~= g);
        }
        sort_maps_by_name(out)
    }

    /// The map with the given id, if the store holds one.
    pub fn get_map(&self, map_id: &String) -> (r: Option<&GameMap>)
        ensures
            match r {
                Option::Some(m) => m.id@ == map_id@ && exists|i: int|
                    0 <= i < self.maps@.len() && self.maps@[i] == *m,
                Option::None => !has_map(self.maps@, map_id@),
            },
    {
        match map_index(&self.maps, map_id) {
            Option::Some(i) => Option::Some(&self.maps[i]),
            Option::None => Option::None,
        }
    }

    /// Replaces a map's live state — its token set and fog — at a given
    /// time, atomically; every other field and record is untouched.
    pub fn set_map_state(
        &mut self,
        map_id: &String,
        tokens: Vec<Token>,
        fog_of_war: Option<FogOfWar>,
        now: i64,
    ) -> (r: AppResult<()>)
        requires
            old(self).wf(),
        ensures
            final(self).wf(),
            final(self).campaigns@ == old(self).campaigns@,
            final(self).characters@ == old(self).characters@,
            final(self).assets@ == old(self).assets@,
            final(self).maps@.len() == old(self).maps@.len(),
            forall|j: int|
                0 <= j < old(self).maps@.len() ==> final(self).maps@[j] == (if old(
                    self,
                ).maps@[j].id@ == map_id@ {
                    map_with_state(old(self).maps@[j], tokens, fog_of_war, now)
                } else {
                    old(self).maps@[j]
                }),
            has_map(old(self).maps@, map_id@) ==> r == AppResult::<()>::Ok(()),
            !has_map(old(self).maps@, map_id@) ==> r == AppResult::<()>::Err(AppError::NotFound),
    {
        match map_index(&self.maps, map_id) {
            Option::None => Result::Err(AppError::NotFound),
            Option::Some(i) => {
                let mut m = self.maps.remove(i);
                m.tokens = tokens;
                m.fog_of_war = fog_of_war;
                m.updated_at = now;
                self.maps.insert(i, m);
                proof {
                    assert(final(self).maps@ =~= old(self).maps@.update(
                        i as int,
                        map_with_state(old(self).maps@[i as int], tokens, fog_of_war, now),
                    ));
                }
                Result::Ok(())
            },
        }
    }

    /// Replaces a map's live state, stamped with the current time.
    pub fn save_map_state(
        &mut self,
        map_id: &String,
        tokens: Vec<Token>,
        fog_of_war: Option<FogOfWar>,
    ) -> (r: AppResult<()>)
        requires
            old(self).wf(),
        ensures
            final(self).wf(),
            final(self).campaigns@ == old(self).campaigns@,
            final(self).characters@ == old(self).characters@,
            final(self).assets@ == old(self).assets@,
            final(self).maps@.len() == old(self).maps@.len(),
            forall|j: int|
                0 <= j < old(self).maps@.len() ==> final(self).maps@[j] == (if old(
                    self,
                ).maps@[j].id@ == map_id@ {
                    map_with_state(
                        old(self).maps@[j],
                        tokens,
                        fog_of_war,
                        final(self).maps@[j].updated_at,
                    )
                } else {
                    old(self).maps@[j]
                }),
            has_map(old(self).maps@, map_id@) ==> r == AppResult::<()>::Ok(()),
            !has_map(old(self).maps@, map_id@) ==> r == AppResult::<()>::Err(AppError::NotFound),
    {
        let now = ext::now_millis();
        self.set_map_state(map_id, tokens, fog_of_war, now)
    }

    // ---------------------------------------------------------------------
    // Assets
    // ---------------------------------------------------------------------

    /// The deterministic heart of asset import: records a reference to an
    /// already-stored file under the given id, and fails with `Conflict`
    /// exactly when the id is already taken.
    pub fn insert_asset(
        &mut self,
        id: String,
        now: i64,
        campaign_id: Option<String>,
        name: String,
        file_path: String,
        asset_type: AssetType,
        file_size: i64,
        mime_type: String,
        tags: Vec<String>,
    ) -> (r: AppResult<String>)
        requires
            old(self).wf(),
        ensures
            final(self).wf(),
            final(self).campaigns@ == old(self).campaigns@,
            final(self).characters@ == old(self).characters@,
            final(self).maps@ == old(self).maps@,
            has_asset(old(self).assets@, id@) ==> r == AppResult::<String>::Err(AppError::Conflict)
                && final(self).assets@ == old(self).assets@,
            !has_asset(old(self).assets@, id@) ==> {
                &&& r matches Result::Ok(rid) && rid@ == id@
                &&& final(self).assets@ == old(self).assets@.push(final(self).assets@.last())
                &&& {
                    let a = final(self).assets@.last();
                    &&& a.id@ == id@
                    &&& a.campaign_id == campaign_id
                    &&& a.name == name
                    &&& a.file_path == file_path
                    &&& a.asset_type == asset_type
                    &&& a.file_size == file_size
                    &&& a.mime_type == mime_type
                    &&& a.tags == tags
                    &&& a.created_at == now
                }
            },
    {
        if let Option::Some(_i) = asset_index(&self.assets, &id) {
            return Result::Err(AppError::Conflict);
        }
        let out = id.clone();
        let record = Asset {
            id,
            campaign_id,
            name,
            file_path,
            asset_type,
            file_size,
            mime_type,
            tags,
            created_at: now,
        };
        self.assets.push(record);
        Result::Ok(out)
    }

    /// Records an asset under a fresh random id, stamped with the current
    /// time. Fails with `Conflict` only if the drawn id is already taken.
    pub fn import_asset(
        &mut self,
        campaign_id: Option<String>,
        name: String,
        file_path: String,
        asset_type: AssetType,
        file_size: i64,
        mime_type: String,
        tags: Vec<String>,
    ) -> (r: AppResult<String>)
        requires
            old(self).wf(),
        ensures
            final(self).wf(),
            final(self).campaigns@ == old(self).campaigns@,
            final(self).characters@ == old(self).characters@,
            final(self).maps@ == old(self).maps@,
            match r {
                Result::Ok(rid) => {
                    &&& final(self).assets@ == old(self).assets@.push(final(self).assets@.last())
                    &&& {
                        let a = final(self).assets@.last();
                        &&& a.id@ == rid@
                        &&& !has_asset(old(self).assets@, rid@)
                        &&& a.campaign_id == campaign_id
                        &&& a.name == name
                        &&& a.file_path == file_path
                        &&& a.asset_type == asset_type
                        &&& a.file_size == file_size
                        &&& a.mime_type == mime_type
                        &&& a.tags == tags
                    }
                },
                Result::Err(e) => e == AppError::Conflict && final(self).assets@ == old(
                    self,
                ).assets@,
            },
    {
        let id = ext::new_uuid();
        let now = ext::now_millis();
        self.insert_asset(id, now, campaign_id, name, file_path, asset_type, file_size, mime_type, tags)
    }

    /// The assets a query selects: a campaign's own assets together with
    /// the global ones, or only the global ones, sorted by name in the
    /// name order.
    pub fn get_assets(&self, campaign_id: Option<&String>) -> (r: Vec<&Asset>)
        ensures
            r@.map_values(|a: &Asset| *a).to_multiset() == assets_visible(
                self.assets@,
                query_view(campaign_id),
            ).to_multiset(),
            forall|i: int, j: int|
                0 <= i < j < r@.len() ==> str_le(#[trigger] r@[i].name@, #[trigger] r@[j].name@),
    {
        let ghost q = query_view(campaign_id);
        let ghost g = self.assets@;
        let mut out: Vec<&Asset> = Vec::new();
        let mut i: usize = 0;
        while i < self.assets.len()
            invariant
                i <= g.len(),
                g == self.assets@,
                q == query_view(campaign_id),
                out@.map_values(|a: &Asset| *a) =~= assets_visible(g.subrange(0, i as int), q),
            decreases g.len() - i,
        {
            proof {
                assert(g.subrange(0, i + 1).drop_last() =~= g.subrange(0, i as int));
                assert(g.subrange(0, i + 1).last() == g[i as int]);
            }
            let visible = match campaign_id {
                Option::Some(cid) => {
                    match &self.assets[i].campaign_id {
                        Option::Some(c) => *c == *cid,
                        Option::None => true,
                    }
                },
                Option::None => {
                    match &self.assets[i].campaign_id {
                        Option::Some(_) => false,
                        Option::None => true,
                    }
                },
            };
            if visible {
                out.push(&self.assets[i]);
            }
            proof {
                assert(out@.map_values(|a: &Asset| *a) =~= assets_visible(g.subrange(0, i + 1), q));
            }
            i = i + 1;
        }
        proof {
            assert(g.subrange(0, g.len() as int) =~= g);
        }
        sort_assets_by_name(out)
    }

    /// Deletes one asset record. Fails with `NotFound` when no such record
    /// exists, leaving the store untouched.
    pub fn delete_asset(&mut self, asset_id: &String) -> (r: AppResult<()>)
        requires
            old(self).wf(),
        ensures
            final(self).wf(),
            final(self).campaigns@ == old(self).campaigns@,
            final(self).characters@ == old(self).characters@,
            final(self).maps@ == old(self).maps@,
            !has_asset(old(self).assets@, asset_id@) ==> r == AppResult::<()>::Err(
                AppError::NotFound,
            ) && final(self).assets@ == old(self).assets@,
            has_asset(old(self).assets@, asset_id@) ==> r == AppResult::<()>::Ok(())
                && final(self).assets@ == assets_without(old(self).assets@, asset_id@),
    {
        match asset_index(&self.assets, asset_id) {
            Option::None => Result::Err(AppError::NotFound),
            Option::Some(_i) => {
                retain_assets_not_id(&mut self.assets, asset_id);
                Result::Ok(())
            },
        }
    }

    /// Deletes a campaign and cascades to its characters, maps and assets;
    /// global assets survive. Fails with `NotFound` when no such campaign
    /// exists, leaving the store untouched.
    pub fn delete_campaign(&mut self, campaign_id: &String) -> (r: AppResult<()>)
        requires
            old(self).wf(),
        ensures
            final(self).wf(),
            !has_campaign(old(self).campaigns@, campaign_id@) ==> {
                &&& r == AppResult::<()>::Err(AppError::NotFound)
                &&& final(self).campaigns@ == old(self).campaigns@
                &&& final(self).characters@ == old(self).characters@
                &&& final(self).maps@ == old(self).maps@
                &&& final(self).assets@ == old(self).assets@
            },
            has_campaign(old(self).campaigns@, campaign_id@) ==> {
                &&& r == AppResult::<()>::Ok(())
                &&& final(self).campaigns@ == campaigns_without(old(self).campaigns@, campaign_id@)
                &&& final(self).characters@ == characters_without_campaign(
                    old(self).characters@,
                    campaign_id@,
                )
                &&& final(self).maps@ == maps_without_campaign(old(self).maps@, campaign_id@)
                &&& final(self).assets@ == assets_without_campaign(old(self).assets@, campaign_id@)
            },
    {
        match campaign_index(&self.campaigns, campaign_id) {
            Option::None => Result::Err(AppError::NotFound),
            Option::Some(_i) => {
                retain_campaigns_not_id(&mut self.campaigns, campaign_id);
                retain_characters_not_of(&mut self.characters, campaign_id);
                retain_maps_not_of(&mut self.maps, campaign_id);
                retain_assets_not_of(&mut self.assets, campaign_id);
                Result::Ok(())
            },
        }
    }
}

} // verus!
