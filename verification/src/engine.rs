//! The command layer the surrounding application drives: campaign,
//! character, map and token operations over one entity store, one session
//! coordinator and one broadcast layer, with an outbound event feed.
//!
//! Every successful mutating command appends a named event carrying the
//! affected id — and, for a move, the new coordinates — to the event feed;
//! the presentation layer drains the feed. The core has no dependency on
//! any particular UI runtime.

use vstd::multiset::Multiset;
use vstd::prelude::*;

use crate::broadcast::{
    Broadcaster, delivered_queue, exclude_view, has_outbox, overflow_ids, queue_view,
};
use crate::errors::{AppError, AppResult};
use crate::map_state::{
    Delta, DeltaView, MapSession, MapState, areas_unique, delta_seq, has_token, moved_tokens,
    token_ids_unique, tokens_without,
};
use crate::models::{
    Campaign, CampaignSettings, Character, ConnectionState, CreateCampaignData,
    CreateCharacterRequest, CreateMapRequest, CreateTokenRequest, FogOfWar, GameMap, GameSystem,
    PeerInfo, PlayerRole, Position, Token, UpdateCampaignRequest, UpdateCharacterRequest,
    default_combat_settings, default_dice_settings, default_variant_rules, tokens_view,
};
use crate::session::{
    MapOp, SessionCoordinator, delta_matches_op, fog_synced, has_session, live_backed_only,
    op_applied, opened_from, record_updated_to, session_backed, session_same, sessions_synced,
    store_maps_wf,
};
use crate::store::{
    EntityStore, campaigns_without, characters_of_campaign, characters_without,
    characters_without_campaign, has_campaign, has_character, has_map, maps_of_campaign,
    maps_without_campaign, assets_without_campaign, lemma_maps_without_campaign_contains,
    patched_campaign, patched_character,
};
use crate::ext;

verus! {

// =========================================================================
// Requests and events
// =========================================================================

/// A campaign creation request as the UI sends it: settings are optional
/// and default when absent.
#[derive(Debug, Clone, PartialEq)]
pub struct CreateCampaignRequest {
    pub name: String,
    pub description: Option<String>,
    pub dm_name: String,
    pub settings: Option<CampaignSettings>,
}

/// Application metadata handed to the surrounding shell.
#[derive(Debug, Clone, PartialEq)]
pub struct AppInfo {
    pub name: String,
    pub version: String,
    pub description: String,
}

/// One merged initiative entry: an externally rolled die plus the
/// character's dexterity modifier.
#[derive(Debug, Clone, PartialEq)]
pub struct InitiativeResult {
    pub character_id: String,
    pub character_name: String,
    pub roll: i32,
    pub modifier: i32,
    pub total: i32,
}

/// One named event for the presentation layer, carrying the affected id.
#[derive(Debug, Clone, PartialEq)]
pub enum AppEvent {
    CampaignCreated { id: String },
    CampaignUpdated { id: String },
    CampaignDeleted { id: String },
    CharacterCreated { id: String },
    CharacterUpdated { id: String },
    CharacterDeleted { id: String },
    MapCreated { id: String },
    MapLoaded { id: String },
    MapSaved { id: String },
    TokenCreated { id: String, map_id: String },
    TokenMoved { id: String, map_id: String, x: i64, y: i64 },
    TokenDeleted { id: String, map_id: String },
    FogRevealed { map_id: String },
    FogReset { map_id: String },
}

/// The event a delta turns into when it is surfaced to the UI.
pub open spec fn event_for_delta(d: DeltaView, map_id: Seq<char>, ev: AppEvent) -> bool {
    match d {
        DeltaView::TokenAdded { token, .. } => ev matches AppEvent::TokenCreated { id, map_id: m }
            && id@ == token.id && m@ == map_id,
        DeltaView::TokenMoved { token_id, position, .. } => ev matches AppEvent::TokenMoved {
            id,
            map_id: m,
            x,
            y,
        } && id@ == token_id && m@ == map_id && x == position.x && y == position.y,
        DeltaView::TokenRemoved { token_id, .. } => ev matches AppEvent::TokenDeleted {
            id,
            map_id: m,
        } && id@ == token_id && m@ == map_id,
        DeltaView::FogRevealed { .. } => ev matches AppEvent::FogRevealed { map_id: m } && m@
            == map_id,
        DeltaView::FogReset { .. } => ev matches AppEvent::FogReset { map_id: m } && m@ == map_id,
    }
}

/// The one character of this id, where the store holds one; ids are
/// unique, so the choice is determined.
pub open spec fn character_named(chars: Seq<Character>, id: Seq<char>) -> Character {
    chars[choose|i: int| 0 <= i < chars.len() && chars[i].id@ == id]
}

/// One merged entry: the externally rolled die, the character's dexterity
/// modifier, and their sum as the total.
pub open spec fn initiative_entry(c: Character, id: String, roll: i32) -> InitiativeResult {
    InitiativeResult {
        character_id: id,
        character_name: c.name,
        roll: roll,
        modifier: crate::models::ability_modifier(c.stats.dexterity as int) as i32,
        total: (roll + crate::models::ability_modifier(c.stats.dexterity as int)) as i32,
    }
}

/// The merged initiative entries, in the order the ids were listed: one
/// per id the store knows, skipping the rest.
pub open spec fn merged_initiative(
    chars: Seq<Character>,
    ids: Seq<String>,
    rolls: Seq<i32>,
) -> Seq<InitiativeResult>
    decreases ids.len(),
{
    if ids.len() == 0 {
        Seq::empty()
    } else {
        let rest = merged_initiative(chars, ids.drop_last(), rolls.drop_last());
        if has_character(chars, ids.last()@) {
            rest.push(initiative_entry(character_named(chars, ids.last()@), ids.last(), rolls.last()))
        } else {
            rest
        }
    }
}

/// Sorts merged initiative entries highest total first: a selection sort
/// that repeatedly pulls a maximum, so the result is a permutation.
fn sort_by_total_desc(v: Vec<InitiativeResult>) -> (r: Vec<InitiativeResult>)
    ensures
        r@.to_multiset() == v@.to_multiset(),
        forall|i: int, j: int| 0 <= i < j < r@.len() ==> r@[i].total >= r@[j].total,
{
    let mut rest = v;
    let mut out: Vec<InitiativeResult> = Vec::new();
    proof {
        broadcast use vstd::seq_lib::group_to_multiset_ensures;
        broadcast use vstd::multiset::group_multiset_axioms;
        broadcast use vstd::multiset::lemma_multiset_empty_len;

        assert(out@.to_multiset().len() == 0);
        assert(out@.to_multiset() =~= Multiset::<InitiativeResult>::empty());
        assert(out@.to_multiset().add(rest@.to_multiset()) =~= rest@.to_multiset());
    }
    while rest.len() > 0
        invariant
            out@.to_multiset().add(rest@.to_multiset()) =~= v@.to_multiset(),
            forall|i: int, j: int| 0 <= i < j < out@.len() ==> out@[i].total >= out@[j].total,
            forall|i: int, j: int|
                0 <= i < out@.len() && 0 <= j < rest@.len() ==> out@[i].total >= rest@[j].total,
        decreases rest@.len(),
    {
        let mut mi: usize = 0;
        let mut t: usize = 1;
        while t < rest.len()
            invariant
                mi < rest@.len(),
                t <= rest@.len(),
                forall|u: int| 0 <= u < t ==> rest@[mi as int].total >= rest@[u].total,
            decreases rest@.len() - t,
        {
            if rest[t].total > rest[mi].total {
                mi = t;
            }
            t = t + 1;
        }
        let ghost pre = rest@;
        let x = rest.remove(mi);
        proof {
            broadcast use vstd::seq_lib::group_to_multiset_ensures;
            broadcast use vstd::multiset::group_multiset_axioms;

            assert(pre[mi as int] == x);
            assert(pre.contains(x));
            assert(pre.to_multiset().count(x) > 0);
            assert(rest@ == pre.remove(mi as int));
            assert(pre.remove(mi as int).to_multiset() =~= pre.to_multiset().remove(
                pre[mi as int],
            ));
        }
        let ghost pre_out = out@;
        out.push(x);
        proof {
            broadcast use vstd::seq_lib::group_to_multiset_ensures;
            broadcast use vstd::multiset::group_multiset_axioms;

            assert(out@ == pre_out.push(x));
            assert(pre_out.push(x).to_multiset() =~= pre_out.to_multiset().insert(x));
            assert(out@.to_multiset().add(rest@.to_multiset()) =~= v@.to_multiset());
        }
    }
    proof {
        broadcast use vstd::seq_lib::group_to_multiset_ensures;
        broadcast use vstd::multiset::group_multiset_axioms;
        broadcast use vstd::multiset::lemma_multiset_empty_len;

        assert(rest@.to_multiset().len() == 0);
        assert(rest@.to_multiset() =~= Multiset::<InitiativeResult>::empty());
        assert(out@.to_multiset() =~= v@.to_multiset());
    }
    out
}

/// After a fan-out, a peer is either untouched or — having fallen behind
/// until its queue overflowed — disconnected, identity and role kept.
pub open spec fn peer_fate(pre: PeerInfo, post: PeerInfo, over: Seq<Seq<char>>) -> bool {
    ||| post == pre
    ||| (post.id == pre.id && post.name == pre.name && post.role == pre.role && post.state
        == ConnectionState::Disconnected && over.contains(pre.id@))
}

// =========================================================================
// The engine
// =========================================================================

/// One running session core: the durable store, the coordinator with its
/// live maps and peers, the broadcast layer, and the outbound event feed.
pub struct Engine {
    pub store: EntityStore,
    pub coord: SessionCoordinator,
    pub net: Broadcaster,
    pub events: Vec<AppEvent>,
}

impl Engine {
    /// Well-formedness: every component is well-formed, and memory and
    /// storage agree on every live map.
    pub open spec fn wf(&self) -> bool {
        &&& self.store.wf()
        &&& self.coord.wf()
        &&& self.net.wf()
        &&& store_maps_wf(self.store.maps@)
        &&& sessions_synced(self.coord.live@, self.store.maps@)
    }

    pub fn new() -> (s: Self)
        ensures
            s.wf(),
            s.store.campaigns@.len() == 0,
            s.store.characters@.len() == 0,
            s.store.maps@.len() == 0,
            s.store.assets@.len() == 0,
            s.coord.peers@.len() == 0,
            s.coord.live@.len() == 0,
            s.net.outboxes@.len() == 0,
            s.events@.len() == 0,
    {
        Engine {
            store: EntityStore::new(),
            coord: SessionCoordinator::new(),
            net: Broadcaster::new(),
            events: Vec::new(),
        }
    }

    // ---------------------------------------------------------------------
    // Campaigns
    // ---------------------------------------------------------------------

    /// Creates a campaign; absent settings default. Emits
    /// `campaign-created` with the new id.
    pub fn create_campaign(&mut self, request: CreateCampaignRequest) -> (r: AppResult<String>)
        requires
            old(self).wf(),
        ensures
            final(self).wf(),
            final(self).store.characters@ == old(self).store.characters@,
            final(self).store.maps@ == old(self).store.maps@,
            final(self).store.assets@ == old(self).store.assets@,
            final(self).coord.peers@ == old(self).coord.peers@,
            final(self).coord.live@ == old(self).coord.live@,
            final(self).net.outboxes@ == old(self).net.outboxes@,
            match r {
                Result::Ok(rid) => {
                    &&& final(self).store.campaigns@ == old(self).store.campaigns@.push(
                        final(self).store.campaigns@.last(),
                    )
                    &&& {
                        let c = final(self).store.campaigns@.last();
                        &&& c.id@ == rid@
                        &&& !has_campaign(old(self).store.campaigns@, rid@)
                        &&& c.name == request.name
                        &&& c.description == request.description
                        &&& c.dm_name == request.dm_name
                        &&& (request.settings matches Option::Some(s) ==> c.settings == s)
                        &&& (request.settings is None ==> c.settings.system == GameSystem::DnD5e
                            && c.settings.house_rules@.len() == 0 && c.settings.variant_rules
                            == default_variant_rules() && c.settings.dice_rolling
                            == default_dice_settings() && c.settings.combat_settings
                            == default_combat_settings())
                        &&& c.is_active == true
                    }
                    &&& final(self).events@ == old(self).events@.push(final(self).events@.last())
                    &&& final(self).events@.last() matches AppEvent::CampaignCreated { id }
                        && id@ == rid@
                },
                Result::Err(e) => {
                    &&& e == AppError::Conflict
                    &&& final(self).store.campaigns@ == old(self).store.campaigns@
                    &&& final(self).events@ == old(self).events@
                },
            },
    {
        let settings = match request.settings {
            Option::Some(s) => s,
            Option::None => CampaignSettings::default(),
        };
        let data = CreateCampaignData {
            name: request.name,
            description: request.description,
            dm_name: request.dm_name,
            settings,
        };
        match self.store.create_campaign(data) {
            Result::Err(e) => Result::Err(e),
            Result::Ok(id) => {
                self.events.push(AppEvent::CampaignCreated { id: id.clone() });
                Result::Ok(id)
            },
        }
    }

    /// Every campaign, most recently updated first.
    pub fn get_campaigns(&self) -> (r: Vec<&Campaign>)
        ensures
            r@.map_values(|c: &Campaign| *c).to_multiset() == self.store.campaigns@.to_multiset(),
            forall|i: int, j: int| 0 <= i < j < r@.len() ==> r@[i].updated_at >= r@[j].updated_at,
    {
        self.store.get_all_campaigns()
    }

    /// The campaign with the given id, if any.
    pub fn get_campaign(&self, campaign_id: &String) -> (r: Option<&Campaign>)
        ensures
            match r {
                Option::Some(c) => c.id@ == campaign_id@ && exists|i: int|
                    0 <= i < self.store.campaigns@.len() && self.store.campaigns@[i] == *c,
                Option::None => !has_campaign(self.store.campaigns@, campaign_id@),
            },
    {
        self.store.get_campaign(campaign_id)
    }

    /// Applies a sparse campaign patch. Emits `campaign-updated` on
    /// success; `NotFound` changes nothing.
    pub fn update_campaign(&mut self, campaign_id: String, request: UpdateCampaignRequest) -> (r:
        AppResult<()>)
        requires
            old(self).wf(),
        ensures
            final(self).wf(),
            final(self).store.characters@ == old(self).store.characters@,
            final(self).store.maps@ == old(self).store.maps@,
            final(self).store.assets@ == old(self).store.assets@,
            final(self).coord.peers@ == old(self).coord.peers@,
            final(self).coord.live@ == old(self).coord.live@,
            final(self).net.outboxes@ == old(self).net.outboxes@,
            final(self).store.campaigns@.len() == old(self).store.campaigns@.len(),
            forall|j: int|
                0 <= j < old(self).store.campaigns@.len() ==> final(self).store.campaigns@[j] == (
                if old(self).store.campaigns@[j].id@ == campaign_id@ {
                    patched_campaign(
                        old(self).store.campaigns@[j],
                        request,
                        final(self).store.campaigns@[j].updated_at,
                    )
                } else {
                    old(self).store.campaigns@[j]
                }),
            has_campaign(old(self).store.campaigns@, campaign_id@) ==> {
                &&& r == AppResult::<()>::Ok(())
                &&& final(self).events@ == old(self).events@.push(final(self).events@.last())
                &&& final(self).events@.last() matches AppEvent::CampaignUpdated { id } && id@
                    == campaign_id@
            },
            !has_campaign(old(self).store.campaigns@, campaign_id@) ==> r == AppResult::<()>::Err(
                AppError::NotFound,
            ) && final(self).events@ == old(self).events@,
    {
        let id_copy = campaign_id.clone();
        match self.store.update_campaign(campaign_id, request) {
            Result::Err(e) => Result::Err(e),
            Result::Ok(()) => {
                self.events.push(AppEvent::CampaignUpdated { id: id_copy });
                Result::Ok(())
            },
        }
    }

    /// Deletes a campaign, cascading to its characters, maps and assets,
    /// and closes any live session of a deleted map. Emits
    /// `campaign-deleted` on success.
    pub fn delete_campaign(&mut self, campaign_id: &String) -> (r: AppResult<()>)
        requires
            old(self).wf(),
        ensures
            final(self).wf(),
            final(self).coord.peers@ == old(self).coord.peers@,
            final(self).net.outboxes@ == old(self).net.outboxes@,
            !has_campaign(old(self).store.campaigns@, campaign_id@) ==> {
                &&& r == AppResult::<()>::Err(AppError::NotFound)
                &&& final(self).store.campaigns@ == old(self).store.campaigns@
                &&& final(self).store.characters@ == old(self).store.characters@
                &&& final(self).store.maps@ == old(self).store.maps@
                &&& final(self).store.assets@ == old(self).store.assets@
                &&& final(self).coord.live@ == old(self).coord.live@
                &&& final(self).events@ == old(self).events@
            },
            has_campaign(old(self).store.campaigns@, campaign_id@) ==> {
                &&& r == AppResult::<()>::Ok(())
                &&& final(self).store.campaigns@ == campaigns_without(
                    old(self).store.campaigns@,
                    campaign_id@,
                )
                &&& final(self).store.characters@ == characters_without_campaign(
                    old(self).store.characters@,
                    campaign_id@,
                )
                &&& final(self).store.maps@ == maps_without_campaign(
                    old(self).store.maps@,
                    campaign_id@,
                )
                &&& final(self).store.assets@ == assets_without_campaign(
                    old(self).store.assets@,
                    campaign_id@,
                )
                &&& final(self).coord.live@ == live_backed_only(
                    old(self).coord.live@,
                    final(self).store.maps@,
                )
                &&& final(self).events@ == old(self).events@.push(final(self).events@.last())
                &&& final(self).events@.last() matches AppEvent::CampaignDeleted { id } && id@
                    == campaign_id@
            },
    {
        match self.store.delete_campaign(campaign_id) {
            Result::Err(e) => Result::Err(e),
            Result::Ok(()) => {
                proof {
                    lemma_maps_without_campaign_contains(old(self).store.maps@, campaign_id@);
                    crate::session::lemma_sync_after_shrink(
                        old(self).coord.live@,
                        old(self).store.maps@,
                        self.store.maps@,
                    );
                    assert(store_maps_wf(self.store.maps@)) by {
                        assert forall|m: int|
                            0 <= m < self.store.maps@.len() implies token_ids_unique(
                            (#[trigger] self.store.maps@[m]).tokens@,
                        ) && match self.store.maps@[m].fog_of_war {
                            Option::Some(f) => areas_unique(f@.revealed),
                            Option::None => true,
                        } by {
                            assert(old(self).store.maps@.contains(self.store.maps@[m]));
                            let q = choose|q: int|
                                0 <= q < old(self).store.maps@.len() && old(self).store.maps@[q]
                                    == self.store.maps@[m];
                            assert(token_ids_unique(old(self).store.maps@[q].tokens@));
                        }
                    }
                }
                self.coord.evict_unbacked(&self.store);
                self.events.push(AppEvent::CampaignDeleted { id: campaign_id.clone() });
                Result::Ok(())
            },
        }
    }

    // ---------------------------------------------------------------------
    // Characters
    // ---------------------------------------------------------------------

    /// Creates a character with empty blocks beyond its base stats. Emits
    /// `character-created` with the new id.
    pub fn create_character(&mut self, request: CreateCharacterRequest) -> (r: AppResult<String>)
        requires
            old(self).wf(),
        ensures
            final(self).wf(),
            final(self).store.campaigns@ == old(self).store.campaigns@,
            final(self).store.maps@ == old(self).store.maps@,
            final(self).store.assets@ == old(self).store.assets@,
            final(self).coord.peers@ == old(self).coord.peers@,
            final(self).coord.live@ == old(self).coord.live@,
            final(self).net.outboxes@ == old(self).net.outboxes@,
            match r {
                Result::Ok(rid) => {
                    &&& final(self).store.characters@ == old(self).store.characters@.push(
                        final(self).store.characters@.last(),
                    )
                    &&& {
                        let c = final(self).store.characters@.last();
                        &&& c.id@ == rid@
                        &&& !has_character(old(self).store.characters@, rid@)
                        &&& crate::store::fresh_character_record(c, request)
                    }
                    &&& final(self).events@ == old(self).events@.push(final(self).events@.last())
                    &&& final(self).events@.last() matches AppEvent::CharacterCreated { id }
                        && id@ == rid@
                },
                Result::Err(e) => {
                    &&& e == AppError::Conflict
                    &&& final(self).store.characters@ == old(self).store.characters@
                    &&& final(self).events@ == old(self).events@
                },
            },
    {
        match self.store.create_character(request) {
            Result::Err(e) => Result::Err(e),
            Result::Ok(id) => {
                self.events.push(AppEvent::CharacterCreated { id: id.clone() });
                Result::Ok(id)
            },
        }
    }

    /// The characters of one campaign, sorted by name in the name order.
    pub fn get_characters(&self, campaign_id: &String) -> (r: Vec<&Character>)
        ensures
            r@.map_values(|c: &Character| *c).to_multiset() == characters_of_campaign(
                self.store.characters@,
                campaign_id@,
            ).to_multiset(),
            forall|i: int, j: int|
                0 <= i < j < r@.len() ==> crate::models::str_le(
                    #[trigger] r@[i].name@,
                    #[trigger] r@[j].name@,
                ),
    {
        self.store.get_characters_for_campaign(campaign_id)
    }

    /// The character with the given id, if any.
    pub fn get_character(&self, character_id: &String) -> (r: Option<&Character>)
        ensures
            match r {
                Option::Some(c) => c.id@ == character_id@ && exists|i: int|
                    0 <= i < self.store.characters@.len() && self.store.characters@[i] == *c,
                Option::None => !has_character(self.store.characters@, character_id@),
            },
    {
        self.store.get_character(character_id)
    }

    /// Applies a sparse character patch: a block update never clobbers
    /// sibling blocks. Emits `character-updated` on success.
    pub fn update_character(&mut self, character_id: &String, request: UpdateCharacterRequest) -> (
        r: AppResult<()>)
        requires
            old(self).wf(),
        ensures
            final(self).wf(),
            final(self).store.campaigns@ == old(self).store.campaigns@,
            final(self).store.maps@ == old(self).store.maps@,
            final(self).store.assets@ == old(self).store.assets@,
            final(self).coord.peers@ == old(self).coord.peers@,
            final(self).coord.live@ == old(self).coord.live@,
            final(self).net.outboxes@ == old(self).net.outboxes@,
            final(self).store.characters@.len() == old(self).store.characters@.len(),
            forall|j: int|
                0 <= j < old(self).store.characters@.len() ==> final(self).store.characters@[j]
                    == (if old(self).store.characters@[j].id@ == character_id@ {
                    patched_character(
                        old(self).store.characters@[j],
                        request,
                        final(self).store.characters@[j].updated_at,
                    )
                } else {
                    old(self).store.characters@[j]
                }),
            has_character(old(self).store.characters@, character_id@) ==> {
                &&& r == AppResult::<()>::Ok(())
                &&& final(self).events@ == old(self).events@.push(final(self).events@.last())
                &&& final(self).events@.last() matches AppEvent::CharacterUpdated { id } && id@
                    == character_id@
            },
            !has_character(old(self).store.characters@, character_id@) ==> r
                == AppResult::<()>::Err(AppError::NotFound) && final(self).events@ == old(self).events@,
    {
        match self.store.update_character(character_id, request) {
            Result::Err(e) => Result::Err(e),
            Result::Ok(()) => {
                self.events.push(AppEvent::CharacterUpdated { id: character_id.clone() });
                Result::Ok(())
            },
        }
    }

    /// Deletes one character. Emits `character-deleted` on success.
    pub fn delete_character(&mut self, character_id: &String) -> (r: AppResult<()>)
        requires
            old(self).wf(),
        ensures
            final(self).wf(),
            final(self).store.campaigns@ == old(self).store.campaigns@,
            final(self).store.maps@ == old(self).store.maps@,
            final(self).store.assets@ == old(self).store.assets@,
            final(self).coord.peers@ == old(self).coord.peers@,
            final(self).coord.live@ == old(self).coord.live@,
            final(self).net.outboxes@ == old(self).net.outboxes@,
            !has_character(old(self).store.characters@, character_id@) ==> {
                &&& r == AppResult::<()>::Err(AppError::NotFound)
                &&& final(self).store.characters@ == old(self).store.characters@
                &&& final(self).events@ == old(self).events@
            },
            has_character(old(self).store.characters@, character_id@) ==> {
                &&& r == AppResult::<()>::Ok(())
                &&& final(self).store.characters@ == characters_without(
                    old(self).store.characters@,
                    character_id@,
                )
                &&& final(self).events@ == old(self).events@.push(final(self).events@.last())
                &&& final(self).events@.last() matches AppEvent::CharacterDeleted { id } && id@
                    == character_id@
            },
    {
        match self.store.delete_character(character_id) {
            Result::Err(e) => Result::Err(e),
            Result::Ok(()) => {
                self.events.push(AppEvent::CharacterDeleted { id: character_id.clone() });
                Result::Ok(())
            },
        }
    }

    // ---------------------------------------------------------------------
    // Maps
    // ---------------------------------------------------------------------

    /// Creates a map with an empty token set and no fog. Emits
    /// `map-created` with the new id.
    pub fn create_map(&mut self, request: CreateMapRequest) -> (r: AppResult<String>)
        requires
            old(self).wf(),
        ensures
            final(self).wf(),
            final(self).store.campaigns@ == old(self).store.campaigns@,
            final(self).store.characters@ == old(self).store.characters@,
            final(self).store.assets@ == old(self).store.assets@,
            final(self).coord.peers@ == old(self).coord.peers@,
            final(self).coord.live@ == old(self).coord.live@,
            final(self).net.outboxes@ == old(self).net.outboxes@,
            match r {
                Result::Ok(rid) => {
                    &&& final(self).store.maps@ == old(self).store.maps@.push(
                        final(self).store.maps@.last(),
                    )
                    &&& {
                        let m = final(self).store.maps@.last();
                        &&& m.id@ == rid@
                        &&& !has_map(old(self).store.maps@, rid@)
                        &&& m.campaign_id == request.campaign_id
                        &&& m.name == request.name
                        &&& m.grid_size == request.grid_size
                        &&& m.width == request.width
                        &&& m.height == request.height
                        &&& m.tokens@.len() == 0
                        &&& m.fog_of_war is None
                    }
                    &&& final(self).events@ == old(self).events@.push(final(self).events@.last())
                    &&& final(self).events@.last() matches AppEvent::MapCreated { id } && id@
                        == rid@
                },
                Result::Err(e) => {
                    &&& e == AppError::Conflict
                    &&& final(self).store.maps@ == old(self).store.maps@
                    &&& final(self).events@ == old(self).events@
                },
            },
    {
        match self.store.create_map(request) {
            Result::Err(e) => Result::Err(e),
            Result::Ok(id) => {
                proof {
                    assert(sessions_synced(self.coord.live@, self.store.maps@)) by {
                        assert forall|j: int|
                            0 <= j < self.coord.live@.len() implies session_backed(
                            #[trigger] self.coord.live@[j],
                            self.store.maps@,
                        ) by {
                            assert(session_backed(
                                old(self).coord.live@[j],
                                old(self).store.maps@,
                            ));
                            let m = choose|m: int|
                                0 <= m < old(self).store.maps@.len() && (#[trigger] old(self).store.maps@[m]).id@ == old(self).coord.live@[j].map_id@
                                    && tokens_view(old(self).store.maps@[m].tokens@)
                                    == tokens_view(old(self).coord.live@[j].tokens@) && fog_synced(
                                    old(self).store.maps@[m].fog_of_war,
                                    old(self).coord.live@[j].fog@,
                                );
                            assert(self.store.maps@[m] == old(self).store.maps@[m]);
                        }
                    }
                }
                self.events.push(AppEvent::MapCreated { id: id.clone() });
                Result::Ok(id)
            },
        }
    }

    /// The maps of one campaign, sorted by name in the name order.
    pub fn get_maps(&self, campaign_id: &String) -> (r: Vec<&GameMap>)
        ensures
            r@.map_values(|m: &GameMap| *m).to_multiset() == maps_of_campaign(
                self.store.maps@,
                campaign_id@,
            ).to_multiset(),
            forall|i: int, j: int|
                0 <= i < j < r@.len() ==> crate::models::str_le(
                    #[trigger] r@[i].name@,
                    #[trigger] r@[j].name@,
                ),
    {
        self.store.get_maps(campaign_id)
    }

    /// Joins the map's live session — opening it from the store on first
    /// access — and returns a full snapshot. The snapshot always equals
    /// the stored record: memory and storage agree. Emits `map-loaded`.
    pub fn load_map(&mut self, map_id: &String) -> (r: AppResult<MapState>)
        requires
            old(self).wf(),
        ensures
            final(self).wf(),
            final(self).store.campaigns@ == old(self).store.campaigns@,
            final(self).store.characters@ == old(self).store.characters@,
            final(self).store.maps@ == old(self).store.maps@,
            final(self).store.assets@ == old(self).store.assets@,
            final(self).coord.peers@ == old(self).coord.peers@,
            final(self).net.outboxes@ == old(self).net.outboxes@,
            !has_map(old(self).store.maps@, map_id@) ==> {
                &&& r == AppResult::<MapState>::Err(AppError::NotFound)
                &&& final(self).coord.live@ == old(self).coord.live@
                &&& final(self).events@ == old(self).events@
            },
            has_map(old(self).store.maps@, map_id@) ==> {
                &&& r matches Result::Ok(snap) && has_session(final(self).coord.live@, map_id@)
                    && forall|m: int|
                    0 <= m < final(self).store.maps@.len() && (#[trigger] final(self).store.maps@[m]).id@ == map_id@ ==> tokens_view(snap.tokens@) == tokens_view(
                        final(self).store.maps@[m].tokens@,
                    ) && fog_synced(final(self).store.maps@[m].fog_of_war, snap.fog_of_war@)
                &&& (has_session(old(self).coord.live@, map_id@) ==> final(self).coord.live@
                    == old(self).coord.live@)
                &&& final(self).events@ == old(self).events@.push(final(self).events@.last())
                &&& final(self).events@.last() matches AppEvent::MapLoaded { id } && id@
                    == map_id@
            },
    {
        match self.coord.ensure_live(&self.store, map_id) {
            Result::Err(e) => Result::Err(e),
            Result::Ok(i) => {
                let snap = self.coord.live[i].snapshot();
                proof {
                    assert(session_backed(self.coord.live@[i as int], self.store.maps@));
                    let m0 = choose|m0: int|
                        0 <= m0 < self.store.maps@.len() && (#[trigger] self.store.maps@[m0]).id@
                            == self.coord.live@[i as int].map_id@ && tokens_view(
                            self.store.maps@[m0].tokens@,
                        ) == tokens_view(self.coord.live@[i as int].tokens@) && fog_synced(
                            self.store.maps@[m0].fog_of_war,
                            self.coord.live@[i as int].fog@,
                        );
                    assert forall|m: int|
                        0 <= m < self.store.maps@.len() && (#[trigger] self.store.maps@[m]).id@
                            == map_id@ implies tokens_view(snap.tokens@) == tokens_view(
                        self.store.maps@[m].tokens@,
                    ) && fog_synced(self.store.maps@[m].fog_of_war, snap.fog_of_war@) by {
                        if m < m0 {
                            assert(self.store.maps@[m].id@ != self.store.maps@[m0].id@);
                        }
                        if m0 < m {
                            assert(self.store.maps@[m0].id@ != self.store.maps@[m].id@);
                        }
                    }
                }
                self.events.push(AppEvent::MapLoaded { id: map_id.clone() });
                Result::Ok(snap)
            },
        }
    }

    /// Replaces a map's stored token set and fog wholesale, and brings any
    /// live session along so memory and storage stay agreed. A token set
    /// with a duplicate id, or a fog with a duplicate area, is malformed
    /// and refused with `InvalidInput`. Emits `map-saved` on success.
    pub fn save_map_state(
        &mut self,
        map_id: &String,
        tokens: Vec<Token>,
        fog_of_war: Option<FogOfWar>,
    ) -> (r: AppResult<()>)
        requires
            old(self).wf(),
        ensures
            final(self).wf(),
            final(self).store.campaigns@ == old(self).store.campaigns@,
            final(self).store.characters@ == old(self).store.characters@,
            final(self).store.assets@ == old(self).store.assets@,
            final(self).coord.peers@ == old(self).coord.peers@,
            final(self).net.outboxes@ == old(self).net.outboxes@,
            !token_ids_unique(tokens@) || (fog_of_war matches Option::Some(f) && !areas_unique(
                f@.revealed,
            )) ==> {
                &&& r == AppResult::<()>::Err(AppError::InvalidInput)
                &&& final(self).store.maps@ == old(self).store.maps@
                &&& final(self).coord.live@ == old(self).coord.live@
                &&& final(self).events@ == old(self).events@
            },
            token_ids_unique(tokens@) && (fog_of_war matches Option::Some(f) ==> areas_unique(
                f@.revealed,
            )) ==> {
                &&& (!has_map(old(self).store.maps@, map_id@) ==> {
                    &&& r == AppResult::<()>::Err(AppError::NotFound)
                    &&& final(self).store.maps@ == old(self).store.maps@
                    &&& final(self).coord.live@ == old(self).coord.live@
                    &&& final(self).events@ == old(self).events@
                })
                &&& (has_map(old(self).store.maps@, map_id@) ==> {
                    &&& r == AppResult::<()>::Ok(())
                    &&& final(self).store.maps@.len() == old(self).store.maps@.len()
                    &&& forall|m: int|
                        0 <= m < old(self).store.maps@.len() && (#[trigger] old(self).store.maps@[m]).id@ != map_id@ ==> final(self).store.maps@[m] == old(self).store.maps@[m]
                    &&& forall|m: int|
                        0 <= m < old(self).store.maps@.len() && (#[trigger] old(self).store.maps@[m]).id@ == map_id@ ==> final(self).store.maps@[m]
                            == crate::store::map_with_state(
                            old(self).store.maps@[m],
                            tokens,
                            fog_of_war,
                            final(self).store.maps@[m].updated_at,
                        )
                    &&& final(self).events@ == old(self).events@.push(final(self).events@.last())
                    &&& final(self).events@.last() matches AppEvent::MapSaved { id } && id@
                        == map_id@
                })
            },
    {
        if !crate::map_state::tokens_distinct(&tokens) {
            return Result::Err(AppError::InvalidInput);
        }
        let fog_ref = &fog_of_war;
        let fog_valid = match fog_ref {
            Option::Some(f) => crate::map_state::areas_distinct(&f.revealed_areas),
            Option::None => true,
        };
        if !fog_valid {
            return Result::Err(AppError::InvalidInput);
        }
        assert(fog_of_war matches Option::Some(f) ==> areas_unique(f@.revealed));
        let toks_copy = crate::models::clone_tokens(&tokens);
        let fog_copy = match fog_ref {
            Option::Some(f) => f.clone(),
            Option::None => FogOfWar { revealed_areas: Vec::new(), is_enabled: false },
        };
        assert(match fog_of_war {
            Option::Some(f) => fog_copy@ == f@,
            Option::None => fog_copy@.revealed.len() == 0 && !fog_copy@.enabled,
        });
        assert(areas_unique(fog_copy@.revealed));
        match self.store.save_map_state(map_id, tokens, fog_of_war) {
            Result::Err(e) => {
                proof {
                    assert(self.store.maps@ =~= old(self).store.maps@);
                }
                Result::Err(e)
            },
            Result::Ok(()) => {
                proof {
                    crate::session::lemma_unique_ids_transfer(toks_copy@, tokens@);
                }
                let _found = self.coord.overwrite_session(map_id, toks_copy, fog_copy);
                proof {
                    assert(store_maps_wf(self.store.maps@)) by {
                        assert forall|m: int|
                            0 <= m < self.store.maps@.len() implies token_ids_unique(
                            (#[trigger] self.store.maps@[m]).tokens@,
                        ) && match self.store.maps@[m].fog_of_war {
                            Option::Some(f) => areas_unique(f@.revealed),
                            Option::None => true,
                        } by {
                            if old(self).store.maps@[m].id@ != map_id@ {
                                assert(self.store.maps@[m] == old(self).store.maps@[m]);
                            } else {
                                assert(self.store.maps@[m].tokens@ == tokens@);
                                assert(self.store.maps@[m].fog_of_war == fog_of_war);
                            }
                        }
                    }
                    assert(sessions_synced(self.coord.live@, self.store.maps@)) by {
                        assert forall|j: int|
                            0 <= j < self.coord.live@.len() implies session_backed(
                            #[trigger] self.coord.live@[j],
                            self.store.maps@,
                        ) by {
                            if old(self).coord.live@[j].map_id@ == map_id@ {
                                let m = choose|m: int|
                                    0 <= m < old(self).store.maps@.len() && (#[trigger] old(self).store.maps@[m]).id@ == map_id@;
                                assert(self.store.maps@[m].id@ == map_id@);
                                assert(self.store.maps@[m].tokens@ == tokens@);
                                assert(self.coord.live@[j].tokens@ == toks_copy@);
                                assert(tokens_view(self.coord.live@[j].tokens@) == tokens_view(
                                    tokens@,
                                ));
                                assert(self.store.maps@[m].fog_of_war == fog_of_war);
                                assert(self.coord.live@[j].fog@ == fog_copy@);
                                assert(fog_synced(
                                    self.store.maps@[m].fog_of_war,
                                    self.coord.live@[j].fog@,
                                ));
                                assert(self.coord.live@[j].map_id@ == map_id@);
                            } else {
                                assert(self.coord.live@[j] == old(self).coord.live@[j]);
                                assert(session_backed(
                                    old(self).coord.live@[j],
                                    old(self).store.maps@,
                                ));
                                let m = choose|m: int|
                                    0 <= m < old(self).store.maps@.len() && (#[trigger] old(self).store.maps@[m]).id@ == old(self).coord.live@[j].map_id@
                                        && tokens_view(old(self).store.maps@[m].tokens@)
                                        == tokens_view(old(self).coord.live@[j].tokens@)
                                        && fog_synced(
                                        old(self).store.maps@[m].fog_of_war,
                                        old(self).coord.live@[j].fog@,
                                    );
                                assert(self.store.maps@[m] == old(self).store.maps@[m]);
                            }
                        }
                    }
                }
                self.events.push(AppEvent::MapSaved { id: map_id.clone() });
                Result::Ok(())
            },
        }
    }

    // ---------------------------------------------------------------------
    // Tokens and fog, host side
    // ---------------------------------------------------------------------

    /// Applies one host-side operation to a map — loading its session on
    /// first access — persists it, broadcasts the delta to every peer, and
    /// emits the matching event. `NotFound` when the store has no such
    /// map.
    pub fn apply_host_op(&mut self, map_id: &String, op: MapOp) -> (r: AppResult<Delta>)
        requires
            old(self).wf(),
        ensures
            final(self).wf(),
            final(self).store.campaigns@ == old(self).store.campaigns@,
            final(self).store.characters@ == old(self).store.characters@,
            final(self).store.assets@ == old(self).store.assets@,
            !has_map(old(self).store.maps@, map_id@) ==> {
                &&& r == AppResult::<Delta>::Err(AppError::NotFound)
                &&& final(self).store.maps@ == old(self).store.maps@
                &&& final(self).coord.live@ == old(self).coord.live@
                &&& final(self).events@ == old(self).events@
                &&& final(self).net.outboxes@ == old(self).net.outboxes@
                &&& final(self).coord.peers@ == old(self).coord.peers@
            },
            final(self).store.maps@.len() == old(self).store.maps@.len(),
            forall|mm: int|
                0 <= mm < old(self).store.maps@.len() && (#[trigger] old(self).store.maps@[mm]).id@
                    != map_id@ ==> final(self).store.maps@[mm] == old(self).store.maps@[mm],
            has_session(old(self).coord.live@, map_id@) ==> forall|j: int|
                0 <= j < old(self).coord.live@.len() && (#[trigger] old(self).coord.live@[j]).map_id@ == map_id@ ==> {
                    let pre = old(self).coord.live@[j];
                    let post = final(self).coord.live@[j];
                    if pre.seq_no == u64::MAX {
                        r == AppResult::<Delta>::Err(AppError::StorageError { retryable: false })
                    } else {
                        &&& op_applied(pre, post, op, r)
                        &&& (r is Ok ==> forall|mm: int|
                            0 <= mm < old(self).store.maps@.len() && (#[trigger] old(self).store.maps@[mm]).id@ == map_id@ ==> record_updated_to(
                                old(self).store.maps@[mm],
                                final(self).store.maps@[mm],
                                post,
                            ))
                    }
                },
            r matches Result::Ok(d) ==> {
                &&& has_session(final(self).coord.live@, map_id@)
                &&& delta_matches_op(d@, op)
                &&& forall|j: int|
                    0 <= j < final(self).coord.live@.len() && (#[trigger] final(self).coord.live@[j]).map_id@ == map_id@ ==> final(self).coord.live@[j].seq_no
                        == delta_seq(d@)
                &&& final(self).events@ == old(self).events@.push(final(self).events@.last())
                &&& event_for_delta(d@, map_id@, final(self).events@.last())
            },
            r is Err ==> final(self).events@ == old(self).events@ && final(self).net.outboxes@
                == old(self).net.outboxes@ && final(self).coord.peers@ == old(self).coord.peers@,
            r is Err ==> final(self).store.maps@ == old(self).store.maps@ && forall|j: int|
                0 <= j < old(self).coord.live@.len() ==> session_same(
                    #[trigger] final(self).coord.live@[j],
                    old(self).coord.live@[j],
                ),
            r == AppResult::<Delta>::Err(AppError::NotFound) ==> !has_map(
                old(self).store.maps@,
                map_id@,
            ) || op matches MapOp::MoveToken { .. },
            has_map(old(self).store.maps@, map_id@) ==> has_session(
                final(self).coord.live@,
                map_id@,
            ),
            !has_session(old(self).coord.live@, map_id@) && has_map(
                old(self).store.maps@,
                map_id@,
            ) ==> forall|j: int, mm: int|
                0 <= j < final(self).coord.live@.len() && (#[trigger] final(self).coord.live@[j]).map_id@ == map_id@ && 0 <= mm < old(self).store.maps@.len() && (
                #[trigger] old(self).store.maps@[mm]).id@ == map_id@ ==> exists|pre: MapSession|
                    opened_from(pre, old(self).store.maps@[mm], map_id@) && op_applied(
                        pre,
                        final(self).coord.live@[j],
                        op,
                        r,
                    ) && (r is Ok ==> record_updated_to(
                        old(self).store.maps@[mm],
                        final(self).store.maps@[mm],
                        final(self).coord.live@[j],
                    )),
    {
        match self.coord.ensure_live(&self.store, map_id) {
            Result::Err(e) => Result::Err(e),
            Result::Ok(_i) => {
                let ghost mid_live = self.coord.live@;
                proof {
                    if !has_session(old(self).coord.live@, map_id@) {
                        assert(mid_live == old(self).coord.live@.push(mid_live.last()));
                        assert(mid_live.last().seq_no == 0);
                    }
                    assert forall|j: int|
                        0 <= j < mid_live.len() && (#[trigger] mid_live[j]).map_id@ == map_id@
                            && !has_session(old(self).coord.live@, map_id@) implies j
                        == mid_live.len() - 1 by {
                        if j < old(self).coord.live@.len() {
                            assert(old(self).coord.live@[j].map_id@ != map_id@);
                        }
                    }
                }
                match self.coord.apply_op(&mut self.store, map_id, op) {
                    Result::Err(e) => {
                        proof {
                            let r = AppResult::<Delta>::Err(e);
                            let jt = choose|jt: int|
                                0 <= jt < mid_live.len() && mid_live[jt].map_id@ == map_id@;
                            assert(self.coord.live@[jt].map_id == mid_live[jt].map_id);
                            assert(has_session(self.coord.live@, map_id@));
                            if mid_live[jt].seq_no != u64::MAX {
                                assert(op_applied(mid_live[jt], self.coord.live@[jt], op, r));
                            }
                            assert(self.store.maps@ == old(self).store.maps@);
                            assert forall|j: int|
                                0 <= j < old(self).coord.live@.len() implies session_same(
                                #[trigger] self.coord.live@[j],
                                old(self).coord.live@[j],
                            ) by {
                                assert(mid_live[j] == old(self).coord.live@[j]);
                                if mid_live[j].map_id@ != map_id@ {
                                    assert(session_same(self.coord.live@[j], mid_live[j]));
                                }
                            }
                            if !has_session(old(self).coord.live@, map_id@) && has_map(
                                old(self).store.maps@,
                                map_id@,
                            ) {
                                assert forall|j: int, mm: int|
                                    0 <= j < self.coord.live@.len() && (
                                    #[trigger] self.coord.live@[j]).map_id@ == map_id@ && 0 <= mm
                                        < old(self).store.maps@.len() && (#[trigger] old(self).store.maps@[mm]).id@ == map_id@ implies exists|pre: MapSession|
                                    opened_from(pre, old(self).store.maps@[mm], map_id@)
                                        && op_applied(pre, self.coord.live@[j], op, r) && (r is Ok
                                        ==> record_updated_to(
                                        old(self).store.maps@[mm],
                                        self.store.maps@[mm],
                                        self.coord.live@[j],
                                    )) by {
                                    assert(j == jt) by {
                                        if j < jt {
                                            assert(self.coord.live@[j].map_id@
                                                != self.coord.live@[jt].map_id@);
                                        }
                                        if jt < j {
                                            assert(self.coord.live@[jt].map_id@
                                                != self.coord.live@[j].map_id@);
                                        }
                                    }
                                    let pre = mid_live[jt];
                                    assert(session_backed(mid_live[jt], old(self).store.maps@));
                                    let m = choose|m: int|
                                        0 <= m < old(self).store.maps@.len() && (#[trigger] old(self).store.maps@[m]).id@ == mid_live[jt].map_id@
                                            && tokens_view(old(self).store.maps@[m].tokens@)
                                            == tokens_view(mid_live[jt].tokens@) && fog_synced(
                                            old(self).store.maps@[m].fog_of_war,
                                            mid_live[jt].fog@,
                                        );
                                    assert(m == mm) by {
                                        if m < mm {
                                            assert(old(self).store.maps@[m].id@ != old(self).store.maps@[mm].id@);
                                        }
                                        if mm < m {
                                            assert(old(self).store.maps@[mm].id@ != old(self).store.maps@[m].id@);
                                        }
                                    }
                                    assert(opened_from(pre, old(self).store.maps@[mm], map_id@));
                                    assert(op_applied(pre, self.coord.live@[j], op, r));
                                }
                            }
                        }
                        Result::Err(e)
                    },
                    Result::Ok(d) => {
                        proof {
                            let j = choose|j: int|
                                0 <= j < mid_live.len() && mid_live[j].map_id@ == map_id@;
                            assert(op_applied(
                                mid_live[j],
                                self.coord.live@[j],
                                op,
                                AppResult::<Delta>::Ok(d),
                            ));
                            assert(delta_matches_op(d@, op));
                        }
                        self.fanout(&d, Option::None);
                        let ev = match &d {
                            Delta::TokenAdded { token, .. } => AppEvent::TokenCreated {
                                id: token.id.clone(),
                                map_id: map_id.clone(),
                            },
                            Delta::TokenMoved { token_id, position, .. } => AppEvent::TokenMoved {
                                id: token_id.clone(),
                                map_id: map_id.clone(),
                                x: position.x,
                                y: position.y,
                            },
                            Delta::TokenRemoved { token_id, .. } => AppEvent::TokenDeleted {
                                id: token_id.clone(),
                                map_id: map_id.clone(),
                            },
                            Delta::FogRevealed { .. } => AppEvent::FogRevealed {
                                map_id: map_id.clone(),
                            },
                            Delta::FogReset { .. } => AppEvent::FogReset {
                                map_id: map_id.clone(),
                            },
                        };
                        self.events.push(ev);
                        proof {
                            let r = AppResult::<Delta>::Ok(d);
                            let jt = choose|jt: int|
                                0 <= jt < mid_live.len() && mid_live[jt].map_id@ == map_id@;
                            assert(self.coord.live@[jt].map_id == mid_live[jt].map_id);
                            assert(has_session(self.coord.live@, map_id@));
                            assert(op_applied(mid_live[jt], self.coord.live@[jt], op, r));
                            if !has_session(old(self).coord.live@, map_id@) && has_map(
                                old(self).store.maps@,
                                map_id@,
                            ) {
                                assert forall|j: int, mm: int|
                                    0 <= j < self.coord.live@.len() && (
                                    #[trigger] self.coord.live@[j]).map_id@ == map_id@ && 0 <= mm
                                        < old(self).store.maps@.len() && (#[trigger] old(self).store.maps@[mm]).id@ == map_id@ implies exists|pre: MapSession|
                                    opened_from(pre, old(self).store.maps@[mm], map_id@)
                                        && op_applied(pre, self.coord.live@[j], op, r) && (r is Ok
                                        ==> record_updated_to(
                                        old(self).store.maps@[mm],
                                        self.store.maps@[mm],
                                        self.coord.live@[j],
                                    )) by {
                                    assert(j == jt) by {
                                        if j < jt {
                                            assert(self.coord.live@[j].map_id@
                                                != self.coord.live@[jt].map_id@);
                                        }
                                        if jt < j {
                                            assert(self.coord.live@[jt].map_id@
                                                != self.coord.live@[j].map_id@);
                                        }
                                    }
                                    let pre = mid_live[jt];
                                    assert(session_backed(mid_live[jt], old(self).store.maps@));
                                    let m = choose|m: int|
                                        0 <= m < old(self).store.maps@.len() && (#[trigger] old(self).store.maps@[m]).id@ == mid_live[jt].map_id@
                                            && tokens_view(old(self).store.maps@[m].tokens@)
                                            == tokens_view(mid_live[jt].tokens@) && fog_synced(
                                            old(self).store.maps@[m].fog_of_war,
                                            mid_live[jt].fog@,
                                        );
                                    assert(m == mm) by {
                                        if m < mm {
                                            assert(old(self).store.maps@[m].id@ != old(self).store.maps@[mm].id@);
                                        }
                                        if mm < m {
                                            assert(old(self).store.maps@[mm].id@ != old(self).store.maps@[m].id@);
                                        }
                                    }
                                    assert(opened_from(pre, old(self).store.maps@[mm], map_id@));
                                    assert(op_applied(pre, self.coord.live@[j], op, r));
                                    assert(record_updated_to(
                                        old(self).store.maps@[mm],
                                        self.store.maps@[mm],
                                        self.coord.live@[j],
                                    ));
                                }
                            }
                        }
                        Result::Ok(d)
                    },
                }
            },
        }
    }

    /// Creates a token on a map under a fresh random id, with no
    /// conditions, notes, hiding or initiative yet. Emits `token-created`.
    pub fn create_token(&mut self, request: CreateTokenRequest) -> (r: AppResult<String>)
        requires
            old(self).wf(),
        ensures
            final(self).wf(),
            final(self).store.campaigns@ == old(self).store.campaigns@,
            final(self).store.characters@ == old(self).store.characters@,
            final(self).store.assets@ == old(self).store.assets@,
            !has_map(old(self).store.maps@, request.map_id@) ==> r == AppResult::<String>::Err(
                AppError::NotFound,
            ) && final(self).store.maps@ == old(self).store.maps@,
            r is Err ==> {
                &&& final(self).store.maps@ == old(self).store.maps@
                &&& final(self).events@ == old(self).events@
                &&& final(self).net.outboxes@ == old(self).net.outboxes@
                &&& final(self).coord.peers@ == old(self).coord.peers@
                &&& forall|j: int|
                    0 <= j < old(self).coord.live@.len() ==> session_same(
                        #[trigger] final(self).coord.live@[j],
                        old(self).coord.live@[j],
                    )
            },
            r == AppResult::<String>::Err(AppError::NotFound) <==> !has_map(
                old(self).store.maps@,
                request.map_id@,
            ),
            has_map(old(self).store.maps@, request.map_id@) && (forall|j: int|
                0 <= j < old(self).coord.live@.len() && (#[trigger] old(self).coord.live@[j]).map_id@ == request.map_id@ ==> old(self).coord.live@[j].seq_no < u64::MAX) ==> (r is Err
                ==> r == AppResult::<String>::Err(AppError::Conflict)),
            r matches Result::Ok(rid) ==> {
                &&& final(self).events@ == old(self).events@.push(final(self).events@.last())
                &&& final(self).events@.last() matches AppEvent::TokenCreated { id, map_id }
                    && id@ == rid@ && map_id@ == request.map_id@
                &&& has_session(final(self).coord.live@, request.map_id@)
                &&& (has_session(old(self).coord.live@, request.map_id@) ==> forall|j: int|
                    0 <= j < old(self).coord.live@.len() && (#[trigger] old(self).coord.live@[j]).map_id@ == request.map_id@ ==> {
                        let pre = old(self).coord.live@[j];
                        let post = final(self).coord.live@[j];
                        &&& post.tokens@.len() == pre.tokens@.len() + 1
                        &&& post.tokens@.last().id@ == rid@
                        &&& post.tokens@.last().name == request.name
                        &&& post.tokens@.last().character_id == request.character_id
                        &&& post.tokens@.last().position == request.position
                        &&& post.tokens@.last().size == request.size
                        &&& post.seq_no == pre.seq_no + 1
                        &&& post.fog@ == pre.fog@
                    })
            },
    {
        let id = ext::new_uuid();
        let token = Token {
            id: id.clone(),
            character_id: request.character_id,
            name: request.name,
            image_url: request.image_url,
            position: request.position,
            size: request.size,
            conditions: Vec::new(),
            notes: String::new(),
            is_hidden: false,
            initiative: Option::None,
        };
        let ghost the_op = MapOp::AddToken(token);
        let r0 = self.apply_host_op(&request.map_id, MapOp::AddToken(token));
        proof {
            let map_id = request.map_id;
            if has_map(old(self).store.maps@, map_id@) && r0 is Err {
                if has_session(old(self).coord.live@, map_id@) {
                    let jt = choose|jt: int|
                        0 <= jt < old(self).coord.live@.len() && old(self).coord.live@[jt].map_id@
                            == map_id@;
                    if old(self).coord.live@[jt].seq_no < u64::MAX {
                        assert(op_applied(
                            old(self).coord.live@[jt],
                            self.coord.live@[jt],
                            the_op,
                            r0,
                        ));
                    }
                } else {
                    let jt = choose|jt: int|
                        0 <= jt < self.coord.live@.len() && self.coord.live@[jt].map_id@
                            == map_id@;
                    let mm = choose|mm: int|
                        0 <= mm < old(self).store.maps@.len() && old(self).store.maps@[mm].id@
                            == map_id@;
                    let pre = choose|pre: MapSession|
                        opened_from(pre, old(self).store.maps@[mm], map_id@) && op_applied(
                            pre,
                            self.coord.live@[jt],
                            the_op,
                            r0,
                        ) && (r0 is Ok ==> record_updated_to(
                            old(self).store.maps@[mm],
                            self.store.maps@[mm],
                            self.coord.live@[jt],
                        ));
                    assert(op_applied(pre, self.coord.live@[jt], the_op, r0));
                }
            }
        }
        match r0 {
            Result::Err(e) => Result::Err(e),
            Result::Ok(_d) => Result::Ok(id),
        }
    }

    /// Moves a token: last write wins in sequence order, and a move of a
    /// token that was deleted concurrently fails with `NotFound` instead
    /// of resurrecting it. Returns the applied sequence number and emits
    /// `token-moved` with the new coordinates.
    pub fn move_token(&mut self, map_id: &String, token_id: &String, new_position: Position) -> (
        r: AppResult<u64>)
        requires
            old(self).wf(),
        ensures
            final(self).wf(),
            final(self).store.campaigns@ == old(self).store.campaigns@,
            final(self).store.characters@ == old(self).store.characters@,
            final(self).store.assets@ == old(self).store.assets@,
            !has_map(old(self).store.maps@, map_id@) ==> r == AppResult::<u64>::Err(
                AppError::NotFound,
            ) && final(self).store.maps@ == old(self).store.maps@,
            has_session(old(self).coord.live@, map_id@) ==> forall|j: int|
                0 <= j < old(self).coord.live@.len() && (#[trigger] old(self).coord.live@[j]).map_id@ == map_id@ && old(self).coord.live@[j].seq_no < u64::MAX
                    ==> {
                    let pre = old(self).coord.live@[j];
                    let post = final(self).coord.live@[j];
                    if !has_token(pre.tokens@, token_id@) {
                        r == AppResult::<u64>::Err(AppError::NotFound) && session_same(post, pre)
                    } else {
                        &&& r == AppResult::<u64>::Ok((pre.seq_no + 1) as u64)
                        &&& post.tokens@ == moved_tokens(pre.tokens@, token_id@, new_position)
                        &&& post.fog@ == pre.fog@
                        &&& post.seq_no == pre.seq_no + 1
                        &&& forall|mm: int|
                            0 <= mm < old(self).store.maps@.len() && (#[trigger] old(self).store.maps@[mm]).id@ == map_id@ ==> record_updated_to(
                                old(self).store.maps@[mm],
                                final(self).store.maps@[mm],
                                post,
                            )
                    }
                },
            r matches Result::Ok(_n) ==> {
                &&& final(self).events@ == old(self).events@.push(final(self).events@.last())
                &&& final(self).events@.last() matches AppEvent::TokenMoved { id, map_id: m, x, y }
                    && id@ == token_id@ && m@ == map_id@ && x == new_position.x && y
                    == new_position.y
            },
            !has_session(old(self).coord.live@, map_id@) && has_map(old(self).store.maps@, map_id@)
                ==> forall|j: int, mm: int|
                0 <= j < final(self).coord.live@.len() && (#[trigger] final(self).coord.live@[j]).map_id@ == map_id@ && 0 <= mm < old(self).store.maps@.len() && (
                #[trigger] old(self).store.maps@[mm]).id@ == map_id@ ==> {
                    let m = old(self).store.maps@[mm];
                    let post = final(self).coord.live@[j];
                    if !has_token(m.tokens@, token_id@) {
                        &&& r == AppResult::<u64>::Err(AppError::NotFound)
                        &&& tokens_view(post.tokens@) == tokens_view(m.tokens@)
                        &&& fog_synced(m.fog_of_war, post.fog@)
                        &&& post.seq_no == 0
                    } else {
                        &&& r == AppResult::<u64>::Ok(1)
                        &&& tokens_view(post.tokens@) == tokens_view(
                            moved_tokens(m.tokens@, token_id@, new_position),
                        )
                        &&& fog_synced(m.fog_of_war, post.fog@)
                        &&& post.seq_no == 1
                        &&& record_updated_to(m, final(self).store.maps@[mm], post)
                    }
                },
    {
        let op = MapOp::MoveToken { token_id: token_id.clone(), position: new_position };
        let ghost the_op = op;
        let r0 = self.apply_host_op(map_id, op);
        match r0 {
            Result::Err(e) => {
                proof {
                    if !has_session(old(self).coord.live@, map_id@) && has_map(
                        old(self).store.maps@,
                        map_id@,
                    ) {
                        assert forall|j: int, mm: int|
                            0 <= j < self.coord.live@.len() && (
                            #[trigger] self.coord.live@[j]).map_id@ == map_id@ && 0 <= mm < old(self).store.maps@.len() && (#[trigger] old(self).store.maps@[mm]).id@
                                == map_id@ implies {
                            let m = old(self).store.maps@[mm];
                            let post = self.coord.live@[j];
                            if !has_token(m.tokens@, token_id@) {
                                &&& AppResult::<u64>::Err(e) == AppResult::<u64>::Err(
                                    AppError::NotFound,
                                )
                                &&& tokens_view(post.tokens@) == tokens_view(m.tokens@)
                                &&& fog_synced(m.fog_of_war, post.fog@)
                                &&& post.seq_no == 0
                            } else {
                                false
                            }
                        } by {
                            let m = old(self).store.maps@[mm];
                            let post = self.coord.live@[j];
                            let pre = choose|pre: MapSession|
                                opened_from(pre, old(self).store.maps@[mm], map_id@)
                                    && op_applied(
                                    pre,
                                    self.coord.live@[j],
                                    the_op,
                                    AppResult::<Delta>::Err(e),
                                ) && (AppResult::<Delta>::Err(e) is Ok ==> record_updated_to(
                                    old(self).store.maps@[mm],
                                    self.store.maps@[mm],
                                    self.coord.live@[j],
                                ));
                            crate::map_state::lemma_has_token_view(
                                pre.tokens@,
                                m.tokens@,
                                token_id@,
                            );
                        }
                    }
                }
                Result::Err(e)
            },
            Result::Ok(d) => {
                let n = d.seq_no();
                proof {
                    if !has_session(old(self).coord.live@, map_id@) && has_map(
                        old(self).store.maps@,
                        map_id@,
                    ) {
                        assert forall|j: int, mm: int|
                            0 <= j < self.coord.live@.len() && (
                            #[trigger] self.coord.live@[j]).map_id@ == map_id@ && 0 <= mm < old(self).store.maps@.len() && (#[trigger] old(self).store.maps@[mm]).id@
                                == map_id@ implies {
                            let m = old(self).store.maps@[mm];
                            let post = self.coord.live@[j];
                            if !has_token(m.tokens@, token_id@) {
                                false
                            } else {
                                &&& AppResult::<u64>::Ok(n) == AppResult::<u64>::Ok(1)
                                &&& tokens_view(post.tokens@) == tokens_view(
                                    moved_tokens(m.tokens@, token_id@, new_position),
                                )
                                &&& fog_synced(m.fog_of_war, post.fog@)
                                &&& post.seq_no == 1
                                &&& record_updated_to(m, self.store.maps@[mm], post)
                            }
                        } by {
                            let m = old(self).store.maps@[mm];
                            let post = self.coord.live@[j];
                            let pre = choose|pre: MapSession|
                                opened_from(pre, old(self).store.maps@[mm], map_id@)
                                    && op_applied(
                                    pre,
                                    self.coord.live@[j],
                                    the_op,
                                    AppResult::<Delta>::Ok(d),
                                ) && (AppResult::<Delta>::Ok(d) is Ok ==> record_updated_to(
                                    old(self).store.maps@[mm],
                                    self.store.maps@[mm],
                                    self.coord.live@[j],
                                ));
                            crate::map_state::lemma_has_token_view(
                                pre.tokens@,
                                m.tokens@,
                                token_id@,
                            );
                            if has_token(pre.tokens@, token_id@) {
                                crate::map_state::lemma_moved_tokens_view(
                                    pre.tokens@,
                                    m.tokens@,
                                    token_id@,
                                    new_position,
                                );
                            }
                        }
                    }
                }
                Result::Ok(n)
            },
        }
    }

    /// Removes a token; removing an absent id succeeds as a no-op and
    /// leaves the sequence counter untouched, so replayed deletes are
    /// harmless. Returns the sequence number and emits `token-deleted`.
    pub fn delete_token(&mut self, map_id: &String, token_id: &String) -> (r: AppResult<u64>)
        requires
            old(self).wf(),
        ensures
            final(self).wf(),
            final(self).store.campaigns@ == old(self).store.campaigns@,
            final(self).store.characters@ == old(self).store.characters@,
            final(self).store.assets@ == old(self).store.assets@,
            !has_map(old(self).store.maps@, map_id@) ==> r == AppResult::<u64>::Err(
                AppError::NotFound,
            ) && final(self).store.maps@ == old(self).store.maps@,
            has_session(old(self).coord.live@, map_id@) ==> forall|j: int|
                0 <= j < old(self).coord.live@.len() && (#[trigger] old(self).coord.live@[j]).map_id@ == map_id@ && old(self).coord.live@[j].seq_no < u64::MAX
                    ==> {
                    let pre = old(self).coord.live@[j];
                    let post = final(self).coord.live@[j];
                    &&& r == AppResult::<u64>::Ok(post.seq_no)
                    &&& post.fog@ == pre.fog@
                    &&& (has_token(pre.tokens@, token_id@) ==> post.tokens@ == tokens_without(
                        pre.tokens@,
                        token_id@,
                    ) && post.seq_no == pre.seq_no + 1)
                    &&& (!has_token(pre.tokens@, token_id@) ==> post.tokens@ == pre.tokens@
                        && post.seq_no == pre.seq_no)
                },
            r matches Result::Ok(_n) ==> {
                &&& final(self).events@ == old(self).events@.push(final(self).events@.last())
                &&& final(self).events@.last() matches AppEvent::TokenDeleted { id, map_id: m }
                    && id@ == token_id@ && m@ == map_id@
            },
            !has_session(old(self).coord.live@, map_id@) && has_map(old(self).store.maps@, map_id@)
                ==> forall|j: int, mm: int|
                0 <= j < final(self).coord.live@.len() && (#[trigger] final(self).coord.live@[j]).map_id@ == map_id@ && 0 <= mm < old(self).store.maps@.len() && (
                #[trigger] old(self).store.maps@[mm]).id@ == map_id@ ==> {
                    let m = old(self).store.maps@[mm];
                    let post = final(self).coord.live@[j];
                    &&& fog_synced(m.fog_of_war, post.fog@)
                    &&& record_updated_to(m, final(self).store.maps@[mm], post)
                    &&& (has_token(m.tokens@, token_id@) ==> r == AppResult::<u64>::Ok(1)
                        && tokens_view(post.tokens@) == tokens_view(
                        tokens_without(m.tokens@, token_id@),
                    ) && post.seq_no == 1)
                    &&& (!has_token(m.tokens@, token_id@) ==> r == AppResult::<u64>::Ok(0)
                        && tokens_view(post.tokens@) == tokens_view(m.tokens@) && post.seq_no
                        == 0)
                },
    {
        let op = MapOp::RemoveToken { token_id: token_id.clone() };
        let ghost the_op = op;
        let r0 = self.apply_host_op(map_id, op);
        match r0 {
            Result::Err(e) => {
                proof {
                    if !has_session(old(self).coord.live@, map_id@) && has_map(
                        old(self).store.maps@,
                        map_id@,
                    ) {
                        assert forall|j: int, mm: int|
                            0 <= j < self.coord.live@.len() && (
                            #[trigger] self.coord.live@[j]).map_id@ == map_id@ && 0 <= mm < old(self).store.maps@.len() && (#[trigger] old(self).store.maps@[mm]).id@
                                == map_id@ implies false by {
                            let pre = choose|pre: MapSession|
                                opened_from(pre, old(self).store.maps@[mm], map_id@)
                                    && op_applied(
                                    pre,
                                    self.coord.live@[j],
                                    the_op,
                                    AppResult::<Delta>::Err(e),
                                ) && (AppResult::<Delta>::Err(e) is Ok ==> record_updated_to(
                                    old(self).store.maps@[mm],
                                    self.store.maps@[mm],
                                    self.coord.live@[j],
                                ));
                            assert(op_applied(
                                pre,
                                self.coord.live@[j],
                                the_op,
                                AppResult::<Delta>::Err(e),
                            ));
                        }
                    }
                }
                Result::Err(e)
            },
            Result::Ok(d) => {
                let n = d.seq_no();
                proof {
                    if !has_session(old(self).coord.live@, map_id@) && has_map(
                        old(self).store.maps@,
                        map_id@,
                    ) {
                        assert forall|j: int, mm: int|
                            0 <= j < self.coord.live@.len() && (
                            #[trigger] self.coord.live@[j]).map_id@ == map_id@ && 0 <= mm < old(self).store.maps@.len() && (#[trigger] old(self).store.maps@[mm]).id@
                                == map_id@ implies {
                            let m = old(self).store.maps@[mm];
                            let post = self.coord.live@[j];
                            &&& fog_synced(m.fog_of_war, post.fog@)
                            &&& record_updated_to(m, self.store.maps@[mm], post)
                            &&& (has_token(m.tokens@, token_id@) ==> AppResult::<u64>::Ok(n)
                                == AppResult::<u64>::Ok(1) && tokens_view(post.tokens@)
                                == tokens_view(tokens_without(m.tokens@, token_id@))
                                && post.seq_no == 1)
                            &&& (!has_token(m.tokens@, token_id@) ==> AppResult::<u64>::Ok(n)
                                == AppResult::<u64>::Ok(0) && tokens_view(post.tokens@)
                                == tokens_view(m.tokens@) && post.seq_no == 0)
                        } by {
                            let m = old(self).store.maps@[mm];
                            let post = self.coord.live@[j];
                            let pre = choose|pre: MapSession|
                                opened_from(pre, old(self).store.maps@[mm], map_id@)
                                    && op_applied(
                                    pre,
                                    self.coord.live@[j],
                                    the_op,
                                    AppResult::<Delta>::Ok(d),
                                ) && (AppResult::<Delta>::Ok(d) is Ok ==> record_updated_to(
                                    old(self).store.maps@[mm],
                                    self.store.maps@[mm],
                                    self.coord.live@[j],
                                ));
                            crate::map_state::lemma_has_token_view(
                                pre.tokens@,
                                m.tokens@,
                                token_id@,
                            );
                            if has_token(pre.tokens@, token_id@) {
                                crate::map_state::lemma_tokens_without_view(
                                    pre.tokens@,
                                    m.tokens@,
                                    token_id@,
                                );
                            }
                        }
                    }
                }
                Result::Ok(n)
            },
        }
    }

    // ---------------------------------------------------------------------
    // Initiative
    // ---------------------------------------------------------------------

    /// Merges externally rolled initiative dice into results: one entry
    /// per listed character the store knows, each adding the character's
    /// dexterity modifier to its roll, ordered highest total first. The
    /// dice themselves come from the dice-evaluation collaborator; ids
    /// the store does not know are skipped.
    pub fn roll_initiative(&self, character_ids: &Vec<String>, rolls: &Vec<i32>) -> (r: Vec<
        InitiativeResult,
    >)
        requires
            self.wf(),
            rolls@.len() == character_ids@.len(),
            forall|k: int, i: int|
                0 <= k < character_ids@.len() && 0 <= i < self.store.characters@.len() && (
                #[trigger] self.store.characters@[i]).id@ == (#[trigger] character_ids@[k])@
                    ==> i32::MIN <= rolls@[k] + crate::models::ability_modifier(
                    self.store.characters@[i].stats.dexterity as int,
                ) <= i32::MAX,
        ensures
            r@.to_multiset() == merged_initiative(
                self.store.characters@,
                character_ids@,
                rolls@,
            ).to_multiset(),
            forall|i: int, j: int| 0 <= i < j < r@.len() ==> r@[i].total >= r@[j].total,
    {
        let ghost chars = self.store.characters@;
        let mut entries: Vec<InitiativeResult> = Vec::new();
        let mut k: usize = 0;
        while k < character_ids.len()
            invariant
                self.wf(),
                chars == self.store.characters@,
                rolls@.len() == character_ids@.len(),
                k <= character_ids@.len(),
                entries@ == merged_initiative(
                    chars,
                    character_ids@.subrange(0, k as int),
                    rolls@.subrange(0, k as int),
                ),
                forall|k2: int, i: int|
                    0 <= k2 < character_ids@.len() && 0 <= i < chars.len() && (
                    #[trigger] chars[i]).id@ == (#[trigger] character_ids@[k2])@ ==> i32::MIN
                        <= rolls@[k2] + crate::models::ability_modifier(
                        chars[i].stats.dexterity as int,
                    ) <= i32::MAX,
            decreases character_ids@.len() - k,
        {
            proof {
                assert(character_ids@.subrange(0, k + 1).drop_last() =~= character_ids@.subrange(
                    0,
                    k as int,
                ));
                assert(rolls@.subrange(0, k + 1).drop_last() =~= rolls@.subrange(0, k as int));
                assert(character_ids@.subrange(0, k + 1).last() == character_ids@[k as int]);
                assert(rolls@.subrange(0, k + 1).last() == rolls@[k as int]);
            }
            match self.store.get_character(&character_ids[k]) {
                Option::None => {},
                Option::Some(c) => {
                    proof {
                        let i = choose|i: int| 0 <= i < chars.len() && chars[i] == *c;
                        let ci = choose|ci: int|
                            0 <= ci < chars.len() && chars[ci].id@ == character_ids@[k as int]@;
                        assert(i == ci) by {
                            if i < ci {
                                assert(chars[i].id@ != chars[ci].id@);
                            }
                            if ci < i {
                                assert(chars[ci].id@ != chars[i].id@);
                            }
                        }
                        assert(character_named(chars, character_ids@[k as int]@) == *c);
                    }
                    let modifier = c.stats.dexterity_modifier();
                    let entry = InitiativeResult {
                        character_id: character_ids[k].clone(),
                        character_name: c.name.clone(),
                        roll: rolls[k],
                        modifier,
                        total: rolls[k] + modifier,
                    };
                    entries.push(entry);
                },
            }
            k = k + 1;
        }
        proof {
            assert(character_ids@.subrange(0, character_ids@.len() as int) =~= character_ids@);
            assert(rolls@.subrange(0, rolls@.len() as int) =~= rolls@);
        }
        sort_by_total_desc(entries)
    }

    // ---------------------------------------------------------------------
    // Peers
    // ---------------------------------------------------------------------

    /// A new peer connection, in `Connecting` state with no authority yet.
    pub fn connect_peer(&mut self, id: String, name: String) -> (r: AppResult<()>)
        requires
            old(self).wf(),
        ensures
            final(self).wf(),
            final(self).coord.live@ == old(self).coord.live@,
            final(self).net.outboxes@ == old(self).net.outboxes@,
            final(self).events@ == old(self).events@,
            final(self).store.campaigns@ == old(self).store.campaigns@,
            final(self).store.characters@ == old(self).store.characters@,
            final(self).store.maps@ == old(self).store.maps@,
            final(self).store.assets@ == old(self).store.assets@,
            r is Ok ==> exists|i: int|
                0 <= i < final(self).coord.peers@.len() && (#[trigger] final(self).coord.peers@[i]).id@ == id@ && final(self).coord.peers@[i].state
                    == ConnectionState::Connecting && final(self).coord.peers@[i].name@ == name@,
            r is Err ==> r == AppResult::<()>::Err(AppError::Conflict) && final(self).coord.peers@
                == old(self).coord.peers@ && exists|i: int|
                0 <= i < old(self).coord.peers@.len() && (#[trigger] old(self).coord.peers@[i]).id@
                    == id@ && old(self).coord.peers@[i].state != ConnectionState::Disconnected,
            (forall|i: int|
                0 <= i < old(self).coord.peers@.len() && (#[trigger] old(self).coord.peers@[i]).id@
                    == id@ ==> old(self).coord.peers@[i].state == ConnectionState::Disconnected)
                ==> r is Ok,
    {
        let now = ext::now_millis();
        let ghost expected = (PeerInfo {
            id: id,
            name: name,
            role: PlayerRole::Observer,
            state: ConnectionState::Connecting,
            last_seen: now,
        });
        let r = self.coord.connect_peer(id, name, now);
        proof {
            if r is Ok {
                let i = choose|i: int|
                    0 <= i < self.coord.peers@.len() && (#[trigger] self.coord.peers@[i])
                        == expected;
                assert(self.coord.peers@[i].id@ == expected.id@);
            }
        }
        r
    }

    /// Grants a role on join and opens the peer's outbound queue.
    pub fn join_peer(&mut self, peer_id: &String, role: PlayerRole) -> (r: AppResult<()>)
        requires
            old(self).wf(),
        ensures
            final(self).wf(),
            final(self).coord.live@ == old(self).coord.live@,
            final(self).events@ == old(self).events@,
            final(self).store.campaigns@ == old(self).store.campaigns@,
            final(self).store.characters@ == old(self).store.characters@,
            final(self).store.maps@ == old(self).store.maps@,
            final(self).store.assets@ == old(self).store.assets@,
            r is Ok ==> forall|i: int|
                0 <= i < final(self).coord.peers@.len() && (#[trigger] final(self).coord.peers@[i]).id@ == peer_id@ ==> final(self).coord.peers@[i].state
                    == ConnectionState::Joined && final(self).coord.peers@[i].role == role,
            r is Err ==> final(self).coord.peers@ == old(self).coord.peers@ && final(self).net.outboxes@ == old(self).net.outboxes@,
            !crate::session::has_peer(old(self).coord.peers@, peer_id@) ==> r
                == AppResult::<()>::Err(AppError::NotFound),
            forall|i: int|
                0 <= i < old(self).coord.peers@.len() && (#[trigger] old(self).coord.peers@[i]).id@
                    == peer_id@ ==> r == (if old(self).coord.peers@[i].state
                    == ConnectionState::Connecting {
                    AppResult::<()>::Ok(())
                } else {
                    AppResult::<()>::Err(AppError::InvalidInput)
                }),
    {
        let now = ext::now_millis();
        match self.coord.join_peer(peer_id, role, now) {
            Result::Err(e) => Result::Err(e),
            Result::Ok(()) => {
                match self.net.add_peer(peer_id.clone()) {
                    _ => Result::Ok(()),
                }
            },
        }
    }

    /// Marks a joined peer active: it now receives broadcasts.
    pub fn activate_peer(&mut self, peer_id: &String) -> (r: AppResult<()>)
        requires
            old(self).wf(),
        ensures
            final(self).wf(),
            final(self).coord.live@ == old(self).coord.live@,
            final(self).net.outboxes@ == old(self).net.outboxes@,
            final(self).events@ == old(self).events@,
            final(self).store.campaigns@ == old(self).store.campaigns@,
            final(self).store.characters@ == old(self).store.characters@,
            final(self).store.maps@ == old(self).store.maps@,
            final(self).store.assets@ == old(self).store.assets@,
            r is Ok ==> forall|i: int|
                0 <= i < final(self).coord.peers@.len() && (#[trigger] final(self).coord.peers@[i]).id@ == peer_id@ ==> final(self).coord.peers@[i].state
                    == ConnectionState::Active,
            r is Err ==> final(self).coord.peers@ == old(self).coord.peers@,
            !crate::session::has_peer(old(self).coord.peers@, peer_id@) ==> r
                == AppResult::<()>::Err(AppError::NotFound),
            forall|i: int|
                0 <= i < old(self).coord.peers@.len() && (#[trigger] old(self).coord.peers@[i]).id@
                    == peer_id@ ==> r == (if old(self).coord.peers@[i].state
                    == ConnectionState::Joined {
                    AppResult::<()>::Ok(())
                } else {
                    AppResult::<()>::Err(AppError::InvalidInput)
                }),
    {
        let now = ext::now_millis();
        self.coord.activate_peer(peer_id, now)
    }

    /// Disconnects a peer and drops its queue: it will resynchronize from
    /// a snapshot on reconnect.
    pub fn disconnect_peer(&mut self, peer_id: &String) -> (r: AppResult<()>)
        requires
            old(self).wf(),
        ensures
            final(self).wf(),
            final(self).coord.live@ == old(self).coord.live@,
            final(self).events@ == old(self).events@,
            final(self).store.campaigns@ == old(self).store.campaigns@,
            final(self).store.characters@ == old(self).store.characters@,
            final(self).store.maps@ == old(self).store.maps@,
            final(self).store.assets@ == old(self).store.assets@,
            r is Ok ==> forall|i: int|
                0 <= i < final(self).coord.peers@.len() && (#[trigger] final(self).coord.peers@[i]).id@ == peer_id@ ==> final(self).coord.peers@[i].state
                    == ConnectionState::Disconnected,
            r is Err ==> final(self).coord.peers@ == old(self).coord.peers@ && final(self).net.outboxes@ == old(self).net.outboxes@,
            crate::session::has_peer(old(self).coord.peers@, peer_id@) ==> r
                == AppResult::<()>::Ok(()),
            !crate::session::has_peer(old(self).coord.peers@, peer_id@) ==> r
                == AppResult::<()>::Err(AppError::NotFound),
    {
        let now = ext::now_millis();
        match self.coord.disconnect_peer(peer_id, now) {
            Result::Err(e) => Result::Err(e),
            Result::Ok(()) => {
                match self.net.remove_peer(peer_id) {
                    _ => Result::Ok(()),
                }
            },
        }
    }

    /// Hands the transport everything queued for a peer, oldest first.
    pub fn take_outbox(&mut self, peer_id: &String) -> (r: AppResult<Vec<Delta>>)
        requires
            old(self).wf(),
        ensures
            final(self).wf(),
            final(self).coord.peers@ == old(self).coord.peers@,
            final(self).coord.live@ == old(self).coord.live@,
            final(self).events@ == old(self).events@,
            final(self).store.campaigns@ == old(self).store.campaigns@,
            final(self).store.characters@ == old(self).store.characters@,
            final(self).store.maps@ == old(self).store.maps@,
            final(self).store.assets@ == old(self).store.assets@,
            !has_outbox(old(self).net.outboxes@, peer_id@) ==> r == AppResult::<Vec<Delta>>::Err(
                AppError::NotFound,
            ) && final(self).net.outboxes@ == old(self).net.outboxes@,
            forall|j: int|
                0 <= j < old(self).net.outboxes@.len() && (#[trigger] old(self).net.outboxes@[j]).peer_id@ == peer_id@ ==> (r matches Result::Ok(q) && queue_view(
                    q@,
                ) == queue_view(old(self).net.outboxes@[j].queue@) && final(self).net.outboxes@[j].queue@.len() == 0),
    {
        self.net.take_outbox(peer_id)
    }

    // ---------------------------------------------------------------------
    // Assets
    // ---------------------------------------------------------------------

    /// Records an imported asset's reference under a fresh id; the bytes
    /// themselves live outside the core.
    pub fn import_asset(
        &mut self,
        campaign_id: Option<String>,
        name: String,
        file_path: String,
        asset_type: crate::models::AssetType,
        file_size: i64,
        mime_type: String,
        tags: Vec<String>,
    ) -> (r: AppResult<String>)
        requires
            old(self).wf(),
        ensures
            final(self).wf(),
            final(self).store.campaigns@ == old(self).store.campaigns@,
            final(self).store.characters@ == old(self).store.characters@,
            final(self).store.maps@ == old(self).store.maps@,
            final(self).coord.live@ == old(self).coord.live@,
            final(self).coord.peers@ == old(self).coord.peers@,
            match r {
                Result::Ok(rid) => {
                    &&& final(self).store.assets@ == old(self).store.assets@.push(
                        final(self).store.assets@.last(),
                    )
                    &&& {
                        let a = final(self).store.assets@.last();
                        &&& a.id@ == rid@
                        &&& a.campaign_id == campaign_id
                        &&& a.name == name
                        &&& a.file_path == file_path
                        &&& a.asset_type == asset_type
                        &&& a.file_size == file_size
                        &&& a.mime_type == mime_type
                        &&& a.tags == tags
                    }
                },
                Result::Err(e) => e == AppError::Conflict && final(self).store.assets@ == old(self).store.assets@,
            },
    {
        self.store.import_asset(campaign_id, name, file_path, asset_type, file_size, mime_type, tags)
    }

    /// The assets a query selects: a campaign's own and the global ones,
    /// or only the global ones, sorted by name in the name order.
    pub fn get_assets(&self, campaign_id: Option<&String>) -> (r: Vec<&crate::models::Asset>)
        ensures
            r@.map_values(|a: &crate::models::Asset| *a).to_multiset()
                == crate::store::assets_visible(
                self.store.assets@,
                crate::store::query_view(campaign_id),
            ).to_multiset(),
            forall|i: int, j: int|
                0 <= i < j < r@.len() ==> crate::models::str_le(
                    #[trigger] r@[i].name@,
                    #[trigger] r@[j].name@,
                ),
    {
        self.store.get_assets(campaign_id)
    }

    /// Deletes one asset record.
    pub fn delete_asset(&mut self, asset_id: &String) -> (r: AppResult<()>)
        requires
            old(self).wf(),
        ensures
            final(self).wf(),
            final(self).store.campaigns@ == old(self).store.campaigns@,
            final(self).store.characters@ == old(self).store.characters@,
            final(self).store.maps@ == old(self).store.maps@,
            final(self).coord.live@ == old(self).coord.live@,
            final(self).coord.peers@ == old(self).coord.peers@,
            !crate::store::has_asset(old(self).store.assets@, asset_id@) ==> r
                == AppResult::<()>::Err(AppError::NotFound) && final(self).store.assets@ == old(self).store.assets@,
            crate::store::has_asset(old(self).store.assets@, asset_id@) ==> r
                == AppResult::<()>::Ok(()) && final(self).store.assets@
                == crate::store::assets_without(old(self).store.assets@, asset_id@),
    {
        self.store.delete_asset(asset_id)
    }

    // ---------------------------------------------------------------------
    // The peer path
    // ---------------------------------------------------------------------

    /// Routes an operation submitted by a peer: authority is checked, the
    /// operation is applied and persisted, the delta is broadcast to every
    /// other peer, and the matching event is emitted. An unknown,
    /// unconnected or under-privileged peer is refused with `Unauthorized`
    /// and changes nothing — in particular a non-DM `ResetFog` leaves the
    /// fog, in memory and in the store, exactly as it was.
    pub fn submit_op(&mut self, peer_id: &String, map_id: &String, op: MapOp) -> (r: AppResult<
        Delta,
    >)
        requires
            old(self).wf(),
        ensures
            final(self).wf(),
            final(self).store.campaigns@ == old(self).store.campaigns@,
            final(self).store.characters@ == old(self).store.characters@,
            final(self).store.assets@ == old(self).store.assets@,
            !has_map(old(self).store.maps@, map_id@) ==> r == AppResult::<Delta>::Err(
                AppError::NotFound,
            ) && final(self).store.maps@ == old(self).store.maps@ && final(self).coord.live@
                == old(self).coord.live@,
            !crate::session::has_peer(old(self).coord.peers@, peer_id@) && has_map(
                old(self).store.maps@,
                map_id@,
            ) ==> r == AppResult::<Delta>::Err(AppError::Unauthorized) && final(self).store.maps@
                == old(self).store.maps@,
            forall|p: int|
                0 <= p < old(self).coord.peers@.len() && (#[trigger] old(self).coord.peers@[p]).id@ == peer_id@ && has_map(old(self).store.maps@, map_id@)
                    ==> {
                    let peer = old(self).coord.peers@[p];
                    &&& (!peer.spec_connected() ==> r == AppResult::<Delta>::Err(
                        AppError::Unauthorized,
                    ) && final(self).store.maps@ == old(self).store.maps@)
                    &&& (peer.spec_connected() && peer.role != PlayerRole::DungeonMaster && op
                        is ResetFog ==> r == AppResult::<Delta>::Err(AppError::Unauthorized)
                        && final(self).store.maps@ == old(self).store.maps@ && (has_session(
                        old(self).coord.live@,
                        map_id@,
                    ) ==> final(self).coord.live@ == old(self).coord.live@))
                },
            has_session(old(self).coord.live@, map_id@) ==> forall|p: int, j: int|
                0 <= p < old(self).coord.peers@.len() && (#[trigger] old(self).coord.peers@[p]).id@ == peer_id@ && 0 <= j < old(self).coord.live@.len() && (
                #[trigger] old(self).coord.live@[j]).map_id@ == map_id@ ==> {
                    let peer = old(self).coord.peers@[p];
                    let pre = old(self).coord.live@[j];
                    let post = final(self).coord.live@[j];
                    peer.spec_connected() && crate::session::op_permitted(
                        peer.role,
                        peer.name@,
                        op,
                        old(self).store.characters@,
                        pre.tokens@,
                    ) && pre.seq_no < u64::MAX ==> {
                        &&& op_applied(pre, post, op, r)
                        &&& (r is Ok ==> forall|mm: int|
                            0 <= mm < old(self).store.maps@.len() && (#[trigger] old(self).store.maps@[mm]).id@ == map_id@ ==> record_updated_to(
                                old(self).store.maps@[mm],
                                final(self).store.maps@[mm],
                                post,
                            ))
                    }
                },
            r matches Result::Ok(d) ==> {
                &&& final(self).events@ == old(self).events@.push(final(self).events@.last())
                &&& event_for_delta(d@, map_id@, final(self).events@.last())
            },
            r is Err ==> final(self).events@ == old(self).events@ && final(self).net.outboxes@
                == old(self).net.outboxes@ && final(self).coord.peers@ == old(self).coord.peers@,
            !has_session(old(self).coord.live@, map_id@) && has_map(old(self).store.maps@, map_id@)
                ==> forall|p: int, j: int, mm: int|
                0 <= p < old(self).coord.peers@.len() && (#[trigger] old(self).coord.peers@[p]).id@ == peer_id@ && 0 <= j < final(self).coord.live@.len() && (
                #[trigger] final(self).coord.live@[j]).map_id@ == map_id@ && 0 <= mm < old(self).store.maps@.len() && (#[trigger] old(self).store.maps@[mm]).id@ == map_id@
                    ==> exists|pre: MapSession|
                    opened_from(pre, old(self).store.maps@[mm], map_id@) && ({
                        let peer = old(self).coord.peers@[p];
                        peer.spec_connected() && crate::session::op_permitted(
                            peer.role,
                            peer.name@,
                            op,
                            old(self).store.characters@,
                            pre.tokens@,
                        ) ==> op_applied(pre, final(self).coord.live@[j], op, r) && (r is Ok
                            ==> record_updated_to(
                            old(self).store.maps@[mm],
                            final(self).store.maps@[mm],
                            final(self).coord.live@[j],
                        ))
                    }),
    {
        let ghost the_op = op;
        match self.coord.ensure_live(&self.store, map_id) {
            Result::Err(e) => Result::Err(e),
            Result::Ok(_i) => {
                let ghost mid_live = self.coord.live@;
                proof {
                    if !has_session(old(self).coord.live@, map_id@) {
                        assert(mid_live == old(self).coord.live@.push(mid_live.last()));
                        assert(mid_live.last().seq_no == 0);
                    }
                    assert forall|j: int|
                        0 <= j < mid_live.len() && (#[trigger] mid_live[j]).map_id@ == map_id@
                            && !has_session(old(self).coord.live@, map_id@) implies j
                        == mid_live.len() - 1 by {
                        if j < old(self).coord.live@.len() {
                            assert(old(self).coord.live@[j].map_id@ != map_id@);
                        }
                    }
                }
                match self.coord.handle_map_op(&mut self.store, peer_id, map_id, op) {
                    Result::Err(e) => {

                        proof {
                            if !has_session(old(self).coord.live@, map_id@) && has_map(
                                old(self).store.maps@,
                                map_id@,
                            ) {
                                let jt = mid_live.len() - 1;
                                assert forall|p: int, j: int, mm: int|
                                    0 <= p < old(self).coord.peers@.len() && (#[trigger] old(self).coord.peers@[p]).id@ == peer_id@ && 0 <= j < self.coord.live@.len()
                                        && (#[trigger] self.coord.live@[j]).map_id@ == map_id@
                                        && 0 <= mm < old(self).store.maps@.len() && (
                                    #[trigger] old(self).store.maps@[mm]).id@ == map_id@ implies
                                    exists|pre: MapSession|
                                    opened_from(pre, old(self).store.maps@[mm], map_id@) && ({
                                        let peer = old(self).coord.peers@[p];
                                        peer.spec_connected() && crate::session::op_permitted(
                                            peer.role,
                                            peer.name@,
                                            the_op,
                                            old(self).store.characters@,
                                            pre.tokens@,
                                        ) ==> op_applied(pre, self.coord.live@[j], the_op, AppResult::<Delta>::Err(e))
                                            && (AppResult::<Delta>::Err(e) is Ok ==> record_updated_to(
                                            old(self).store.maps@[mm],
                                            self.store.maps@[mm],
                                            self.coord.live@[j],
                                        ))
                                    }) by {
                                    assert(self.coord.live@[jt].map_id == mid_live[jt].map_id);
                                    assert(j == jt) by {
                                        if j < jt {
                                            assert(self.coord.live@[j].map_id@
                                                != self.coord.live@[jt].map_id@);
                                        }
                                        if jt < j {
                                            assert(self.coord.live@[jt].map_id@
                                                != self.coord.live@[j].map_id@);
                                        }
                                    }
                                    let pre = mid_live[jt];
                                    assert(session_backed(mid_live[jt], old(self).store.maps@));
                                    let m = choose|m: int|
                                        0 <= m < old(self).store.maps@.len() && (#[trigger] old(self).store.maps@[m]).id@ == mid_live[jt].map_id@
                                            && tokens_view(old(self).store.maps@[m].tokens@)
                                            == tokens_view(mid_live[jt].tokens@) && fog_synced(
                                            old(self).store.maps@[m].fog_of_war,
                                            mid_live[jt].fog@,
                                        );
                                    assert(m == mm) by {
                                        if m < mm {
                                            assert(old(self).store.maps@[m].id@ != old(self).store.maps@[mm].id@);
                                        }
                                        if mm < m {
                                            assert(old(self).store.maps@[mm].id@ != old(self).store.maps@[m].id@);
                                        }
                                    }
                                    assert(opened_from(pre, old(self).store.maps@[mm], map_id@));
                                    if old(self).coord.peers@[p].spec_connected()
                                        && crate::session::op_permitted(
                                        old(self).coord.peers@[p].role,
                                        old(self).coord.peers@[p].name@,
                                        the_op,
                                        old(self).store.characters@,
                                        pre.tokens@,
                                    ) {
                                        assert(op_applied(
                                            mid_live[jt],
                                            self.coord.live@[jt],
                                            the_op,
                                            AppResult::<Delta>::Err(e),
                                        ));
                                    }
                                }
                            }
                        }

                        Result::Err(e)
                    },
                    Result::Ok(d) => {
                        self.fanout(&d, Option::Some(peer_id));
                        let ev = match &d {
                            Delta::TokenAdded { token, .. } => AppEvent::TokenCreated {
                                id: token.id.clone(),
                                map_id: map_id.clone(),
                            },
                            Delta::TokenMoved { token_id, position, .. } => AppEvent::TokenMoved {
                                id: token_id.clone(),
                                map_id: map_id.clone(),
                                x: position.x,
                                y: position.y,
                            },
                            Delta::TokenRemoved { token_id, .. } => AppEvent::TokenDeleted {
                                id: token_id.clone(),
                                map_id: map_id.clone(),
                            },
                            Delta::FogRevealed { .. } => AppEvent::FogRevealed {
                                map_id: map_id.clone(),
                            },
                            Delta::FogReset { .. } => AppEvent::FogReset {
                                map_id: map_id.clone(),
                            },
                        };
                        self.events.push(ev);

                        proof {
                            if !has_session(old(self).coord.live@, map_id@) && has_map(
                                old(self).store.maps@,
                                map_id@,
                            ) {
                                let jt = mid_live.len() - 1;
                                assert forall|p: int, j: int, mm: int|
                                    0 <= p < old(self).coord.peers@.len() && (#[trigger] old(self).coord.peers@[p]).id@ == peer_id@ && 0 <= j < self.coord.live@.len()
                                        && (#[trigger] self.coord.live@[j]).map_id@ == map_id@
                                        && 0 <= mm < old(self).store.maps@.len() && (
                                    #[trigger] old(self).store.maps@[mm]).id@ == map_id@ implies
                                    exists|pre: MapSession|
                                    opened_from(pre, old(self).store.maps@[mm], map_id@) && ({
                                        let peer = old(self).coord.peers@[p];
                                        peer.spec_connected() && crate::session::op_permitted(
                                            peer.role,
                                            peer.name@,
                                            the_op,
                                            old(self).store.characters@,
                                            pre.tokens@,
                                        ) ==> op_applied(pre, self.coord.live@[j], the_op, AppResult::<Delta>::Ok(d))
                                            && (AppResult::<Delta>::Ok(d) is Ok ==> record_updated_to(
                                            old(self).store.maps@[mm],
                                            self.store.maps@[mm],
                                            self.coord.live@[j],
                                        ))
                                    }) by {
                                    assert(self.coord.live@[jt].map_id == mid_live[jt].map_id);
                                    assert(j == jt) by {
                                        if j < jt {
                                            assert(self.coord.live@[j].map_id@
                                                != self.coord.live@[jt].map_id@);
                                        }
                                        if jt < j {
                                            assert(self.coord.live@[jt].map_id@
                                                != self.coord.live@[j].map_id@);
                                        }
                                    }
                                    let pre = mid_live[jt];
                                    assert(session_backed(mid_live[jt], old(self).store.maps@));
                                    let m = choose|m: int|
                                        0 <= m < old(self).store.maps@.len() && (#[trigger] old(self).store.maps@[m]).id@ == mid_live[jt].map_id@
                                            && tokens_view(old(self).store.maps@[m].tokens@)
                                            == tokens_view(mid_live[jt].tokens@) && fog_synced(
                                            old(self).store.maps@[m].fog_of_war,
                                            mid_live[jt].fog@,
                                        );
                                    assert(m == mm) by {
                                        if m < mm {
                                            assert(old(self).store.maps@[m].id@ != old(self).store.maps@[mm].id@);
                                        }
                                        if mm < m {
                                            assert(old(self).store.maps@[mm].id@ != old(self).store.maps@[m].id@);
                                        }
                                    }
                                    assert(opened_from(pre, old(self).store.maps@[mm], map_id@));
                                    if old(self).coord.peers@[p].spec_connected()
                                        && crate::session::op_permitted(
                                        old(self).coord.peers@[p].role,
                                        old(self).coord.peers@[p].name@,
                                        the_op,
                                        old(self).store.characters@,
                                        pre.tokens@,
                                    ) {
                                        assert(op_applied(
                                            mid_live[jt],
                                            self.coord.live@[jt],
                                            the_op,
                                            AppResult::<Delta>::Ok(d),
                                        ));
                                    }
                                }
                            }
                        }

                        Result::Ok(d)
                    },
                }
            },
        }
    }

    // ---------------------------------------------------------------------
    // Fan-out
    // ---------------------------------------------------------------------

    /// Broadcasts one applied delta to every peer's queue but the
    /// originator's, then disconnects every peer whose queue was full —
    /// a slow peer must not block or buffer without bound; it will
    /// resynchronize from a snapshot on reconnect.
    fn fanout(&mut self, delta: &Delta, exclude: Option<&String>)
        requires
            old(self).coord.wf(),
            old(self).net.wf(),
        ensures
            final(self).coord.wf(),
            final(self).net.wf(),
            final(self).store.campaigns@ == old(self).store.campaigns@,
            final(self).store.characters@ == old(self).store.characters@,
            final(self).store.maps@ == old(self).store.maps@,
            final(self).store.assets@ == old(self).store.assets@,
            final(self).coord.live@ == old(self).coord.live@,
            final(self).events@ == old(self).events@,
            final(self).coord.peers@.len() == old(self).coord.peers@.len(),
            forall|p: int|
                0 <= p < old(self).coord.peers@.len() ==> peer_fate(
                    old(self).coord.peers@[p],
                    #[trigger] final(self).coord.peers@[p],
                    overflow_ids(old(self).net.outboxes@, exclude_view(exclude)),
                ),
            forall|j: int|
                0 <= j < old(self).net.outboxes@.len() && !overflow_ids(
                    old(self).net.outboxes@,
                    exclude_view(exclude),
                ).contains((#[trigger] old(self).net.outboxes@[j]).peer_id@) ==> exists|j2: int|
                    0 <= j2 < final(self).net.outboxes@.len() && (#[trigger] final(self).net.outboxes@[j2]).peer_id == old(self).net.outboxes@[j].peer_id
                        && queue_view(final(self).net.outboxes@[j2].queue@) == delivered_queue(
                        old(self).net.outboxes@[j],
                        delta@,
                        exclude_view(exclude),
                    ),
            forall|j2: int|
                0 <= j2 < final(self).net.outboxes@.len() ==> exists|j: int|
                    0 <= j < old(self).net.outboxes@.len() && (#[trigger] final(self).net.outboxes@[j2]).peer_id == old(self).net.outboxes@[j].peer_id
                        && queue_view(final(self).net.outboxes@[j2].queue@) == delivered_queue(
                        old(self).net.outboxes@[j],
                        delta@,
                        exclude_view(exclude),
                    ),
    {
        let ghost ex = exclude_view(exclude);
        let ghost pre_boxes = self.net.outboxes@;
        let overflowed = self.net.broadcast(delta, exclude);
        let ghost overset = overflow_ids(pre_boxes, ex);
        let ghost mid = self.net.outboxes@;
        proof {
            assert forall|j: int|
                0 <= j < mid.len() && !overset.contains((#[trigger] mid[j]).peer_id@)
                    implies self.net.outboxes@.contains(mid[j]) by {}
        }
        let now = ext::now_millis();
        let mut i: usize = 0;
        while i < overflowed.len()
            invariant
                i <= overflowed.len(),
                overflowed@.map_values(|s: String| s@) == overset,
                self.coord.wf(),
                self.net.wf(),
                self.store.campaigns@ == old(self).store.campaigns@,
                self.store.characters@ == old(self).store.characters@,
                self.store.maps@ == old(self).store.maps@,
                self.store.assets@ == old(self).store.assets@,
                self.coord.live@ == old(self).coord.live@,
                self.events@ == old(self).events@,
                self.coord.peers@.len() == old(self).coord.peers@.len(),
                mid.len() == pre_boxes.len(),
                forall|j: int|
                    0 <= j < mid.len() ==> (#[trigger] mid[j]).peer_id == pre_boxes[j].peer_id
                        && queue_view(mid[j].queue@) == delivered_queue(pre_boxes[j], delta@, ex),
                forall|p: int|
                    0 <= p < old(self).coord.peers@.len() ==> peer_fate(
                        old(self).coord.peers@[p],
                        #[trigger] self.coord.peers@[p],
                        overset,
                    ),
                forall|j: int|
                    0 <= j < mid.len() && !overset.contains((#[trigger] mid[j]).peer_id@)
                        ==> self.net.outboxes@.contains(mid[j]),
                forall|j2: int|
                    0 <= j2 < self.net.outboxes@.len() ==> mid.contains(
                        #[trigger] self.net.outboxes@[j2],
                    ),
            decreases overflowed.len() - i,
        {
            let pid = &overflowed[i];
            proof {
                assert(overflowed@.map_values(|s: String| s@)[i as int] == pid@);
                assert(overset.contains(pid@));
            }
            let ghost cur_peers = self.coord.peers@;
            let _ = self.coord.disconnect_peer(pid, now);
            proof {
                assert forall|p: int|
                    0 <= p < old(self).coord.peers@.len() implies peer_fate(
                    old(self).coord.peers@[p],
                    #[trigger] self.coord.peers@[p],
                    overset,
                ) by {
                    assert(cur_peers.len() == old(self).coord.peers@.len());
                    assert(peer_fate(old(self).coord.peers@[p], cur_peers[p], overset));
                }
            }
            let ghost cur_boxes = self.net.outboxes@;
            let removed = self.net.remove_peer(pid);
            proof {
                if removed is Ok {
                    crate::broadcast::lemma_outboxes_without_props(cur_boxes, pid@);
                    assert forall|j: int|
                        0 <= j < mid.len() && !overset.contains((#[trigger] mid[j]).peer_id@)
                            implies self.net.outboxes@.contains(mid[j]) by {
                        assert(cur_boxes.contains(mid[j]));
                        let w = choose|w: int| 0 <= w < cur_boxes.len() && cur_boxes[w] == mid[j];
                        assert(mid[j].peer_id@ != pid@);
                        assert(self.net.outboxes@.contains(cur_boxes[w]));
                    }
                    assert forall|j2: int|
                        0 <= j2 < self.net.outboxes@.len() implies mid.contains(
                        #[trigger] self.net.outboxes@[j2],
                    ) by {
                        assert(cur_boxes.contains(self.net.outboxes@[j2]));
                    }
                }
            }
            i = i + 1;
        }
        proof {
            assert forall|j: int|
                0 <= j < pre_boxes.len() && !overset.contains(
                    (#[trigger] pre_boxes[j]).peer_id@,
                ) implies exists|j2: int|
                0 <= j2 < final(self).net.outboxes@.len() && (#[trigger] final(self).net.outboxes@[j2]).peer_id == pre_boxes[j].peer_id && queue_view(
                    final(self).net.outboxes@[j2].queue@,
                ) == delivered_queue(pre_boxes[j], delta@, ex) by {
                assert(mid[j].peer_id == pre_boxes[j].peer_id);
                assert(self.net.outboxes@.contains(mid[j]));
                let w = choose|w: int|
                    0 <= w < self.net.outboxes@.len() && self.net.outboxes@[w] == mid[j];
            }
            assert forall|j2: int|
                0 <= j2 < final(self).net.outboxes@.len() implies exists|j: int|
                0 <= j < pre_boxes.len() && (#[trigger] final(self).net.outboxes@[j2]).peer_id
                    == pre_boxes[j].peer_id && queue_view(final(self).net.outboxes@[j2].queue@)
                    == delivered_queue(pre_boxes[j], delta@, ex) by {
                assert(mid.contains(final(self).net.outboxes@[j2]));
                let w = choose|w: int| 0 <= w < mid.len() && mid[w] == final(self).net.outboxes@[j2];
            }
        }
    }
}

} // verus!
