//! The session coordinator: tracks which peers are connected, assigns
//! authority, and routes inbound operations to the right live map,
//! persisting every applied mutation to the entity store before reporting
//! success.
//!
//! Peers walk the connection life cycle `Connecting -> Joined -> Active ->
//! Disconnected`; a role is granted on join and decides which operations a
//! peer may submit: only the DM may reset fog or remove another player's
//! token, and a player may move only tokens they own or that are unowned.

use vstd::prelude::*;

use crate::errors::{AppError, AppResult};
use crate::map_state::{
    Delta, DeltaView, MapSession, areas_unique, has_token, moved_tokens, revealed_set,
    token_ids_unique, tokens_without,
};
use crate::models::{
    Character, ConnectionState, FogOfWar, FogView, GameMap, PeerInfo, PlayerRole, Position,
    RevealedArea, Token, clone_opt_fog, clone_tokens, opt_fog_view, tokens_view,
};
use crate::store::{EntityStore, has_character, has_map};

verus! {

// =========================================================================
// Operations a peer may submit
// =========================================================================

/// One inbound mutation of a map, as decoded from a peer message or a
/// local action.
#[derive(Debug)]
pub enum MapOp {
    AddToken(Token),
    MoveToken { token_id: String, position: Position },
    RemoveToken { token_id: String },
    RevealFog(RevealedArea),
    ResetFog,
}

// =========================================================================
// Peers
// =========================================================================

pub open spec fn peer_ids_unique(s: Seq<PeerInfo>) -> bool {
    forall|i: int, j: int| 0 <= i < j < s.len() ==> s[i].id@ != s[j].id@
}

pub open spec fn has_peer(s: Seq<PeerInfo>, id: Seq<char>) -> bool {
    exists|i: int| 0 <= i < s.len() && s[i].id@ == id
}

fn peer_index(v: &Vec<PeerInfo>, id: &String) -> (r: Option<usize>)
    ensures
        match r {
            Option::Some(i) => i < v.len() && v@[i as int].id@ == id@,
            Option::None => !has_peer(v@, id@),
        },
{
    let mut i: usize = 0;
    while i < v.len()
        invariant
            i <= v.len(),
            forall|j: int| 0 <= j < i ==> v@[j].id@ != id@,
        decreases v.len() - i,
    {
        if v[i].id == *id {
            return Option::Some(i);
        }
        i = i + 1;
    }
    Option::None
}

// =========================================================================
// Live sessions
// =========================================================================

pub open spec fn session_ids_unique(s: Seq<MapSession>) -> bool {
    forall|i: int, j: int| 0 <= i < j < s.len() ==> s[i].map_id@ != s[j].map_id@
}

pub open spec fn has_session(s: Seq<MapSession>, map_id: Seq<char>) -> bool {
    exists|i: int| 0 <= i < s.len() && s[i].map_id@ == map_id
}

fn session_index(v: &Vec<MapSession>, map_id: &String) -> (r: Option<usize>)
    ensures
        match r {
            Option::Some(i) => i < v.len() && v@[i as int].map_id@ == map_id@,
            Option::None => !has_session(v@, map_id@),
        },
{
    let mut i: usize = 0;
    while i < v.len()
        invariant
            i <= v.len(),
            forall|j: int| 0 <= j < i ==> v@[j].map_id@ != map_id@,
        decreases v.len() - i,
    {
        if v[i].map_id == *map_id {
            return Option::Some(i);
        }
        i = i + 1;
    }
    Option::None
}

/// A freshly opened session shows an all-hidden map: no revealed areas,
/// fog disabled, until the first save writes an explicit fog record.
pub open spec fn fog_synced(record: Option<FogOfWar>, session: FogView) -> bool {
    match record {
        Option::Some(f) => f@ == session,
        Option::None => session.revealed.len() == 0 && !session.enabled,
    }
}

/// One live session mirrors some stored record of its map, token for
/// token.
pub open spec fn session_backed(s: MapSession, maps: Seq<GameMap>) -> bool {
    exists|m: int|
        0 <= m < maps.len() && (#[trigger] maps[m]).id@ == s.map_id@ && tokens_view(
            maps[m].tokens@,
        ) == tokens_view(s.tokens@) && fog_synced(maps[m].fog_of_war, s.fog@)
}

/// Memory and storage agree: every live session is backed by a record.
pub open spec fn sessions_synced(live: Seq<MapSession>, maps: Seq<GameMap>) -> bool {
    forall|j: int| 0 <= j < live.len() ==> session_backed(#[trigger] live[j], maps)
}

/// Every stored map could be opened as a session: its token ids are
/// unique and its fog holds no duplicate areas.
pub open spec fn store_maps_wf(maps: Seq<GameMap>) -> bool {
    forall|m: int|
        0 <= m < maps.len() ==> token_ids_unique((#[trigger] maps[m]).tokens@) && match maps[
            m
        ].fog_of_war {
            Option::Some(f) => areas_unique(f@.revealed),
            Option::None => true,
        }
}

/// The live sessions whose maps still have a stored record, in order.
pub open spec fn live_backed_only(s: Seq<MapSession>, maps: Seq<GameMap>) -> Seq<MapSession>
    decreases s.len(),
{
    if s.len() == 0 {
        Seq::empty()
    } else {
        let rest = live_backed_only(s.drop_last(), maps);
        if has_map(maps, s.last().map_id@) {
            rest.push(s.last())
        } else {
            rest
        }
    }
}

/// Every session that survives eviction is one of the original sessions,
/// and its map has a stored record.
pub proof fn lemma_live_backed_only_props(s: Seq<MapSession>, maps: Seq<GameMap>)
    ensures
        forall|i: int|
            0 <= i < live_backed_only(s, maps).len() ==> s.contains(
                #[trigger] live_backed_only(s, maps)[i],
            ) && has_map(maps, live_backed_only(s, maps)[i].map_id@),
    decreases s.len(),
{
    if s.len() == 0 {
    } else {
        lemma_live_backed_only_props(s.drop_last(), maps);
        let res = live_backed_only(s, maps);
        let rest = live_backed_only(s.drop_last(), maps);
        assert forall|i: int|
            0 <= i < res.len() implies s.contains(res[i]) && has_map(maps, res[i].map_id@) by {
            if has_map(maps, s.last().map_id@) && i == res.len() - 1 {
                assert(res[i] == s.last());
                assert(s[s.len() - 1] == s.last());
            } else {
                assert(res[i] == rest[i]);
                assert(s.drop_last().contains(rest[i]));
                let w = choose|w: int|
                    0 <= w < s.drop_last().len() && s.drop_last()[w] == rest[i];
                assert(s[w] == rest[i]);
            }
        }
    }
}

/// Synchronization survives shrinking the store: a session kept because
/// its record survived is still backed, since the surviving record is the
/// very one that backed it.
pub proof fn lemma_sync_after_shrink(
    old_live: Seq<MapSession>,
    old_maps: Seq<GameMap>,
    new_maps: Seq<GameMap>,
)
    requires
        sessions_synced(old_live, old_maps),
        crate::store::map_ids_unique(old_maps),
        forall|m: int| 0 <= m < new_maps.len() ==> old_maps.contains(#[trigger] new_maps[m]),
    ensures
        sessions_synced(live_backed_only(old_live, new_maps), new_maps),
{
    lemma_live_backed_only_props(old_live, new_maps);
    let res = live_backed_only(old_live, new_maps);
    assert forall|j: int| 0 <= j < res.len() implies session_backed(
        #[trigger] res[j],
        new_maps,
    ) by {
        let s = res[j];
        assert(old_live.contains(s));
        let w = choose|w: int| 0 <= w < old_live.len() && old_live[w] == s;
        assert(session_backed(old_live[w], old_maps));
        let mo = choose|mo: int|
            0 <= mo < old_maps.len() && (#[trigger] old_maps[mo]).id@ == old_live[w].map_id@
                && tokens_view(old_maps[mo].tokens@) == tokens_view(old_live[w].tokens@)
                && fog_synced(old_maps[mo].fog_of_war, old_live[w].fog@);
        assert(has_map(new_maps, s.map_id@));
        let mn = choose|mn: int| 0 <= mn < new_maps.len() && new_maps[mn].id@ == s.map_id@;
        assert(old_maps.contains(new_maps[mn]));
        let q = choose|q: int| 0 <= q < old_maps.len() && old_maps[q] == new_maps[mn];
        assert(q == mo) by {
            if q < mo {
                assert(old_maps[q].id@ != old_maps[mo].id@);
            }
            if mo < q {
                assert(old_maps[mo].id@ != old_maps[q].id@);
            }
        }
        assert(new_maps[mn] == old_maps[mo]);
        assert(new_maps[mn].id@ == s.map_id@ && tokens_view(new_maps[mn].tokens@) == tokens_view(
            s.tokens@,
        ) && fog_synced(new_maps[mn].fog_of_war, s.fog@));
    }
}

// =========================================================================
// Authority
// =========================================================================

/// Whether a peer of this name controls a character: the character's
/// player, or anyone for a character that names no player.
pub open spec fn controls_character(c: Character, peer_name: Seq<char>) -> bool {
    match c.player_name {
        Option::Some(p) => p@ == peer_name,
        Option::None => true,
    }
}

/// Whether a peer of this name may move or remove a token: always, for a
/// token linked to no character (or to none that exists); otherwise only
/// if the peer controls the linked character.
pub open spec fn may_control(chars: Seq<Character>, peer_name: Seq<char>, t: Token) -> bool {
    match t.character_id {
        Option::None => true,
        Option::Some(cid) => forall|i: int|
            0 <= i < chars.len() && (#[trigger] chars[i]).id@ == cid@ ==> controls_character(
                chars[i],
                peer_name,
            ),
    }
}

/// The authority rule, applied uniformly before any operation reaches a
/// map: an observer mutates nothing; only the DM resets fog; any player
/// may add tokens and reveal fog; a player may move or remove a token
/// only if it is unowned or their own — the DM may always.
pub open spec fn op_permitted(
    role: PlayerRole,
    peer_name: Seq<char>,
    op: MapOp,
    chars: Seq<Character>,
    tokens: Seq<Token>,
) -> bool {
    match op {
        MapOp::AddToken(_) => role != PlayerRole::Observer,
        MapOp::RevealFog(_) => role != PlayerRole::Observer,
        MapOp::ResetFog => role == PlayerRole::DungeonMaster,
        MapOp::MoveToken { token_id, .. } => role == PlayerRole::DungeonMaster || (role
            == PlayerRole::Player && forall|i: int|
            0 <= i < tokens.len() && (#[trigger] tokens[i]).id@ == token_id@ ==> may_control(
                chars,
                peer_name,
                tokens[i],
            )),
        MapOp::RemoveToken { token_id } => role == PlayerRole::DungeonMaster || (role
            == PlayerRole::Player && forall|i: int|
            0 <= i < tokens.len() && (#[trigger] tokens[i]).id@ == token_id@ ==> may_control(
                chars,
                peer_name,
                tokens[i],
            )),
    }
}

fn check_controls(characters: &Vec<Character>, peer_name: &String, t: &Token) -> (r: bool)
    requires
        crate::store::character_ids_unique(characters@),
    ensures
        r == may_control(characters@, peer_name@, *t),
{
    let linked = &t.character_id;
    match linked {
        Option::None => true,
        Option::Some(cid) => {
            let mut i: usize = 0;
            while i < characters.len()
                invariant
                    i <= characters.len(),
                    crate::store::character_ids_unique(characters@),
                    forall|j: int| 0 <= j < i ==> characters@[j].id@ != cid@,
                    t.character_id == Option::Some(*cid),
                decreases characters.len() - i,
            {
                if characters[i].id == *cid {
                    let owns = match &characters[i].player_name {
                        Option::None => true,
                        Option::Some(p) => *p == *peer_name,
                    };
                    proof {
                        assert(owns == controls_character(characters@[i as int], peer_name@));
                        assert forall|j: int|
                            0 <= j < characters@.len() && (#[trigger] characters@[j]).id@ == cid@
                                implies j == i by {
                            if j < i {
                                assert(characters@[j].id@ != characters@[i as int].id@);
                            }
                            if i < j {
                                assert(characters@[i as int].id@ != characters@[j].id@);
                            }
                        }
                        assert(t.character_id matches Option::Some(c) && c@ == cid@);
                        if owns {
                            assert(may_control(characters@, peer_name@, *t));
                        } else {
                            assert(characters@[i as int].id@ == cid@);
                            assert(!controls_character(characters@[i as int], peer_name@));
                            assert(!may_control(characters@, peer_name@, *t));
                        }
                    }
                    return owns;
                }
                i = i + 1;
            }
            true
        },
    }
}

fn token_controllable(
    tokens: &Vec<Token>,
    characters: &Vec<Character>,
    peer_name: &String,
    token_id: &String,
) -> (r: bool)
    requires
        crate::store::character_ids_unique(characters@),
        token_ids_unique(tokens@),
    ensures
        r == forall|i: int|
            0 <= i < tokens@.len() && (#[trigger] tokens@[i]).id@ == token_id@ ==> may_control(
                characters@,
                peer_name@,
                tokens@[i],
            ),
{
    let mut i: usize = 0;
    while i < tokens.len()
        invariant
            i <= tokens.len(),
            crate::store::character_ids_unique(characters@),
            token_ids_unique(tokens@),
            forall|j: int| 0 <= j < i ==> tokens@[j].id@ != token_id@,
        decreases tokens.len() - i,
    {
        if tokens[i].id == *token_id {
            let owns = check_controls(characters, peer_name, &tokens[i]);
            proof {
                assert forall|j: int|
                    0 <= j < tokens@.len() && (#[trigger] tokens@[j]).id@ == token_id@ implies j
                    == i by {}
            }
            return owns;
        }
        i = i + 1;
    }
    true
}

fn op_authorized(
    peer: &PeerInfo,
    op: &MapOp,
    characters: &Vec<Character>,
    tokens: &Vec<Token>,
) -> (r: bool)
    requires
        crate::store::character_ids_unique(characters@),
        token_ids_unique(tokens@),
    ensures
        r == op_permitted(peer.role, peer.name@, *op, characters@, tokens@),
{
    match op {
        MapOp::AddToken(_) => match peer.role {
            PlayerRole::Observer => false,
            _ => true,
        },
        MapOp::RevealFog(_) => match peer.role {
            PlayerRole::Observer => false,
            _ => true,
        },
        MapOp::ResetFog => match peer.role {
            PlayerRole::DungeonMaster => true,
            _ => false,
        },
        MapOp::MoveToken { token_id, .. } => match peer.role {
            PlayerRole::DungeonMaster => true,
            PlayerRole::Observer => false,
            PlayerRole::Player => token_controllable(tokens, characters, &peer.name, token_id),
        },
        MapOp::RemoveToken { token_id } => match peer.role {
            PlayerRole::DungeonMaster => true,
            PlayerRole::Observer => false,
            PlayerRole::Player => token_controllable(tokens, characters, &peer.name, token_id),
        },
    }
}

// =========================================================================
// Outcomes
// =========================================================================

/// The two sessions hold the same state: the same map, tokens, fog and
/// sequence number.
pub open spec fn session_same(a: MapSession, b: MapSession) -> bool {
    &&& a.map_id == b.map_id
    &&& a.tokens@ == b.tokens@
    &&& a.fog@ == b.fog@
    &&& a.seq_no == b.seq_no
}

/// What one operation does to a live map, and what it returns: the
/// conflict and ordering policy, case by case.
pub open spec fn op_applied(pre: MapSession, post: MapSession, op: MapOp, r: AppResult<
    Delta,
>) -> bool {
    post.map_id == pre.map_id && match op {
        MapOp::AddToken(t) => if has_token(pre.tokens@, t@.id) {
            &&& r == AppResult::<Delta>::Err(AppError::Conflict)
            &&& session_same(post, pre)
        } else {
            &&& r matches Result::Ok(d) && d@ == (DeltaView::TokenAdded {
                seq_no: (pre.seq_no + 1) as u64,
                token: t@,
            })
            &&& post.tokens@ == pre.tokens@.push(t)
            &&& post.fog@ == pre.fog@
            &&& post.seq_no == pre.seq_no + 1
        },
        MapOp::MoveToken { token_id, position } => if !has_token(pre.tokens@, token_id@) {
            &&& r == AppResult::<Delta>::Err(AppError::NotFound)
            &&& session_same(post, pre)
        } else {
            &&& r matches Result::Ok(d) && d@ == (DeltaView::TokenMoved {
                seq_no: (pre.seq_no + 1) as u64,
                token_id: token_id@,
                position: position,
            })
            &&& post.tokens@ == moved_tokens(pre.tokens@, token_id@, position)
            &&& post.fog@ == pre.fog@
            &&& post.seq_no == pre.seq_no + 1
        },
        MapOp::RemoveToken { token_id } => {
            &&& r matches Result::Ok(d) && d@ == (DeltaView::TokenRemoved {
                seq_no: post.seq_no,
                token_id: token_id@,
            })
            &&& post.fog@ == pre.fog@
            &&& if has_token(pre.tokens@, token_id@) {
                post.tokens@ == tokens_without(pre.tokens@, token_id@) && post.seq_no == pre.seq_no
                    + 1
            } else {
                post.tokens@ == pre.tokens@ && post.seq_no == pre.seq_no
            }
        },
        MapOp::RevealFog(a) => {
            &&& r matches Result::Ok(d) && d@ == (DeltaView::FogRevealed {
                seq_no: post.seq_no,
                area: a@,
            })
            &&& post.tokens@ == pre.tokens@
            &&& post.fog@.enabled == pre.fog@.enabled
            &&& revealed_set(post.fog@) == revealed_set(pre.fog@).insert(a@)
            &&& if pre.fog@.revealed.contains(a@) {
                post.fog@ == pre.fog@ && post.seq_no == pre.seq_no
            } else {
                post.fog@.revealed == pre.fog@.revealed.push(a@) && post.seq_no == pre.seq_no + 1
            }
        },
        MapOp::ResetFog => {
            &&& r matches Result::Ok(d) && d@ == (DeltaView::FogReset {
                seq_no: (pre.seq_no + 1) as u64,
            })
            &&& post.tokens@ == pre.tokens@
            &&& post.fog@.enabled == pre.fog@.enabled
            &&& post.fog@.revealed.len() == 0
            &&& post.seq_no == pre.seq_no + 1
        },
    }
}

/// The delta an operation produces carries the operation's own content:
/// the token, the id and position, the area, or the reset.
pub open spec fn delta_matches_op(d: DeltaView, op: MapOp) -> bool {
    match op {
        MapOp::AddToken(t) => d matches DeltaView::TokenAdded { token, .. } && token == t@,
        MapOp::MoveToken { token_id, position } => d matches DeltaView::TokenMoved {
            token_id: tid,
            position: p,
            ..
        } && tid == token_id@ && p == position,
        MapOp::RemoveToken { token_id } => d matches DeltaView::TokenRemoved { token_id: tid, .. }
            && tid == token_id@,
        MapOp::RevealFog(a) => d matches DeltaView::FogRevealed { area, .. } && area == a@,
        MapOp::ResetFog => d is FogReset,
    }
}

/// A session as it stands when freshly opened from a stored record: the
/// record's tokens and fog, and the sequence counter at zero.
pub open spec fn opened_from(pre: MapSession, m: GameMap, map_id: Seq<char>) -> bool {
    &&& pre.map_id@ == map_id
    &&& tokens_view(pre.tokens@) == tokens_view(m.tokens@)
    &&& fog_synced(m.fog_of_war, pre.fog@)
    &&& pre.seq_no == 0
}

/// The stored record now carries the session's state: the same tokens and
/// fog, value for value, with every descriptive field kept.
pub open spec fn record_updated_to(m_old: GameMap, m_new: GameMap, s: MapSession) -> bool {
    &&& m_new.id == m_old.id
    &&& m_new.campaign_id == m_old.campaign_id
    &&& m_new.name == m_old.name
    &&& m_new.description == m_old.description
    &&& m_new.image_url == m_old.image_url
    &&& m_new.grid_size == m_old.grid_size
    &&& m_new.width == m_old.width
    &&& m_new.height == m_old.height
    &&& m_new.created_at == m_old.created_at
    &&& tokens_view(m_new.tokens@) == tokens_view(s.tokens@)
    &&& opt_fog_view(m_new.fog_of_war) == Option::Some(s.fog@)
}

// =========================================================================
// The coordinator
// =========================================================================

pub struct SessionCoordinator {
    pub peers: Vec<PeerInfo>,
    pub live: Vec<MapSession>,
}

impl SessionCoordinator {
    /// Well-formedness: peer ids and live map ids are unique, and every
    /// live session is itself well-formed.
    pub open spec fn wf(&self) -> bool {
        &&& peer_ids_unique(self.peers@)
        &&& session_ids_unique(self.live@)
        &&& forall|j: int| 0 <= j < self.live@.len() ==> (#[trigger] self.live@[j]).wf()
    }

    pub fn new() -> (s: Self)
        ensures
            s.wf(),
            s.peers@ =~= Seq::<PeerInfo>::empty(),
            s.live@ =~= Seq::<MapSession>::empty(),
    {
        SessionCoordinator { peers: Vec::new(), live: Vec::new() }
    }

    /// A new connection: the peer appears in `Connecting` state with no
    /// authority yet. Reconnecting under a known identity is allowed only
    /// once the old connection is `Disconnected`; the stale record is
    /// replaced by a fresh one under the same id.
    pub fn connect_peer(&mut self, id: String, name: String, now: i64) -> (r: AppResult<()>)
        requires
            old(self).wf(),
        ensures
            final(self).wf(),
            final(self).live@ == old(self).live@,
            final(self).peers@.len() >= old(self).peers@.len(),
            match r {
                Result::Ok(()) => {
                    &&& final(self).peers@.len() <= old(self).peers@.len() + 1
                    &&& exists|i: int|
                        0 <= i < final(self).peers@.len() && (#[trigger] final(self).peers@[i]) == (PeerInfo {
                            id: id,
                            name: name,
                            role: PlayerRole::Observer,
                            state: ConnectionState::Connecting,
                            last_seen: now,
                        })
                    &&& forall|i: int|
                        0 <= i < final(self).peers@.len() && (#[trigger] final(self).peers@[i]).id@ != id@ ==> old(self).peers@.contains(final(self).peers@[i])
                },
                Result::Err(e) => {
                    &&& e == AppError::Conflict
                    &&& final(self).peers@ == old(self).peers@
                    &&& exists|i: int|
                        0 <= i < old(self).peers@.len() && (#[trigger] old(self).peers@[i]).id@
                            == id@ && old(self).peers@[i].state != ConnectionState::Disconnected
                },
            },
    {
        let fresh = PeerInfo {
            id,
            name,
            role: PlayerRole::Observer,
            state: ConnectionState::Connecting,
            last_seen: now,
        };
        match peer_index(&self.peers, &fresh.id) {
            Option::None => {
                self.peers.push(fresh);
                Result::Ok(())
            },
            Option::Some(i) => {
                let disconnected = match self.peers[i].state {
                    ConnectionState::Disconnected => true,
                    _ => false,
                };
                if disconnected {
                    let _ = self.peers.remove(i);
                    let ghost mid = self.peers@;
                    self.peers.push(fresh);
                    proof {
                        assert forall|a: int|
                            0 <= a < self.peers@.len() && self.peers@[a].id@ != self.peers@[
                                self.peers@.len() - 1
                            ].id@ implies old(self).peers@.contains(self.peers@[a]) by {
                            if a < i {
                                assert(self.peers@[a] == old(self).peers@[a]);
                            } else {
                                assert(self.peers@[a] == old(self).peers@[a + 1]);
                            }
                        }
                        assert forall|a: int, b: int|
                            0 <= a < b < self.peers@.len() implies self.peers@[a].id@
                            != self.peers@[b].id@ by {
                            if b < self.peers@.len() - 1 {
                                if a < i {
                                    assert(self.peers@[a] == old(self).peers@[a]);
                                } else {
                                    assert(self.peers@[a] == old(self).peers@[a + 1]);
                                }
                                if b < i {
                                    assert(self.peers@[b] == old(self).peers@[b]);
                                } else {
                                    assert(self.peers@[b] == old(self).peers@[b + 1]);
                                }
                            } else {
                                if a < i {
                                    assert(self.peers@[a] == old(self).peers@[a]);
                                } else {
                                    assert(self.peers@[a] == old(self).peers@[a + 1]);
                                }
                            }
                        }
                    }
                    Result::Ok(())
                } else {
                    Result::Err(AppError::Conflict)
                }
            },
        }
    }

    /// Grants a role as campaign membership resolves it, moving the peer
    /// from `Connecting` to `Joined`. Any other state is an invalid
    /// transition, refused without effect.
    pub fn join_peer(&mut self, peer_id: &String, role: PlayerRole, now: i64) -> (r: AppResult<()>)
        requires
            old(self).wf(),
        ensures
            final(self).wf(),
            final(self).live@ == old(self).live@,
            final(self).peers@.len() == old(self).peers@.len(),
            !has_peer(old(self).peers@, peer_id@) ==> r == AppResult::<()>::Err(AppError::NotFound)
                && final(self).peers@ == old(self).peers@,
            forall|i: int|
                0 <= i < old(self).peers@.len() ==> final(self).peers@[i] == (if (#[trigger] old(
                    self,
                ).peers@[i]).id@ == peer_id@ && old(self).peers@[i].state
                    == ConnectionState::Connecting {
                    PeerInfo {
                        id: old(self).peers@[i].id,
                        name: old(self).peers@[i].name,
                        role: role,
                        state: ConnectionState::Joined,
                        last_seen: now,
                    }
                } else {
                    old(self).peers@[i]
                }),
            forall|i: int|
                0 <= i < old(self).peers@.len() && (#[trigger] old(self).peers@[i]).id@ == peer_id@
                    ==> r == (if old(self).peers@[i].state == ConnectionState::Connecting {
                    AppResult::<()>::Ok(())
                } else {
                    AppResult::<()>::Err(AppError::InvalidInput)
                }),
    {
        match peer_index(&self.peers, peer_id) {
            Option::None => Result::Err(AppError::NotFound),
            Option::Some(i) => {
                let connecting = match self.peers[i].state {
                    ConnectionState::Connecting => true,
                    _ => false,
                };
                if !connecting {
                    return Result::Err(AppError::InvalidInput);
                }
                let mut p = self.peers.remove(i);
                p.role = role;
                p.state = ConnectionState::Joined;
                p.last_seen = now;
                self.peers.insert(i, p);
                proof {
                    assert(final(self).peers@ =~= old(self).peers@.update(
                        i as int,
                        final(self).peers@[i as int],
                    ));
                }
                Result::Ok(())
            },
        }
    }

    /// Marks a joined peer active: it now receives broadcasts and may
    /// submit operations. Any other state is an invalid transition.
    pub fn activate_peer(&mut self, peer_id: &String, now: i64) -> (r: AppResult<()>)
        requires
            old(self).wf(),
        ensures
            final(self).wf(),
            final(self).live@ == old(self).live@,
            final(self).peers@.len() == old(self).peers@.len(),
            !has_peer(old(self).peers@, peer_id@) ==> r == AppResult::<()>::Err(AppError::NotFound)
                && final(self).peers@ == old(self).peers@,
            forall|i: int|
                0 <= i < old(self).peers@.len() ==> final(self).peers@[i] == (if (#[trigger] old(
                    self,
                ).peers@[i]).id@ == peer_id@ && old(self).peers@[i].state
                    == ConnectionState::Joined {
                    PeerInfo {
                        id: old(self).peers@[i].id,
                        name: old(self).peers@[i].name,
                        role: old(self).peers@[i].role,
                        state: ConnectionState::Active,
                        last_seen: now,
                    }
                } else {
                    old(self).peers@[i]
                }),
            forall|i: int|
                0 <= i < old(self).peers@.len() && (#[trigger] old(self).peers@[i]).id@ == peer_id@
                    ==> r == (if old(self).peers@[i].state == ConnectionState::Joined {
                    AppResult::<()>::Ok(())
                } else {
                    AppResult::<()>::Err(AppError::InvalidInput)
                }),
    {
        match peer_index(&self.peers, peer_id) {
            Option::None => Result::Err(AppError::NotFound),
            Option::Some(i) => {
                let joined = match self.peers[i].state {
                    ConnectionState::Joined => true,
                    _ => false,
                };
                if !joined {
                    return Result::Err(AppError::InvalidInput);
                }
                let mut p = self.peers.remove(i);
                p.state = ConnectionState::Active;
                p.last_seen = now;
                self.peers.insert(i, p);
                proof {
                    assert(final(self).peers@ =~= old(self).peers@.update(
                        i as int,
                        final(self).peers@[i as int],
                    ));
                }
                Result::Ok(())
            },
        }
    }

    /// Marks a peer disconnected, from any state. The record is retained
    /// for a grace period so token ownership still resolves; `evict_peer`
    /// drops it for good.
    pub fn disconnect_peer(&mut self, peer_id: &String, now: i64) -> (r: AppResult<()>)
        requires
            old(self).wf(),
        ensures
            final(self).wf(),
            final(self).live@ == old(self).live@,
            final(self).peers@.len() == old(self).peers@.len(),
            !has_peer(old(self).peers@, peer_id@) ==> r == AppResult::<()>::Err(AppError::NotFound)
                && final(self).peers@ == old(self).peers@,
            has_peer(old(self).peers@, peer_id@) ==> r == AppResult::<()>::Ok(()),
            forall|i: int|
                0 <= i < old(self).peers@.len() ==> final(self).peers@[i] == (if (#[trigger] old(
                    self,
                ).peers@[i]).id@ == peer_id@ {
                    PeerInfo {
                        id: old(self).peers@[i].id,
                        name: old(self).peers@[i].name,
                        role: old(self).peers@[i].role,
                        state: ConnectionState::Disconnected,
                        last_seen: now,
                    }
                } else {
                    old(self).peers@[i]
                }),
    {
        match peer_index(&self.peers, peer_id) {
            Option::None => Result::Err(AppError::NotFound),
            Option::Some(i) => {
                let mut p = self.peers.remove(i);
                p.state = ConnectionState::Disconnected;
                p.last_seen = now;
                self.peers.insert(i, p);
                proof {
                    assert(final(self).peers@ =~= old(self).peers@.update(
                        i as int,
                        final(self).peers@[i as int],
                    ));
                }
                Result::Ok(())
            },
        }
    }

    /// Evicts a disconnected peer's record once its grace period is over.
    /// Fails with `NotFound` for an unknown peer and with `InvalidInput`
    /// for one that is not disconnected, changing nothing either way.
    pub fn evict_peer(&mut self, peer_id: &String) -> (r: AppResult<()>)
        requires
            old(self).wf(),
        ensures
            final(self).wf(),
            final(self).live@ == old(self).live@,
            !has_peer(old(self).peers@, peer_id@) ==> r == AppResult::<()>::Err(AppError::NotFound)
                && final(self).peers@ == old(self).peers@,
            forall|i: int|
                0 <= i < old(self).peers@.len() && (#[trigger] old(self).peers@[i]).id@ == peer_id@
                    && old(self).peers@[i].state != ConnectionState::Disconnected ==> r
                    == AppResult::<()>::Err(AppError::InvalidInput) && final(self).peers@ == old(
                    self,
                ).peers@,
            forall|i: int|
                0 <= i < old(self).peers@.len() && (#[trigger] old(self).peers@[i]).id@ == peer_id@
                    && old(self).peers@[i].state == ConnectionState::Disconnected ==> r
                    == AppResult::<()>::Ok(()) && final(self).peers@ == old(self).peers@.remove(i),
    {
        match peer_index(&self.peers, peer_id) {
            Option::None => Result::Err(AppError::NotFound),
            Option::Some(i) => {
                let disconnected = match self.peers[i].state {
                    ConnectionState::Disconnected => true,
                    _ => false,
                };
                proof {
                    assert forall|j: int|
                        0 <= j < self.peers@.len() && (#[trigger] self.peers@[j]).id@ == peer_id@
                            implies j == i by {
                        if j < i {
                            assert(self.peers@[j].id@ != self.peers@[i as int].id@);
                        }
                        if i < j {
                            assert(self.peers@[i as int].id@ != self.peers@[j].id@);
                        }
                    }
                }
                if !disconnected {
                    return Result::Err(AppError::InvalidInput);
                }
                let ghost pre = self.peers@;
                let _ = self.peers.remove(i);
                proof {
                    assert forall|a: int, b: int|
                        0 <= a < b < self.peers@.len() implies self.peers@[a].id@
                        != self.peers@[b].id@ by {
                        if i <= a {
                            assert(self.peers@[a] == pre[a + 1]);
                        }
                        if i <= b {
                            assert(self.peers@[b] == pre[b + 1]);
                        }
                    }
                }
                Result::Ok(())
            },
        }
    }

    /// Looks up or lazily opens the live session of a map, handing back
    /// its index. Fails with `NotFound` when the store holds no such map.
    pub fn ensure_live(&mut self, store: &EntityStore, map_id: &String) -> (r: AppResult<usize>)
        requires
            old(self).wf(),
            store_maps_wf(store.maps@),
            sessions_synced(old(self).live@, store.maps@),
        ensures
            final(self).wf(),
            final(self).peers@ == old(self).peers@,
            sessions_synced(final(self).live@, store.maps@),
            !has_map(store.maps@, map_id@) ==> r == AppResult::<usize>::Err(AppError::NotFound)
                && final(self).live@ == old(self).live@,
            has_map(store.maps@, map_id@) ==> {
                &&& r matches Result::Ok(i) && i < final(self).live@.len() && final(self).live@[i as int].map_id@ == map_id@
                &&& (has_session(old(self).live@, map_id@) ==> final(self).live@ == old(
                    self,
                ).live@)
                &&& (!has_session(old(self).live@, map_id@) ==> final(self).live@ == old(
                    self,
                ).live@.push(final(self).live@.last()) && final(self).live@.last().seq_no == 0)
            },
    {
        match session_index(&self.live, map_id) {
            Option::Some(i) => Result::Ok(i),
            Option::None => {
                match store.get_map(map_id) {
                    Option::None => Result::Err(AppError::NotFound),
                    Option::Some(record) => {
                        let ghost m = choose|m: int|
                            0 <= m < store.maps@.len() && store.maps@[m] == *record;
                        let tokens = clone_tokens(&record.tokens);
                        let fog = clone_opt_fog(&record.fog_of_war);
                        proof {
                            assert(record.tokens@ == store.maps@[m].tokens@);
                            assert(token_ids_unique(store.maps@[m].tokens@));
                            assert(tokens@.len() == tokens_view(tokens@).len());
                            assert(record.tokens@.len() == tokens_view(record.tokens@).len());
                            assert(tokens@.len() == record.tokens@.len());
                            assert(token_ids_unique(tokens@)) by {
                                assert forall|a: int, b: int|
                                    0 <= a < b < tokens@.len() implies tokens@[a].id@
                                    != tokens@[b].id@ by {
                                    assert(0 <= a < record.tokens@.len());
                                    assert(0 <= b < record.tokens@.len());
                                    assert(tokens_view(tokens@)[a] == tokens_view(
                                        record.tokens@,
                                    )[a]);
                                    assert(tokens_view(tokens@)[b] == tokens_view(
                                        record.tokens@,
                                    )[b]);
                                    assert(tokens@[a]@.id == tokens@[a].id@);
                                    assert(tokens@[b]@.id == tokens@[b].id@);
                                    assert(record.tokens@[a]@.id == record.tokens@[a].id@);
                                    assert(record.tokens@[b]@.id == record.tokens@[b].id@);
                                    assert(record.tokens@[a].id@ != record.tokens@[b].id@);
                                }
                            }
                            if fog is Some {
                                assert(opt_fog_view(fog) == opt_fog_view(record.fog_of_war));
                            }
                        }
                        let session = MapSession::new(map_id.clone(), tokens, fog);
                        let idx = self.live.len();
                        self.live.push(session);
                        proof {
                            assert(sessions_synced(final(self).live@, store.maps@)) by {
                                assert forall|j: int|
                                    0 <= j < final(self).live@.len() implies session_backed(
                                    #[trigger] final(self).live@[j],
                                    store.maps@,
                                ) by {
                                    if j < old(self).live@.len() {
                                        assert(final(self).live@[j] == old(self).live@[j]);
                                        assert(session_backed(old(self).live@[j], store.maps@));
                                    } else {
                                        assert(final(self).live@[j] == final(self).live@.last());
                                        assert(store.maps@[m].id@ == map_id@);
                                    }
                                }
                            }
                        }
                        Result::Ok(idx)
                    },
                }
            },
        }
    }

    /// Applies one already-authorized operation to a live map and
    /// persists the new state to the entity store before reporting
    /// success, so memory and storage never disagree; on failure nothing
    /// changes. This is the local, host-side path; `handle_map_op` adds
    /// the authority check for operations arriving from peers. A map
    /// whose sequence counter is exhausted refuses every further
    /// operation with a non-retryable storage error.
    pub fn apply_op(&mut self, store: &mut EntityStore, map_id: &String, op: MapOp) -> (r:
        AppResult<Delta>)
        requires
            old(self).wf(),
            old(store).wf(),
            store_maps_wf(old(store).maps@),
            sessions_synced(old(self).live@, old(store).maps@),
            has_session(old(self).live@, map_id@),
        ensures
            final(self).wf(),
            final(store).wf(),
            store_maps_wf(final(store).maps@),
            sessions_synced(final(self).live@, final(store).maps@),
            final(self).peers@ == old(self).peers@,
            final(store).campaigns@ == old(store).campaigns@,
            final(store).characters@ == old(store).characters@,
            final(store).assets@ == old(store).assets@,
            final(self).live@.len() == old(self).live@.len(),
            final(store).maps@.len() == old(store).maps@.len(),
            forall|j: int|
                0 <= j < old(self).live@.len() ==> (#[trigger] final(self).live@[j]).map_id == old(
                    self,
                ).live@[j].map_id,
            forall|j: int|
                0 <= j < old(self).live@.len() && (#[trigger] old(self).live@[j]).map_id@
                    != map_id@ ==> session_same(final(self).live@[j], old(self).live@[j]),
            forall|mm: int|
                0 <= mm < old(store).maps@.len() && (#[trigger] old(store).maps@[mm]).id@
                    != map_id@ ==> final(store).maps@[mm] == old(store).maps@[mm],
            forall|j: int|
                0 <= j < old(self).live@.len() && (#[trigger] old(self).live@[j]).map_id@
                    == map_id@ ==> {
                    let pre = old(self).live@[j];
                    let post = final(self).live@[j];
                    if pre.seq_no == u64::MAX {
                        &&& r == AppResult::<Delta>::Err(
                            AppError::StorageError { retryable: false },
                        )
                        &&& final(self).live@ == old(self).live@
                        &&& final(store).maps@ == old(store).maps@
                    } else {
                        &&& op_applied(pre, post, op, r)
                        &&& (r is Err ==> session_same(post, pre) && final(store).maps@ == old(
                            store,
                        ).maps@)
                        &&& (r is Ok ==> forall|mm: int|
                            0 <= mm < old(store).maps@.len() ==> (if (#[trigger] old(
                                store,
                            ).maps@[mm]).id@ == map_id@ {
                                record_updated_to(
                                    old(store).maps@[mm],
                                    final(store).maps@[mm],
                                    post,
                                )
                            } else {
                                final(store).maps@[mm] == old(store).maps@[mm]
                            }))
                    }
                },
    {
        let si = match session_index(&self.live, map_id) {
            Option::None => {
                return Result::Err(AppError::NotFound);
            },
            Option::Some(s) => s,
        };
        if self.live[si].seq_no == u64::MAX {
            proof {
                assert forall|j: int|
                    0 <= j < self.live@.len() && (#[trigger] self.live@[j]).map_id@ == map_id@
                        implies j == si by {}
            }
            return Result::Err(AppError::StorageError { retryable: false });
        }
        let mut sess = self.live.remove(si);
        let res = match op {
            MapOp::AddToken(t) => sess.add_token(t),
            MapOp::MoveToken { token_id, position } => sess.move_token(&token_id, position),
            MapOp::RemoveToken { token_id } => sess.remove_token(&token_id),
            MapOp::RevealFog(a) => sess.reveal_fog(a),
            MapOp::ResetFog => sess.reset_fog(),
        };
        proof {
            assert forall|j: int|
                0 <= j < old(self).live@.len() && (#[trigger] old(self).live@[j]).map_id@
                    == map_id@ implies j == si by {}
        }
        match res {
            Result::Err(e) => {
                self.live.insert(si, sess);
                proof {
                    assert(final(self).live@ =~= old(self).live@.update(
                        si as int,
                        final(self).live@[si as int],
                    ));
                    assert(sessions_synced(final(self).live@, store.maps@)) by {
                        assert forall|j: int|
                            0 <= j < final(self).live@.len() implies session_backed(
                            #[trigger] final(self).live@[j],
                            store.maps@,
                        ) by {
                            if j != si {
                                assert(final(self).live@[j] == old(self).live@[j]);
                            }
                            assert(session_backed(old(self).live@[j], store.maps@));
                        }
                    }
                }
                Result::Err(e)
            },
            Result::Ok(d) => {
                let toks = clone_tokens(&sess.tokens);
                let fog_copy = sess.fog.clone();
                self.live.insert(si, sess);
                proof {
                    assert(final(self).live@ =~= old(self).live@.update(
                        si as int,
                        final(self).live@[si as int],
                    ));
                    assert(session_backed(old(self).live@[si as int], old(store).maps@));
                }
                let saved = store.save_map_state(map_id, toks, Option::Some(fog_copy));
                match saved {
                    Result::Err(e) => Result::Err(e),
                    Result::Ok(()) => {
                        proof {
                            let live = final(self).live@;
                            let sess_post = live[si as int];
                            assert(store_maps_wf(store.maps@)) by {
                                assert forall|m: int|
                                    0 <= m < store.maps@.len() implies token_ids_unique(
                                    (#[trigger] store.maps@[m]).tokens@,
                                ) && match store.maps@[m].fog_of_war {
                                    Option::Some(f) => areas_unique(f@.revealed),
                                    Option::None => true,
                                } by {
                                    if old(store).maps@[m].id@ == map_id@ {
                                        lemma_unique_ids_transfer(
                                            store.maps@[m].tokens@,
                                            sess_post.tokens@,
                                        );
                                    } else {
                                        assert(store.maps@[m] == old(store).maps@[m]);
                                    }
                                }
                            }
                            assert(sessions_synced(live, store.maps@)) by {
                                assert forall|j: int|
                                    0 <= j < live.len() implies session_backed(
                                    #[trigger] live[j],
                                    store.maps@,
                                ) by {
                                    if j == si {
                                        let m = choose|m: int|
                                            0 <= m < old(store).maps@.len() && (#[trigger] old(
                                                store,
                                            ).maps@[m]).id@ == old(self).live@[j].map_id@;
                                        assert(store.maps@[m].id@ == map_id@);
                                        assert(record_updated_to(
                                            old(store).maps@[m],
                                            store.maps@[m],
                                            sess_post,
                                        ));
                                    } else {
                                        assert(live[j] == old(self).live@[j]);
                                        let m = choose|m: int|
                                            0 <= m < old(store).maps@.len() && (#[trigger] old(
                                                store,
                                            ).maps@[m]).id@ == old(self).live@[j].map_id@
                                                && tokens_view(old(store).maps@[m].tokens@)
                                                == tokens_view(old(self).live@[j].tokens@)
                                                && fog_synced(
                                                old(store).maps@[m].fog_of_war,
                                                old(self).live@[j].fog@,
                                            );
                                        assert(old(store).maps@[m].id@ != map_id@);
                                        assert(store.maps@[m] == old(store).maps@[m]);
                                    }
                                }
                            }
                        }
                        Result::Ok(d)
                    },
                }
            },
        }
    }

    /// Routes one inbound operation: resolves the submitting peer, checks
    /// its authority, applies the operation to the live map, and persists
    /// the new state to the entity store before reporting success — memory
    /// and storage never disagree. An unknown, unconnected or
    /// under-privileged peer is refused with `Unauthorized` and changes
    /// nothing; in particular a non-DM reset of the fog leaves the fog
    /// exactly as it was. A map whose sequence counter is exhausted
    /// refuses every further operation with a non-retryable storage error.
    pub fn handle_map_op(
        &mut self,
        store: &mut EntityStore,
        peer_id: &String,
        map_id: &String,
        op: MapOp,
    ) -> (r: AppResult<Delta>)
        requires
            old(self).wf(),
            old(store).wf(),
            store_maps_wf(old(store).maps@),
            sessions_synced(old(self).live@, old(store).maps@),
            has_session(old(self).live@, map_id@),
        ensures
            final(self).wf(),
            final(store).wf(),
            store_maps_wf(final(store).maps@),
            sessions_synced(final(self).live@, final(store).maps@),
            final(self).peers@ == old(self).peers@,
            final(store).campaigns@ == old(store).campaigns@,
            final(store).characters@ == old(store).characters@,
            final(store).assets@ == old(store).assets@,
            final(self).live@.len() == old(self).live@.len(),
            final(store).maps@.len() == old(store).maps@.len(),
            forall|j: int|
                0 <= j < old(self).live@.len() ==> (#[trigger] final(self).live@[j]).map_id == old(
                    self,
                ).live@[j].map_id,
            forall|j: int|
                0 <= j < old(self).live@.len() && (#[trigger] old(self).live@[j]).map_id@
                    != map_id@ ==> session_same(final(self).live@[j], old(self).live@[j]),
            forall|mm: int|
                0 <= mm < old(store).maps@.len() && (#[trigger] old(store).maps@[mm]).id@
                    != map_id@ ==> final(store).maps@[mm] == old(store).maps@[mm],
            !has_peer(old(self).peers@, peer_id@) ==> r == AppResult::<Delta>::Err(
                AppError::Unauthorized,
            ) && final(self).live@ == old(self).live@ && final(store).maps@ == old(store).maps@,
            forall|p: int, j: int|
                0 <= p < old(self).peers@.len() && (#[trigger] old(self).peers@[p]).id@ == peer_id@
                    && 0 <= j < old(self).live@.len() && (#[trigger] old(self).live@[j]).map_id@
                    == map_id@ ==> {
                    let peer = old(self).peers@[p];
                    let pre = old(self).live@[j];
                    let post = final(self).live@[j];
                    if !peer.spec_connected() {
                        &&& r == AppResult::<Delta>::Err(AppError::Unauthorized)
                        &&& final(self).live@ == old(self).live@
                        &&& final(store).maps@ == old(store).maps@
                    } else if !op_permitted(
                        peer.role,
                        peer.name@,
                        op,
                        old(store).characters@,
                        pre.tokens@,
                    ) {
                        &&& r == AppResult::<Delta>::Err(AppError::Unauthorized)
                        &&& final(self).live@ == old(self).live@
                        &&& final(store).maps@ == old(store).maps@
                    } else if pre.seq_no == u64::MAX {
                        &&& r == AppResult::<Delta>::Err(
                            AppError::StorageError { retryable: false },
                        )
                        &&& final(self).live@ == old(self).live@
                        &&& final(store).maps@ == old(store).maps@
                    } else {
                        &&& op_applied(pre, post, op, r)
                        &&& (r is Err ==> session_same(post, pre) && final(store).maps@ == old(
                            store,
                        ).maps@)
                        &&& (r is Ok ==> forall|mm: int|
                            0 <= mm < old(store).maps@.len() ==> (if (#[trigger] old(
                                store,
                            ).maps@[mm]).id@ == map_id@ {
                                record_updated_to(
                                    old(store).maps@[mm],
                                    final(store).maps@[mm],
                                    post,
                                )
                            } else {
                                final(store).maps@[mm] == old(store).maps@[mm]
                            }))
                    }
                },
    {
        let pi = match peer_index(&self.peers, peer_id) {
            Option::None => {
                return Result::Err(AppError::Unauthorized);
            },
            Option::Some(p) => p,
        };
        if !self.peers[pi].is_connected() {
            return Result::Err(AppError::Unauthorized);
        }
        let si = match session_index(&self.live, map_id) {
            Option::None => {
                return Result::Err(AppError::NotFound);
            },
            Option::Some(s) => s,
        };
        let allowed = op_authorized(&self.peers[pi], &op, &store.characters, &self.live[si].tokens);
        if !allowed {
            proof {
                assert forall|p: int|
                    0 <= p < self.peers@.len() && (#[trigger] self.peers@[p]).id@ == peer_id@
                        implies p == pi by {}
                assert forall|j: int|
                    0 <= j < self.live@.len() && (#[trigger] self.live@[j]).map_id@ == map_id@
                        implies j == si by {}
            }
            return Result::Err(AppError::Unauthorized);
        }
        proof {
            assert forall|p: int|
                0 <= p < self.peers@.len() && (#[trigger] self.peers@[p]).id@ == peer_id@
                    implies p == pi by {}
            assert forall|j: int|
                0 <= j < self.live@.len() && (#[trigger] self.live@[j]).map_id@ == map_id@
                    implies j == si by {}
        }
        self.apply_op(store, map_id, op)
    }

    /// Closes every live session whose map no longer has a stored record
    /// — after a cascade delete, for instance — so that memory never
    /// outlives storage.
    pub fn evict_unbacked(&mut self, store: &EntityStore)
        requires
            old(self).wf(),
        ensures
            final(self).wf(),
            final(self).peers@ == old(self).peers@,
            final(self).live@ == live_backed_only(old(self).live@, store.maps@),
    {
        let v = &mut self.live;
        let ghost g = v@;
        let mut i: usize = 0;
        let ghost mut k: int = 0;
        while i < v.len()
            invariant
                0 <= k <= g.len(),
                i <= v.len(),
                i as int == live_backed_only(g.subrange(0, k), store.maps@).len(),
                v@ =~= live_backed_only(g.subrange(0, k), store.maps@) + g.subrange(
                    k,
                    g.len() as int,
                ),
                session_ids_unique(v@),
                forall|j: int| 0 <= j < v@.len() ==> (#[trigger] v@[j]).wf(),
            decreases g.len() - k,
        {
            proof {
                assert(v@[i as int] == g.subrange(k, g.len() as int)[0]);
                assert(g.subrange(0, k + 1).drop_last() =~= g.subrange(0, k));
                assert(g.subrange(0, k + 1).last() == g[k]);
            }
            let backed = match store.get_map(&v[i].map_id) {
                Option::Some(_) => true,
                Option::None => false,
            };
            if !backed {
                let ghost pre = v@;
                let _ = v.remove(i);
                proof {
                    assert(live_backed_only(g.subrange(0, k + 1), store.maps@)
                        =~= live_backed_only(g.subrange(0, k), store.maps@));
                    assert(v@ =~= live_backed_only(g.subrange(0, k + 1), store.maps@) + g.subrange(
                        k + 1,
                        g.len() as int,
                    ));
                    assert forall|a: int, b: int|
                        0 <= a < b < v@.len() implies v@[a].map_id@ != v@[b].map_id@ by {
                        if i <= a {
                            assert(v@[a] == pre[a + 1]);
                        }
                        if i <= b {
                            assert(v@[b] == pre[b + 1]);
                        }
                    }
                    assert forall|j: int| 0 <= j < v@.len() implies (#[trigger] v@[j]).wf() by {
                        if i <= j {
                            assert(v@[j] == pre[j + 1]);
                        }
                    }
                    k = k + 1;
                }
            } else {
                i = i + 1;
                proof {
                    assert(live_backed_only(g.subrange(0, k + 1), store.maps@)
                        =~= live_backed_only(g.subrange(0, k), store.maps@).push(g[k]));
                    assert(v@ =~= live_backed_only(g.subrange(0, k + 1), store.maps@) + g.subrange(
                        k + 1,
                        g.len() as int,
                    ));
                    k = k + 1;
                }
            }
        }
        proof {
            assert(g.subrange(0, k) =~= g);
            assert(v@ =~= live_backed_only(g, store.maps@));
        }
    }

    /// Replaces the state of a live session wholesale — the bulk-save
    /// path — leaving its sequence counter where it was. Returns whether
    /// the map was live at all.
    pub fn overwrite_session(&mut self, map_id: &String, tokens: Vec<Token>, fog: FogOfWar) -> (
        found: bool)
        requires
            old(self).wf(),
            token_ids_unique(tokens@),
            areas_unique(fog@.revealed),
        ensures
            final(self).wf(),
            final(self).peers@ == old(self).peers@,
            final(self).live@.len() == old(self).live@.len(),
            found == has_session(old(self).live@, map_id@),
            forall|j: int|
                0 <= j < old(self).live@.len() && (#[trigger] old(self).live@[j]).map_id@
                    != map_id@ ==> final(self).live@[j] == old(self).live@[j],
            forall|j: int|
                0 <= j < old(self).live@.len() && (#[trigger] old(self).live@[j]).map_id@
                    == map_id@ ==> {
                    &&& final(self).live@[j].map_id == old(self).live@[j].map_id
                    &&& final(self).live@[j].tokens@ == tokens@
                    &&& final(self).live@[j].fog@ == fog@
                    &&& final(self).live@[j].seq_no == old(self).live@[j].seq_no
                },
    {
        match session_index(&self.live, map_id) {
            Option::None => false,
            Option::Some(i) => {
                let mut sess = self.live.remove(i);
                sess.tokens = tokens;
                sess.fog = fog;
                self.live.insert(i, sess);
                proof {
                    assert(final(self).live@ =~= old(self).live@.update(
                        i as int,
                        final(self).live@[i as int],
                    ));
                    assert forall|j: int|
                        0 <= j < old(self).live@.len() && (#[trigger] old(self).live@[j]).map_id@
                            == map_id@ implies j == i by {
                        if j < i {
                            assert(old(self).live@[j].map_id@ != old(
                                self,
                            ).live@[i as int].map_id@);
                        }
                        if i < j {
                            assert(old(self).live@[i as int].map_id@ != old(
                                self,
                            ).live@[j].map_id@);
                        }
                    }
                }
                true
            },
        }
    }
}

/// Uniqueness of token ids carries across a copy that preserves views.
pub proof fn lemma_unique_ids_transfer(a: Seq<Token>, b: Seq<Token>)
    requires
        tokens_view(a) == tokens_view(b),
        token_ids_unique(b),
    ensures
        token_ids_unique(a),
{
    assert(a.len() == tokens_view(a).len());
    assert(b.len() == tokens_view(b).len());
    assert forall|i: int, j: int| 0 <= i < j < a.len() implies a[i].id@ != a[j].id@ by {
        assert(tokens_view(a)[i] == a[i]@);
        assert(tokens_view(a)[j] == a[j]@);
        assert(tokens_view(b)[i] == b[i]@);
        assert(tokens_view(b)[j] == b[j]@);
        assert(tokens_view(a)[i] == tokens_view(b)[i]);
        assert(tokens_view(a)[j] == tokens_view(b)[j]);
        assert(a[i]@.id == a[i].id@);
        assert(a[j]@.id == a[j].id@);
        assert(b[i]@.id == b[i].id@);
        assert(b[j]@.id == b[j].id@);
        assert(b[i].id@ != b[j].id@);
    }
}

} // verus!
