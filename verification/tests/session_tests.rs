use tavern::engine::{AppEvent, CreateCampaignRequest, Engine};
use tavern::errors::AppError;
use tavern::map_state::Delta;
use tavern::models::{
    AreaShape, CharacterStats, ConnectionState, CreateCharacterRequest, CreateMapRequest, Position,
    PlayerRole, RevealedArea, Token, TokenSize,
};
use tavern::session::MapOp;

fn pos(x: i64, y: i64) -> Position {
    Position { x, y, z: None }
}

fn token(id: &str, x: i64, y: i64) -> Token {
    Token {
        id: id.to_string(),
        character_id: None,
        name: id.to_string(),
        image_url: None,
        position: pos(x, y),
        size: TokenSize::Medium,
        conditions: Vec::new(),
        notes: String::new(),
        is_hidden: false,
        initiative: None,
    }
}

fn circle(x: i64, y: i64, radius: i64) -> RevealedArea {
    RevealedArea { x, y, radius, shape: AreaShape::Circle }
}

/// Builds a campaign with one 20x20 map and returns (engine, campaign id,
/// map id).
fn campaign_with_map(name: &str, map_name: &str) -> (Engine, String, String) {
    let mut engine = Engine::new();
    let cid = engine
        .create_campaign(CreateCampaignRequest {
            name: name.to_string(),
            description: None,
            dm_name: "Dana".to_string(),
            settings: None,
        })
        .unwrap();
    let mid = engine
        .create_map(CreateMapRequest {
            campaign_id: cid.clone(),
            name: map_name.to_string(),
            description: None,
            image_url: "maps/hideout.png".to_string(),
            grid_size: 5,
            width: 20,
            height: 20,
        })
        .unwrap();
    (engine, cid, mid)
}

fn join_active(engine: &mut Engine, id: &str, name: &str, role: PlayerRole) -> String {
    let pid = id.to_string();
    engine.connect_peer(pid.clone(), name.to_string()).unwrap();
    engine.join_peer(&pid, role).unwrap();
    engine.activate_peer(&pid).unwrap();
    pid
}

#[test]
fn two_players_add_tokens_concurrently() {
    // DM creates "Lost Mine" and the 20x20 "Cragmaw Hideout"; two players
    // add goblins; a third peer joining afterwards sees both via loadMap.
    let (mut engine, _cid, mid) = campaign_with_map("Lost Mine", "Cragmaw Hideout");
    let alice = join_active(&mut engine, "p-alice", "Alice", PlayerRole::Player);
    let bob = join_active(&mut engine, "p-bob", "Bob", PlayerRole::Player);
    engine.load_map(&mid).unwrap();

    let d1 = engine
        .submit_op(&alice, &mid, MapOp::AddToken(token("goblin-1", 3, 4)))
        .unwrap();
    let d2 = engine
        .submit_op(&bob, &mid, MapOp::AddToken(token("goblin-2", 5, 4)))
        .unwrap();
    assert_ne!(d1.seq_no(), d2.seq_no());
    assert!(d1.seq_no() < d2.seq_no());

    let snap = engine.load_map(&mid).unwrap();
    let ids: Vec<&str> = snap.tokens.iter().map(|t| t.id.as_str()).collect();
    assert_eq!(ids, vec!["goblin-1", "goblin-2"]);
    assert_eq!(snap.tokens[0].position, pos(3, 4));
    assert_eq!(snap.tokens[1].position, pos(5, 4));

    // A third peer joins afterwards and is brought up to date by loadMap.
    let _carol = join_active(&mut engine, "p-carol", "Carol", PlayerRole::Observer);
    let late = engine.load_map(&mid).unwrap();
    assert_eq!(late.tokens.len(), 2);
    assert_eq!(late.seq_no, d2.seq_no());

    // Each originator is excluded from its own broadcast.
    let to_alice = engine.take_outbox(&alice).unwrap();
    assert_eq!(to_alice.len(), 1);
    match &to_alice[0] {
        Delta::TokenAdded { token, .. } => assert_eq!(token.id, "goblin-2"),
        _ => panic!("wrong delta kind"),
    }
    let to_bob = engine.take_outbox(&bob).unwrap();
    assert_eq!(to_bob.len(), 1);
    match &to_bob[0] {
        Delta::TokenAdded { token, .. } => assert_eq!(token.id, "goblin-1"),
        _ => panic!("wrong delta kind"),
    }
}

#[test]
fn stale_move_after_delete_fails_not_found() {
    // Player A moves goblin-1; the DM removes it before A's broadcast is
    // seen; the final state has no goblin-1 and A's replayed move fails
    // with NotFound rather than resurrecting it.
    let (mut engine, _cid, mid) = campaign_with_map("Lost Mine", "Cragmaw Hideout");
    let alice = join_active(&mut engine, "p-alice", "Alice", PlayerRole::Player);
    let dm = join_active(&mut engine, "p-dm", "Dana", PlayerRole::DungeonMaster);
    engine.load_map(&mid).unwrap();

    engine
        .submit_op(&alice, &mid, MapOp::AddToken(token("goblin-1", 3, 4)))
        .unwrap();
    engine
        .submit_op(
            &alice,
            &mid,
            MapOp::MoveToken { token_id: "goblin-1".to_string(), position: pos(6, 4) },
        )
        .unwrap();
    engine
        .submit_op(&dm, &mid, MapOp::RemoveToken { token_id: "goblin-1".to_string() })
        .unwrap();

    let replay = engine.submit_op(
        &alice,
        &mid,
        MapOp::MoveToken { token_id: "goblin-1".to_string(), position: pos(6, 4) },
    );
    assert_eq!(replay.unwrap_err(), AppError::NotFound);

    let snap = engine.load_map(&mid).unwrap();
    assert!(snap.tokens.iter().all(|t| t.id != "goblin-1"));
}

#[test]
fn non_dm_reset_fog_is_unauthorized_and_changes_nothing() {
    let (mut engine, _cid, mid) = campaign_with_map("Lost Mine", "Cragmaw Hideout");
    let alice = join_active(&mut engine, "p-alice", "Alice", PlayerRole::Player);
    let carol = join_active(&mut engine, "p-carol", "Carol", PlayerRole::Observer);
    let dm = join_active(&mut engine, "p-dm", "Dana", PlayerRole::DungeonMaster);
    engine.load_map(&mid).unwrap();

    engine.submit_op(&alice, &mid, MapOp::RevealFog(circle(2, 2, 3))).unwrap();
    let before = engine.load_map(&mid).unwrap();
    assert_eq!(before.fog_of_war.revealed_areas.len(), 1);

    let by_player = engine.submit_op(&alice, &mid, MapOp::ResetFog);
    assert_eq!(by_player.unwrap_err(), AppError::Unauthorized);
    let by_observer = engine.submit_op(&carol, &mid, MapOp::ResetFog);
    assert_eq!(by_observer.unwrap_err(), AppError::Unauthorized);

    let after = engine.load_map(&mid).unwrap();
    assert_eq!(after.fog_of_war.revealed_areas, before.fog_of_war.revealed_areas);
    assert_eq!(after.seq_no, before.seq_no);

    // The DM may reset, and the set clears.
    engine.submit_op(&dm, &mid, MapOp::ResetFog).unwrap();
    let cleared = engine.load_map(&mid).unwrap();
    assert!(cleared.fog_of_war.revealed_areas.is_empty());
}

#[test]
fn observers_and_strangers_cannot_mutate() {
    let (mut engine, _cid, mid) = campaign_with_map("Lost Mine", "Cragmaw Hideout");
    let carol = join_active(&mut engine, "p-carol", "Carol", PlayerRole::Observer);
    engine.load_map(&mid).unwrap();

    let by_observer = engine.submit_op(&carol, &mid, MapOp::AddToken(token("g", 0, 0)));
    assert_eq!(by_observer.unwrap_err(), AppError::Unauthorized);

    let ghost = "p-ghost".to_string();
    let by_stranger = engine.submit_op(&ghost, &mid, MapOp::AddToken(token("g", 0, 0)));
    assert_eq!(by_stranger.unwrap_err(), AppError::Unauthorized);

    // A connected-but-not-yet-joined peer may not submit either.
    engine.connect_peer("p-new".to_string(), "New".to_string()).unwrap();
    let early = engine.submit_op(&"p-new".to_string(), &mid, MapOp::AddToken(token("g", 0, 0)));
    assert_eq!(early.unwrap_err(), AppError::Unauthorized);

    let snap = engine.load_map(&mid).unwrap();
    assert!(snap.tokens.is_empty());
}

#[test]
fn players_cannot_remove_another_players_token() {
    let (mut engine, cid, mid) = campaign_with_map("Lost Mine", "Cragmaw Hideout");
    // Hilda belongs to Alice.
    let hilda = engine
        .create_character(CreateCharacterRequest {
            campaign_id: cid.clone(),
            name: "Hilda".to_string(),
            player_name: Some("Alice".to_string()),
            character_class: "Fighter".to_string(),
            level: 1,
            race: "Human".to_string(),
            background: "Soldier".to_string(),
            stats: CharacterStats::default(),
            is_npc: false,
        })
        .unwrap();
    let alice = join_active(&mut engine, "p-alice", "Alice", PlayerRole::Player);
    let bob = join_active(&mut engine, "p-bob", "Bob", PlayerRole::Player);
    let dm = join_active(&mut engine, "p-dm", "Dana", PlayerRole::DungeonMaster);
    engine.load_map(&mid).unwrap();

    let mut hilda_token = token("t-hilda", 1, 1);
    hilda_token.character_id = Some(hilda.clone());
    engine.submit_op(&dm, &mid, MapOp::AddToken(hilda_token)).unwrap();

    // Bob may not move or remove Alice's token; Alice may move her own.
    let bob_move = engine.submit_op(
        &bob,
        &mid,
        MapOp::MoveToken { token_id: "t-hilda".to_string(), position: pos(2, 2) },
    );
    assert_eq!(bob_move.unwrap_err(), AppError::Unauthorized);
    let bob_remove =
        engine.submit_op(&bob, &mid, MapOp::RemoveToken { token_id: "t-hilda".to_string() });
    assert_eq!(bob_remove.unwrap_err(), AppError::Unauthorized);
    engine
        .submit_op(
            &alice,
            &mid,
            MapOp::MoveToken { token_id: "t-hilda".to_string(), position: pos(2, 2) },
        )
        .unwrap();

    // An unowned token is fair game for any player.
    engine.submit_op(&dm, &mid, MapOp::AddToken(token("crate", 0, 0))).unwrap();
    engine
        .submit_op(
            &bob,
            &mid,
            MapOp::MoveToken { token_id: "crate".to_string(), position: pos(1, 0) },
        )
        .unwrap();

    // The DM may remove anything.
    engine
        .submit_op(&dm, &mid, MapOp::RemoveToken { token_id: "t-hilda".to_string() })
        .unwrap();
    let snap = engine.load_map(&mid).unwrap();
    assert!(snap.tokens.iter().all(|t| t.id != "t-hilda"));
}

#[test]
fn peer_state_machine_enforces_transitions() {
    let mut engine = Engine::new();
    let pid = "p1".to_string();

    // Joining or activating an unknown peer fails.
    assert_eq!(engine.join_peer(&pid, PlayerRole::Player).unwrap_err(), AppError::NotFound);

    engine.connect_peer(pid.clone(), "Pat".to_string()).unwrap();
    // Activating before joining is an invalid transition.
    assert_eq!(engine.activate_peer(&pid).unwrap_err(), AppError::InvalidInput);
    // Connecting again while the old connection lives is a conflict.
    assert_eq!(
        engine.connect_peer(pid.clone(), "Pat".to_string()).unwrap_err(),
        AppError::Conflict
    );

    engine.join_peer(&pid, PlayerRole::Player).unwrap();
    // Joining twice is an invalid transition.
    assert_eq!(engine.join_peer(&pid, PlayerRole::Player).unwrap_err(), AppError::InvalidInput);
    engine.activate_peer(&pid).unwrap();
    engine.disconnect_peer(&pid).unwrap();
    assert_eq!(engine.coord.peers[0].state, ConnectionState::Disconnected);

    // A reconnect under the preserved identity starts over at Connecting.
    engine.connect_peer(pid.clone(), "Pat".to_string()).unwrap();
    assert_eq!(engine.coord.peers.len(), 1);
    assert_eq!(engine.coord.peers[0].state, ConnectionState::Connecting);
}

#[test]
fn slow_peer_overflows_and_is_disconnected() {
    let (mut engine, _cid, mid) = campaign_with_map("Lost Mine", "Cragmaw Hideout");
    let dm = join_active(&mut engine, "p-dm", "Dana", PlayerRole::DungeonMaster);
    let slow = join_active(&mut engine, "p-slow", "Slow", PlayerRole::Observer);
    engine.load_map(&mid).unwrap();
    engine.submit_op(&dm, &mid, MapOp::AddToken(token("g", 0, 0))).unwrap();

    // The slow peer never drains its queue; after enough deltas it
    // overflows and is dropped rather than buffered without bound.
    let mut step: i64 = 0;
    while engine
        .coord
        .peers
        .iter()
        .any(|p| p.id == slow && p.state != ConnectionState::Disconnected)
    {
        step += 1;
        assert!(step <= 100, "the slow peer should have overflowed by now");
        engine
            .submit_op(
                &dm,
                &mid,
                MapOp::MoveToken { token_id: "g".to_string(), position: pos(step, 0) },
            )
            .unwrap();
    }
    // Its queue is gone with it; a resynchronization goes via loadMap.
    assert_eq!(engine.take_outbox(&slow).unwrap_err(), AppError::NotFound);
    let snap = engine.load_map(&mid).unwrap();
    assert_eq!(snap.tokens[0].position, pos(step, 0));
}

#[test]
fn host_commands_emit_named_events() {
    let (mut engine, _cid, mid) = campaign_with_map("Lost Mine", "Cragmaw Hideout");
    engine.load_map(&mid).unwrap();
    let tid = engine
        .create_token(tavern::models::CreateTokenRequest {
            map_id: mid.clone(),
            character_id: None,
            name: "wolf".to_string(),
            image_url: None,
            position: pos(4, 4),
            size: TokenSize::Large,
        })
        .unwrap();
    let seq = engine.move_token(&mid, &tid, pos(5, 5)).unwrap();
    assert_eq!(seq, 2);
    engine.delete_token(&mid, &tid).unwrap();

    let kinds: Vec<&AppEvent> = engine.events.iter().collect();
    assert!(matches!(kinds[0], AppEvent::CampaignCreated { .. }));
    assert!(matches!(kinds[1], AppEvent::MapCreated { .. }));
    assert!(matches!(kinds[2], AppEvent::MapLoaded { .. }));
    match &kinds[3] {
        AppEvent::TokenCreated { id, map_id } => {
            assert_eq!(id, &tid);
            assert_eq!(map_id, &mid);
        },
        other => panic!("unexpected event {:?}", other),
    }
    match &kinds[4] {
        AppEvent::TokenMoved { id, map_id, x, y } => {
            assert_eq!(id, &tid);
            assert_eq!(map_id, &mid);
            assert_eq!((*x, *y), (5, 5));
        },
        other => panic!("unexpected event {:?}", other),
    }
    assert!(matches!(kinds[5], AppEvent::TokenDeleted { .. }));
}

#[test]
fn initiative_merges_external_rolls_and_sorts_by_total() {
    let mut engine = Engine::new();
    let cid = engine
        .create_campaign(CreateCampaignRequest {
            name: "Lost Mine".to_string(),
            description: None,
            dm_name: "Dana".to_string(),
            settings: None,
        })
        .unwrap();
    let mut nimble = CharacterStats::default();
    nimble.dexterity = 18; // modifier +4
    let mut clumsy = CharacterStats::default();
    clumsy.dexterity = 6; // modifier -2
    let quick = engine
        .create_character(CreateCharacterRequest {
            campaign_id: cid.clone(),
            name: "Quick".to_string(),
            player_name: None,
            character_class: "Rogue".to_string(),
            level: 1,
            race: "Elf".to_string(),
            background: "Urchin".to_string(),
            stats: nimble,
            is_npc: false,
        })
        .unwrap();
    let slow = engine
        .create_character(CreateCharacterRequest {
            campaign_id: cid,
            name: "Slow".to_string(),
            player_name: None,
            character_class: "Wizard".to_string(),
            level: 1,
            race: "Human".to_string(),
            background: "Sage".to_string(),
            stats: clumsy,
            is_npc: false,
        })
        .unwrap();

    // The dice come from the external roller: Quick rolled 3, Slow rolled 15.
    let ids = vec![quick.clone(), slow.clone(), "unknown".to_string()];
    let rolls = vec![3, 15, 20];
    let results = engine.roll_initiative(&ids, &rolls);

    // The unknown id is skipped; the higher total goes first.
    assert_eq!(results.len(), 2);
    assert_eq!(results[0].character_name, "Slow");
    assert_eq!(results[0].roll, 15);
    assert_eq!(results[0].modifier, -2);
    assert_eq!(results[0].total, 13);
    assert_eq!(results[1].character_name, "Quick");
    assert_eq!(results[1].total, 7);
    assert_eq!(results[1].character_id, quick);
}

#[test]
fn disconnected_peers_can_be_evicted_after_the_grace_period() {
    let mut engine = Engine::new();
    let pid = "p1".to_string();
    engine.connect_peer(pid.clone(), "Pat".to_string()).unwrap();
    // Eviction is only for disconnected peers.
    assert_eq!(engine.coord.evict_peer(&pid).unwrap_err(), AppError::InvalidInput);
    engine.join_peer(&pid, PlayerRole::Player).unwrap();
    engine.disconnect_peer(&pid).unwrap();
    engine.coord.evict_peer(&pid).unwrap();
    assert!(engine.coord.peers.is_empty());
    assert_eq!(engine.coord.evict_peer(&pid).unwrap_err(), AppError::NotFound);
}
