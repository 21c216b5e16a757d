use tavern::engine::{CreateCampaignRequest, Engine};
use tavern::errors::AppError;
use tavern::models::{AreaShape, CreateMapRequest, Position, RevealedArea, Token, TokenSize};
use tavern::session::MapOp;

fn pos(x: i64, y: i64) -> Position {
    Position { x, y, z: Some(1) }
}

fn token(id: &str, x: i64, y: i64) -> Token {
    Token {
        id: id.to_string(),
        character_id: None,
        name: format!("token {}", id),
        image_url: Some("img/t.png".to_string()),
        position: pos(x, y),
        size: TokenSize::Small,
        conditions: vec!["prone".to_string()],
        notes: "scratched".to_string(),
        is_hidden: false,
        initiative: Some(12),
    }
}

fn circle(x: i64, y: i64, radius: i64) -> RevealedArea {
    RevealedArea { x, y, radius, shape: AreaShape::Circle }
}

/// createMap, addToken x k, snapshot, persist, reload from the entity
/// store: the token set and fog equal the pre-persistence in-memory state.
fn roundtrip_with_k_tokens(k: i64) {
    let mut engine = Engine::new();
    let cid = engine
        .create_campaign(CreateCampaignRequest {
            name: "Lost Mine".to_string(),
            description: None,
            dm_name: "Dana".to_string(),
            settings: None,
        })
        .unwrap();
    let mid = engine
        .create_map(CreateMapRequest {
            campaign_id: cid,
            name: "Cragmaw Hideout".to_string(),
            description: None,
            image_url: "maps/hideout.png".to_string(),
            grid_size: 5,
            width: 20,
            height: 20,
        })
        .unwrap();
    engine.load_map(&mid).unwrap();
    for i in 0..k {
        engine
            .apply_host_op(&mid, MapOp::AddToken(token(&format!("t{}", i), i, 2 * i)))
            .unwrap();
    }
    engine.apply_host_op(&mid, MapOp::RevealFog(circle(3, 3, 4))).unwrap();

    // The snapshot of the live map, before any reload.
    let snap = engine.load_map(&mid).unwrap();
    assert_eq!(snap.tokens.len(), k as usize);

    // Every applied operation was persisted synchronously, so the map can
    // be reloaded from the store alone: a fresh engine over the same store
    // simulates a restart.
    let mut reloaded = Engine::new();
    reloaded.store = engine.store;
    let snap2 = reloaded.load_map(&mid).unwrap();

    assert_eq!(snap2.tokens, snap.tokens);
    assert_eq!(snap2.fog_of_war, snap.fog_of_war);
}

#[test]
fn roundtrip_empty_map() {
    roundtrip_with_k_tokens(0);
}

#[test]
fn roundtrip_one_token() {
    roundtrip_with_k_tokens(1);
}

#[test]
fn roundtrip_fifty_tokens() {
    roundtrip_with_k_tokens(50);
}

#[test]
fn save_map_state_roundtrips_through_the_store() {
    let mut engine = Engine::new();
    let cid = engine
        .create_campaign(CreateCampaignRequest {
            name: "Camp".to_string(),
            description: None,
            dm_name: "Dana".to_string(),
            settings: None,
        })
        .unwrap();
    let mid = engine
        .create_map(CreateMapRequest {
            campaign_id: cid,
            name: "Keep".to_string(),
            description: None,
            image_url: String::new(),
            grid_size: 5,
            width: 10,
            height: 10,
        })
        .unwrap();
    let tokens = vec![token("a", 1, 1), token("b", 2, 2)];
    let fog = tavern::models::FogOfWar {
        revealed_areas: vec![circle(0, 0, 5)],
        is_enabled: true,
    };
    engine.save_map_state(&mid, tokens.clone(), Some(fog)).unwrap();

    let snap = engine.load_map(&mid).unwrap();
    assert_eq!(snap.tokens, tokens);
    assert_eq!(snap.fog_of_war.revealed_areas, vec![circle(0, 0, 5)]);
    assert!(snap.fog_of_war.is_enabled);
}

#[test]
fn save_map_state_rejects_duplicate_token_ids() {
    let mut engine = Engine::new();
    let cid = engine
        .create_campaign(CreateCampaignRequest {
            name: "Camp".to_string(),
            description: None,
            dm_name: "Dana".to_string(),
            settings: None,
        })
        .unwrap();
    let mid = engine
        .create_map(CreateMapRequest {
            campaign_id: cid,
            name: "Keep".to_string(),
            description: None,
            image_url: String::new(),
            grid_size: 5,
            width: 10,
            height: 10,
        })
        .unwrap();
    let dup = vec![token("a", 1, 1), token("a", 2, 2)];
    let r = engine.save_map_state(&mid, dup, None);
    assert_eq!(r.unwrap_err(), AppError::InvalidInput);
    let snap = engine.load_map(&mid).unwrap();
    assert!(snap.tokens.is_empty());
}

#[test]
fn deleting_a_campaign_closes_its_live_sessions() {
    let mut engine = Engine::new();
    let cid = engine
        .create_campaign(CreateCampaignRequest {
            name: "Doomed".to_string(),
            description: None,
            dm_name: "Dana".to_string(),
            settings: None,
        })
        .unwrap();
    let mid = engine
        .create_map(CreateMapRequest {
            campaign_id: cid.clone(),
            name: "Cave".to_string(),
            description: None,
            image_url: String::new(),
            grid_size: 5,
            width: 10,
            height: 10,
        })
        .unwrap();
    engine.load_map(&mid).unwrap();
    assert_eq!(engine.coord.live.len(), 1);

    engine.delete_campaign(&cid).unwrap();
    assert!(engine.coord.live.is_empty());
    assert_eq!(engine.load_map(&mid).unwrap_err(), AppError::NotFound);
}
