use tavern::errors::AppError;
use tavern::models::{
    AssetType, CampaignSettings, CharacterStats, CombatStats, CreateCampaignData,
    CreateCharacterRequest, CreateMapRequest, Currency, Equipment, Item, ItemRarity, ItemType,
    UpdateCampaignRequest, UpdateCharacterRequest,
};
use tavern::store::EntityStore;

fn campaign_data(name: &str) -> CreateCampaignData {
    CreateCampaignData {
        name: name.to_string(),
        description: Some("a campaign".to_string()),
        dm_name: "Dana".to_string(),
        settings: CampaignSettings::default(),
    }
}

fn character_req(campaign_id: &str, name: &str, player: Option<&str>) -> CreateCharacterRequest {
    CreateCharacterRequest {
        campaign_id: campaign_id.to_string(),
        name: name.to_string(),
        player_name: player.map(|p| p.to_string()),
        character_class: "Fighter".to_string(),
        level: 1,
        race: "Human".to_string(),
        background: "Soldier".to_string(),
        stats: CharacterStats::default(),
        is_npc: false,
    }
}

fn map_req(campaign_id: &str, name: &str) -> CreateMapRequest {
    CreateMapRequest {
        campaign_id: campaign_id.to_string(),
        name: name.to_string(),
        description: None,
        image_url: "maps/cave.png".to_string(),
        grid_size: 5,
        width: 20,
        height: 20,
    }
}

#[test]
fn insert_campaign_conflicts_on_duplicate_id() {
    let mut store = EntityStore::new();
    let r1 = store.insert_campaign("c1".to_string(), 10, campaign_data("Lost Mine"));
    assert_eq!(r1.unwrap(), "c1".to_string());
    let r2 = store.insert_campaign("c1".to_string(), 11, campaign_data("Other"));
    assert_eq!(r2.unwrap_err(), AppError::Conflict);
    assert_eq!(store.campaigns.len(), 1);
    assert_eq!(store.campaigns[0].name, "Lost Mine");
    assert_eq!(store.campaigns[0].created_at, 10);
    assert_eq!(store.campaigns[0].updated_at, 10);
    assert!(store.campaigns[0].is_active);
}

#[test]
fn create_campaign_draws_fresh_ids() {
    let mut store = EntityStore::new();
    let a = store.create_campaign(campaign_data("A")).unwrap();
    let b = store.create_campaign(campaign_data("B")).unwrap();
    assert_ne!(a, b);
    assert_eq!(a.len(), 36);
    assert!(store.get_campaign(&a).is_some());
    assert!(store.get_campaign(&b).is_some());
    assert!(store.get_campaign(&"missing".to_string()).is_none());
}

#[test]
fn campaign_patch_touches_only_listed_fields() {
    let mut store = EntityStore::new();
    store.insert_campaign("c1".to_string(), 10, campaign_data("Lost Mine")).unwrap();
    let patch = UpdateCampaignRequest {
        name: Some("Found Mine".to_string()),
        description: None,
        settings: None,
    };
    store.apply_campaign_patch(&"c1".to_string(), patch, 99).unwrap();
    let c = store.get_campaign(&"c1".to_string()).unwrap();
    assert_eq!(c.name, "Found Mine");
    assert_eq!(c.description, Some("a campaign".to_string()));
    assert_eq!(c.dm_name, "Dana");
    assert_eq!(c.created_at, 10);
    assert_eq!(c.updated_at, 99);
}

#[test]
fn campaign_patch_not_found() {
    let mut store = EntityStore::new();
    let patch = UpdateCampaignRequest { name: None, description: None, settings: None };
    let r = store.apply_campaign_patch(&"nope".to_string(), patch, 5);
    assert_eq!(r.unwrap_err(), AppError::NotFound);
}

#[test]
fn character_patch_never_clobbers_sibling_blocks() {
    let mut store = EntityStore::new();
    store.insert_campaign("c1".to_string(), 1, campaign_data("Camp")).unwrap();
    store
        .insert_character("h1".to_string(), 2, character_req("c1", "Hilda", Some("Alice")))
        .unwrap();

    // Give the character visible combat stats first.
    let mut combat = CombatStats::default();
    combat.hit_points = 12;
    combat.max_hit_points = 12;
    let patch1 = UpdateCharacterRequest {
        name: None,
        level: None,
        stats: None,
        combat_stats: Some(combat),
        equipment: None,
        notes: None,
    };
    store.apply_character_patch(&"h1".to_string(), patch1, 3).unwrap();

    // Now patch the equipment block alone.
    let equipment = Equipment {
        items: vec![Item {
            id: "i1".to_string(),
            name: "Rope".to_string(),
            description: "50 feet".to_string(),
            quantity: 1,
            weight: 100,
            value: 100,
            rarity: ItemRarity::Common,
            item_type: ItemType::AdventuringGear,
        }],
        weapons: Vec::new(),
        armor: Vec::new(),
        currency: Currency::default(),
    };
    let patch2 = UpdateCharacterRequest {
        name: None,
        level: Some(2),
        stats: None,
        combat_stats: None,
        equipment: Some(equipment),
        notes: None,
    };
    store.apply_character_patch(&"h1".to_string(), patch2, 4).unwrap();

    let h = store.get_character(&"h1".to_string()).unwrap();
    assert_eq!(h.level, 2);
    assert_eq!(h.equipment.items.len(), 1);
    assert_eq!(h.equipment.items[0].name, "Rope");
    // The combat block from the earlier patch is untouched.
    assert_eq!(h.combat_stats.hit_points, 12);
    assert_eq!(h.combat_stats.max_hit_points, 12);
    assert_eq!(h.name, "Hilda");
    assert_eq!(h.updated_at, 4);
}

#[test]
fn get_characters_filters_by_campaign() {
    let mut store = EntityStore::new();
    store.insert_campaign("c1".to_string(), 1, campaign_data("One")).unwrap();
    store.insert_campaign("c2".to_string(), 1, campaign_data("Two")).unwrap();
    store.insert_character("h1".to_string(), 2, character_req("c1", "Hilda", None)).unwrap();
    store.insert_character("h2".to_string(), 2, character_req("c2", "Borin", None)).unwrap();
    store.insert_character("h3".to_string(), 2, character_req("c1", "Wynne", None)).unwrap();
    let of_one = store.get_characters(&"c1".to_string());
    assert_eq!(of_one.len(), 2);
    assert_eq!(of_one[0].name, "Hilda");
    assert_eq!(of_one[1].name, "Wynne");
    let same = store.get_characters_for_campaign(&"c1".to_string());
    assert_eq!(same.len(), 2);
}

#[test]
fn delete_character_not_found_is_an_error() {
    let mut store = EntityStore::new();
    let r = store.delete_character(&"ghost".to_string());
    assert_eq!(r.unwrap_err(), AppError::NotFound);
}

#[test]
fn delete_campaign_cascades_but_spares_global_assets() {
    let mut store = EntityStore::new();
    store.insert_campaign("c1".to_string(), 1, campaign_data("Doomed")).unwrap();
    store.insert_campaign("c2".to_string(), 1, campaign_data("Kept")).unwrap();
    store.insert_character("h1".to_string(), 2, character_req("c1", "Hilda", None)).unwrap();
    store.insert_character("h2".to_string(), 2, character_req("c2", "Borin", None)).unwrap();
    store.insert_map("m1".to_string(), 3, map_req("c1", "Cave")).unwrap();
    store.insert_map("m2".to_string(), 3, map_req("c2", "Keep")).unwrap();
    store
        .insert_asset(
            "a1".to_string(),
            4,
            Some("c1".to_string()),
            "portrait".to_string(),
            "img/p.png".to_string(),
            AssetType::Portrait,
            100,
            "image/png".to_string(),
            Vec::new(),
        )
        .unwrap();
    store
        .insert_asset(
            "a2".to_string(),
            4,
            None,
            "shared".to_string(),
            "img/s.png".to_string(),
            AssetType::Other,
            100,
            "image/png".to_string(),
            Vec::new(),
        )
        .unwrap();

    store.delete_campaign(&"c1".to_string()).unwrap();

    assert!(store.get_campaign(&"c1".to_string()).is_none());
    assert!(store.get_campaign(&"c2".to_string()).is_some());
    assert!(store.get_character(&"h1".to_string()).is_none());
    assert!(store.get_character(&"h2".to_string()).is_some());
    assert!(store.get_map(&"m1".to_string()).is_none());
    assert!(store.get_map(&"m2".to_string()).is_some());
    let remaining: Vec<String> = store.assets.iter().map(|a| a.id.clone()).collect();
    assert_eq!(remaining, vec!["a2".to_string()]);

    let again = store.delete_campaign(&"c1".to_string());
    assert_eq!(again.unwrap_err(), AppError::NotFound);
}

#[test]
fn assets_visible_to_a_campaign_include_global_ones() {
    let mut store = EntityStore::new();
    store
        .insert_asset(
            "a1".to_string(),
            1,
            Some("c1".to_string()),
            "own".to_string(),
            "p1".to_string(),
            AssetType::MapImage,
            1,
            "image/png".to_string(),
            Vec::new(),
        )
        .unwrap();
    store
        .insert_asset(
            "a2".to_string(),
            1,
            None,
            "global".to_string(),
            "p2".to_string(),
            AssetType::Other,
            1,
            "image/png".to_string(),
            Vec::new(),
        )
        .unwrap();
    store
        .insert_asset(
            "a3".to_string(),
            1,
            Some("c2".to_string()),
            "foreign".to_string(),
            "p3".to_string(),
            AssetType::Other,
            1,
            "image/png".to_string(),
            Vec::new(),
        )
        .unwrap();

    // Listings come back sorted by name: "global" before "own".
    let c1 = "c1".to_string();
    let visible: Vec<String> =
        store.get_assets(Some(&c1)).iter().map(|a| a.id.clone()).collect();
    assert_eq!(visible, vec!["a2".to_string(), "a1".to_string()]);
    let global: Vec<String> = store.get_assets(None).iter().map(|a| a.id.clone()).collect();
    assert_eq!(global, vec!["a2".to_string()]);

    store.delete_asset(&"a2".to_string()).unwrap();
    assert_eq!(store.get_assets(None).len(), 0);
    assert_eq!(
        store.delete_asset(&"a2".to_string()).unwrap_err(),
        AppError::NotFound
    );
}

#[test]
fn save_map_state_stamps_and_replaces() {
    let mut store = EntityStore::new();
    store.insert_map("m1".to_string(), 3, map_req("c1", "Cave")).unwrap();
    store.set_map_state(&"m1".to_string(), Vec::new(), None, 42).unwrap();
    let m = store.get_map(&"m1".to_string()).unwrap();
    assert_eq!(m.updated_at, 42);
    assert!(m.tokens.is_empty());
    let r = store.set_map_state(&"nope".to_string(), Vec::new(), None, 43);
    assert_eq!(r.unwrap_err(), AppError::NotFound);
}

#[test]
fn campaigns_list_most_recently_updated_first() {
    let mut store = EntityStore::new();
    store.insert_campaign("c1".to_string(), 10, campaign_data("Old")).unwrap();
    store.insert_campaign("c2".to_string(), 20, campaign_data("Middle")).unwrap();
    store.insert_campaign("c3".to_string(), 30, campaign_data("New")).unwrap();
    // Touching the oldest brings it to the front.
    let patch = UpdateCampaignRequest { name: None, description: None, settings: None };
    store.apply_campaign_patch(&"c1".to_string(), patch, 40).unwrap();
    let names: Vec<String> =
        store.get_all_campaigns().iter().map(|c| c.name.clone()).collect();
    assert_eq!(
        names,
        vec!["Old".to_string(), "New".to_string(), "Middle".to_string()]
    );
}

#[test]
fn characters_and_maps_list_by_name() {
    let mut store = EntityStore::new();
    store.insert_campaign("c1".to_string(), 1, campaign_data("Camp")).unwrap();
    store.insert_character("h1".to_string(), 2, character_req("c1", "Wynne", None)).unwrap();
    store.insert_character("h2".to_string(), 2, character_req("c1", "Borin", None)).unwrap();
    store.insert_character("h3".to_string(), 2, character_req("c1", "Hilda", None)).unwrap();
    let names: Vec<String> =
        store.get_characters(&"c1".to_string()).iter().map(|c| c.name.clone()).collect();
    assert_eq!(
        names,
        vec!["Borin".to_string(), "Hilda".to_string(), "Wynne".to_string()]
    );

    store.insert_map("m1".to_string(), 3, map_req("c1", "Keep")).unwrap();
    store.insert_map("m2".to_string(), 3, map_req("c1", "Cave")).unwrap();
    let map_names: Vec<String> =
        store.get_maps(&"c1".to_string()).iter().map(|m| m.name.clone()).collect();
    assert_eq!(map_names, vec!["Cave".to_string(), "Keep".to_string()]);
}
