use tavern::models::{
    AdvantageMode, CampaignSettings, CharacterStats, CombatSettings, CriticalHitRules, Currency,
    GameSystem, InitiativeType, SkillProficiency, Skills, TokenSize, VariantRules,
};

fn stats(str_: i32, dex: i32, con: i32, int_: i32, wis: i32, cha: i32, pb: i32) -> CharacterStats {
    CharacterStats {
        strength: str_,
        dexterity: dex,
        constitution: con,
        intelligence: int_,
        wisdom: wis,
        charisma: cha,
        proficiency_bonus: pb,
    }
}

#[test]
fn modifier_full_names() {
    let s = stats(16, 14, 12, 10, 8, 6, 2);
    assert_eq!(s.get_modifier("strength"), 3);
    assert_eq!(s.get_modifier("dexterity"), 2);
    assert_eq!(s.get_modifier("constitution"), 1);
    assert_eq!(s.get_modifier("intelligence"), 0);
    assert_eq!(s.get_modifier("wisdom"), -1);
    assert_eq!(s.get_modifier("charisma"), -2);
}

#[test]
fn modifier_shorthands_and_case() {
    let s = stats(18, 15, 13, 11, 9, 7, 2);
    assert_eq!(s.get_modifier("str"), 4);
    assert_eq!(s.get_modifier("STR"), 4);
    assert_eq!(s.get_modifier("Dexterity"), 2);
    assert_eq!(s.get_modifier("DEX"), 2);
    assert_eq!(s.get_modifier("CoN"), 1);
    assert_eq!(s.get_modifier("int"), 0);
    // 9 - 10 = -1, and -1 / 2 truncates toward zero.
    assert_eq!(s.get_modifier("wis"), 0);
    assert_eq!(s.get_modifier("cha"), -1);
}

#[test]
fn modifier_unknown_name_is_zero() {
    let s = stats(20, 20, 20, 20, 20, 20, 3);
    assert_eq!(s.get_modifier("luck"), 0);
    assert_eq!(s.get_modifier(""), 0);
    assert_eq!(s.get_modifier("strengthh"), 0);
}

#[test]
fn modifier_truncates_toward_zero() {
    let s = stats(9, 7, 1, 30, 10, 11, 0);
    assert_eq!(s.get_modifier("str"), 0);
    assert_eq!(s.get_modifier("dex"), -1);
    assert_eq!(s.get_modifier("con"), -4);
    assert_eq!(s.get_modifier("int"), 10);
    assert_eq!(s.get_modifier("wis"), 0);
    assert_eq!(s.get_modifier("cha"), 0);
}

#[test]
fn dexterity_modifier_matches_lookup() {
    let s = stats(10, 14, 10, 10, 10, 10, 2);
    assert_eq!(s.dexterity_modifier(), 2);
    assert_eq!(s.dexterity_modifier(), s.get_modifier("dex"));
}

#[test]
fn saving_throws_add_proficiency() {
    let s = stats(16, 14, 12, 10, 8, 6, 3);
    assert_eq!(s.get_saving_throw("strength", false), 3);
    assert_eq!(s.get_saving_throw("strength", true), 6);
    assert_eq!(s.get_saving_throw("wisdom", false), -1);
    assert_eq!(s.get_saving_throw("wisdom", true), 2);
}

#[test]
fn currency_total_in_copper() {
    let c = Currency { copper: 1, silver: 2, electrum: 3, gold: 4, platinum: 5 };
    assert_eq!(c.total_in_copper(), 1 + 20 + 150 + 400 + 5000);
    let zero = Currency::default();
    assert_eq!(zero.total_in_copper(), 0);
    let negative = Currency { copper: -10, silver: 1, electrum: 0, gold: 0, platinum: 0 };
    assert_eq!(negative.total_in_copper(), 0);
}

#[test]
fn grid_squares_by_size() {
    assert_eq!(TokenSize::Tiny.grid_squares(), 1);
    assert_eq!(TokenSize::Small.grid_squares(), 1);
    assert_eq!(TokenSize::Medium.grid_squares(), 1);
    assert_eq!(TokenSize::Large.grid_squares(), 4);
    assert_eq!(TokenSize::Huge.grid_squares(), 9);
    assert_eq!(TokenSize::Gargantuan.grid_squares(), 16);
}

#[test]
fn defaults_match_the_rules() {
    assert_eq!(GameSystem::default(), GameSystem::DnD5e);
    assert_eq!(AdvantageMode::default(), AdvantageMode::Manual);
    assert_eq!(CriticalHitRules::default(), CriticalHitRules::Standard);
    assert_eq!(InitiativeType::default(), InitiativeType::Individual);
    assert_eq!(SkillProficiency::default(), SkillProficiency::Untrained);
    let settings = CampaignSettings::default();
    assert_eq!(settings.system, GameSystem::DnD5e);
    assert!(settings.house_rules.is_empty());
    assert_eq!(settings.variant_rules, VariantRules::default());
    let skills = Skills::default();
    assert_eq!(skills.stealth, SkillProficiency::Untrained);
    let combat = CombatSettings::default();
    assert_eq!(combat.initiative_type, InitiativeType::Individual);
    assert_eq!(combat.action_surge_limit, 0);
}
