//! The data model: campaigns, characters, maps, tokens and fog-of-war,
//! together with the small pure computations the rules attach to them.
//!
//! Grid positions, radii and timestamps are plain integers: a position is a
//! grid coordinate, a timestamp a millisecond count. Identifiers are opaque
//! strings.

use vstd::prelude::*;
use vstd::string::StrSliceExecFns;

verus! {

// =========================================================================
// Case-insensitive names
// =========================================================================

/// The character's code, with an upper-case ASCII letter folded to lower
/// case.
pub open spec fn lower_code(c: char) -> int {
    if 65 <= c as u32 <= 90 {
        c as u32 + 32
    } else {
        c as u32 as int
    }
}

/// Equality of two character sequences up to ASCII case.
pub open spec fn ci_eq(a: Seq<char>, b: Seq<char>) -> bool {
    a.len() == b.len() && forall|i: int| 0 <= i < a.len() ==> lower_code(a[i]) == lower_code(b[i])
}

fn lower_of_char(c: char) -> (r: u32)
    ensures
        r == lower_code(c),
{
    let u = c as u32;
    if 65 <= u && u <= 90 {
        u + 32
    } else {
        u
    }
}

/// Compares two strings up to ASCII case, character by character.
fn str_eq_ignore_case(a: &str, b: &str) -> (r: bool)
    ensures
        r == ci_eq(a@, b@),
{
    let an = a.unicode_len();
    let bn = b.unicode_len();
    if an != bn {
        return false;
    }
    let mut i: usize = 0;
    while i < an
        invariant
            an == a@.len(),
            bn == b@.len(),
            an == bn,
            i <= an,
            forall|j: int| 0 <= j < i ==> lower_code(a@[j]) == lower_code(b@[j]),
        decreases an - i,
    {
        let ca = a.get_char(i);
        let cb = b.get_char(i);
        if lower_of_char(ca) != lower_of_char(cb) {
            return false;
        }
        i = i + 1;
    }
    true
}

/// Lexicographic order on character sequences, by code point: the order
/// under which listings sort names. UTF-8 byte order agrees with it, so it
/// is the order a binary-collated text column yields.
pub open spec fn str_le(a: Seq<char>, b: Seq<char>) -> bool
    decreases a.len(),
{
    if a.len() == 0 {
        true
    } else if b.len() == 0 {
        false
    } else if (a[0] as u32) < (b[0] as u32) {
        true
    } else if (a[0] as u32) > (b[0] as u32) {
        false
    } else {
        str_le(a.skip(1), b.skip(1))
    }
}

/// The name order is total: of any two strings, one is less-or-equal the
/// other (both, exactly when they are equal).
pub proof fn lemma_str_le_total(a: Seq<char>, b: Seq<char>)
    ensures
        str_le(a, b) || str_le(b, a),
    decreases a.len(),
{
    if a.len() == 0 {
    } else if b.len() == 0 {
    } else if (a[0] as u32) == (b[0] as u32) {
        lemma_str_le_total(a.skip(1), b.skip(1));
    }
}

/// The name order is transitive.
pub proof fn lemma_str_le_trans(a: Seq<char>, b: Seq<char>, c: Seq<char>)
    requires
        str_le(a, b),
        str_le(b, c),
    ensures
        str_le(a, c),
    decreases a.len(),
{
    if a.len() == 0 {
    } else {
        assert(b.len() > 0);
        assert(c.len() > 0);
        if (a[0] as u32) == (b[0] as u32) && (b[0] as u32) == (c[0] as u32) {
            lemma_str_le_trans(a.skip(1), b.skip(1), c.skip(1));
        }
    }
}

/// Compares two strings in the name order, character by character.
pub fn str_le_exec(a: &str, b: &str) -> (r: bool)
    ensures
        r == str_le(a@, b@),
{
    let an = a.unicode_len();
    let bn = b.unicode_len();
    let mut i: usize = 0;
    proof {
        assert(a@.skip(0) =~= a@);
        assert(b@.skip(0) =~= b@);
    }
    while i < an && i < bn
        invariant
            an == a@.len(),
            bn == b@.len(),
            i <= an,
            i <= bn,
            str_le(a@, b@) == str_le(a@.skip(i as int), b@.skip(i as int)),
        decreases an - i,
    {
        let ca = a.get_char(i);
        let cb = b.get_char(i);
        let ua = ca as u32;
        let ub = cb as u32;
        proof {
            assert(a@.skip(i as int)[0] == a@[i as int]);
            assert(b@.skip(i as int)[0] == b@[i as int]);
        }
        if ua < ub {
            return true;
        }
        if ua > ub {
            return false;
        }
        proof {
            assert(a@.skip(i as int).skip(1) =~= a@.skip(i + 1));
            assert(b@.skip(i as int).skip(1) =~= b@.skip(i + 1));
        }
        i = i + 1;
    }
    proof {
        if i == an {
            assert(a@.skip(i as int).len() == 0);
        } else {
            assert(b@.skip(i as int).len() == 0);
            assert(a@.skip(i as int).len() > 0);
        }
    }
    i == an
}

// =========================================================================
// Campaign settings
// =========================================================================

#[derive(Debug, Clone, PartialEq)]
pub struct CampaignSettings {
    pub system: GameSystem,
    pub house_rules: Vec<HouseRule>,
    pub variant_rules: VariantRules,
    pub dice_rolling: DiceSettings,
    pub combat_settings: CombatSettings,
}

#[derive(Debug, Clone, Copy, PartialEq, Eq, Structural)]
pub enum GameSystem {
    DnD5e,
    Pathfinder2e,
    Generic,
}

impl Default for GameSystem {
    fn default() -> (r: Self)
        ensures
            r == GameSystem::DnD5e,
    {
        GameSystem::DnD5e
    }
}

#[derive(Debug, Clone, PartialEq)]
pub struct HouseRule {
    pub id: String,
    pub name: String,
    pub description: String,
    pub is_enabled: bool,
}

#[derive(Debug, Clone, Copy, PartialEq, Eq, Structural)]
pub struct VariantRules {
    pub flanking: bool,
    pub feats: bool,
    pub multiclassing: bool,
    pub optional_class_features: bool,
    pub customizing_ability_scores: bool,
}

pub open spec fn default_variant_rules() -> VariantRules {
    VariantRules {
        flanking: false,
        feats: false,
        multiclassing: false,
        optional_class_features: false,
        customizing_ability_scores: false,
    }
}

impl Default for VariantRules {
    fn default() -> (r: Self)
        ensures
            r == default_variant_rules(),
    {
        VariantRules {
            flanking: false,
            feats: false,
            multiclassing: false,
            optional_class_features: false,
            customizing_ability_scores: false,
        }
    }
}

#[derive(Debug, Clone, Copy, PartialEq, Eq, Structural)]
pub struct DiceSettings {
    pub advantage_mode: AdvantageMode,
    pub critical_hit_rules: CriticalHitRules,
    pub fumble_rules: bool,
    pub exploding_dice: bool,
}

pub open spec fn default_dice_settings() -> DiceSettings {
    DiceSettings {
        advantage_mode: AdvantageMode::Manual,
        critical_hit_rules: CriticalHitRules::Standard,
        fumble_rules: false,
        exploding_dice: false,
    }
}

impl Default for DiceSettings {
    fn default() -> (r: Self)
        ensures
            r == default_dice_settings(),
    {
        DiceSettings {
            advantage_mode: AdvantageMode::Manual,
            critical_hit_rules: CriticalHitRules::Standard,
            fumble_rules: false,
            exploding_dice: false,
        }
    }
}

#[derive(Debug, Clone, Copy, PartialEq, Eq, Structural)]
pub enum AdvantageMode {
    Manual,
    Automatic,
    Ask,
}

impl Default for AdvantageMode {
    fn default() -> (r: Self)
        ensures
            r == AdvantageMode::Manual,
    {
        AdvantageMode::Manual
    }
}

#[derive(Debug, Clone, Copy, PartialEq, Eq, Structural)]
pub enum CriticalHitRules {
    DoubleDice,
    MaxPlusRoll,
    Standard,
}

impl Default for CriticalHitRules {
    fn default() -> (r: Self)
        ensures
            r == CriticalHitRules::Standard,
    {
        CriticalHitRules::Standard
    }
}

#[derive(Debug, Clone, Copy, PartialEq, Eq, Structural)]
pub struct CombatSettings {
    pub initiative_type: InitiativeType,
    pub death_saves: bool,
    pub healing_surge: bool,
    pub action_surge_limit: u8,
}

pub open spec fn default_combat_settings() -> CombatSettings {
    CombatSettings {
        initiative_type: InitiativeType::Individual,
        death_saves: false,
        healing_surge: false,
        action_surge_limit: 0,
    }
}

impl Default for CombatSettings {
    fn default() -> (r: Self)
        ensures
            r == default_combat_settings(),
    {
        CombatSettings {
            initiative_type: InitiativeType::Individual,
            death_saves: false,
            healing_surge: false,
            action_surge_limit: 0,
        }
    }
}

#[derive(Debug, Clone, Copy, PartialEq, Eq, Structural)]
pub enum InitiativeType {
    Individual,
    Group,
    Side,
}

impl Default for InitiativeType {
    fn default() -> (r: Self)
        ensures
            r == InitiativeType::Individual,
    {
        InitiativeType::Individual
    }
}

impl Default for CampaignSettings {
    fn default() -> (r: Self)
        ensures
            r.system == GameSystem::DnD5e,
            r.house_rules@ =~= Seq::<HouseRule>::empty(),
            r.variant_rules == default_variant_rules(),
            r.dice_rolling == default_dice_settings(),
            r.combat_settings == default_combat_settings(),
    {
        CampaignSettings {
            system: GameSystem::DnD5e,
            house_rules: Vec::new(),
            variant_rules: VariantRules::default(),
            dice_rolling: DiceSettings::default(),
            combat_settings: CombatSettings::default(),
        }
    }
}

// =========================================================================
// Campaign and character records
// =========================================================================

#[derive(Debug, Clone, PartialEq)]
pub struct Campaign {
    pub id: String,
    pub name: String,
    pub description: Option<String>,
    pub dm_name: String,
    pub settings: CampaignSettings,
    pub created_at: i64,
    pub updated_at: i64,
    pub is_active: bool,
}

#[derive(Debug, Clone, PartialEq)]
pub struct Character {
    pub id: String,
    pub campaign_id: String,
    pub name: String,
    pub player_name: Option<String>,
    pub character_class: String,
    pub level: i32,
    pub race: String,
    pub background: String,
    pub stats: CharacterStats,
    pub combat_stats: CombatStats,
    pub skills: Skills,
    pub equipment: Equipment,
    pub spells: Vec<Spell>,
    pub features: Vec<Feature>,
    pub notes: String,
    pub avatar_url: Option<String>,
    pub is_npc: bool,
    pub created_at: i64,
    pub updated_at: i64,
}

#[derive(Debug, Clone, Copy, PartialEq, Eq, Structural)]
pub struct CharacterStats {
    pub strength: i32,
    pub dexterity: i32,
    pub constitution: i32,
    pub intelligence: i32,
    pub wisdom: i32,
    pub charisma: i32,
    pub proficiency_bonus: i32,
}

pub open spec fn default_character_stats() -> CharacterStats {
    CharacterStats {
        strength: 0,
        dexterity: 0,
        constitution: 0,
        intelligence: 0,
        wisdom: 0,
        charisma: 0,
        proficiency_bonus: 0,
    }
}

impl Default for CharacterStats {
    fn default() -> (r: Self)
        ensures
            r == default_character_stats(),
    {
        CharacterStats {
            strength: 0,
            dexterity: 0,
            constitution: 0,
            intelligence: 0,
            wisdom: 0,
            charisma: 0,
            proficiency_bonus: 0,
        }
    }
}

/// The ability modifier for a score, with division truncating toward zero:
/// 10 or 11 give 0, each two points above or below shift it by one.
pub open spec fn ability_modifier(score: int) -> int {
    if score >= 10 {
        (score - 10) / 2
    } else {
        -((10 - score) / 2)
    }
}

/// The modifier an ability name selects: each ability answers to its full
/// name or its three-letter shorthand, in any ASCII case; an unknown name
/// gives 0.
pub open spec fn spec_get_modifier(stats: CharacterStats, name: Seq<char>) -> int {
    if ci_eq(name, "strength"@) || ci_eq(name, "str"@) {
        ability_modifier(stats.strength as int)
    } else if ci_eq(name, "dexterity"@) || ci_eq(name, "dex"@) {
        ability_modifier(stats.dexterity as int)
    } else if ci_eq(name, "constitution"@) || ci_eq(name, "con"@) {
        ability_modifier(stats.constitution as int)
    } else if ci_eq(name, "intelligence"@) || ci_eq(name, "int"@) {
        ability_modifier(stats.intelligence as int)
    } else if ci_eq(name, "wisdom"@) || ci_eq(name, "wis"@) {
        ability_modifier(stats.wisdom as int)
    } else if ci_eq(name, "charisma"@) || ci_eq(name, "cha"@) {
        ability_modifier(stats.charisma as int)
    } else {
        0
    }
}

impl CharacterStats {
    /// The ability modifier selected by name ("strength" or "str", in any
    /// ASCII case, and so on); 0 for a name that is no ability.
    pub fn get_modifier(&self, stat: &str) -> (r: i32)
        ensures
            r == spec_get_modifier(*self, stat@),
    {
        if str_eq_ignore_case(stat, "strength") || str_eq_ignore_case(stat, "str") {
            Self::modifier_of_score(self.strength)
        } else if str_eq_ignore_case(stat, "dexterity") || str_eq_ignore_case(stat, "dex") {
            Self::modifier_of_score(self.dexterity)
        } else if str_eq_ignore_case(stat, "constitution") || str_eq_ignore_case(stat, "con") {
            Self::modifier_of_score(self.constitution)
        } else if str_eq_ignore_case(stat, "intelligence") || str_eq_ignore_case(stat, "int") {
            Self::modifier_of_score(self.intelligence)
        } else if str_eq_ignore_case(stat, "wisdom") || str_eq_ignore_case(stat, "wis") {
            Self::modifier_of_score(self.wisdom)
        } else if str_eq_ignore_case(stat, "charisma") || str_eq_ignore_case(stat, "cha") {
            Self::modifier_of_score(self.charisma)
        } else {
            0
        }
    }

    /// The saving throw bonus for an ability: its modifier, plus the
    /// proficiency bonus when the save is proficient.
    pub fn get_saving_throw(&self, stat: &str, proficient: bool) -> (r: i32)
        requires
            proficient ==> i32::MIN <= spec_get_modifier(*self, stat@) + self.proficiency_bonus
                <= i32::MAX,
        ensures
            proficient ==> r == spec_get_modifier(*self, stat@) + self.proficiency_bonus,
            !proficient ==> r == spec_get_modifier(*self, stat@),
    {
        let modifier = self.get_modifier(stat);
        if proficient {
            modifier + self.proficiency_bonus
        } else {
            modifier
        }
    }

    /// The dexterity modifier, used as the initiative bonus.
    pub fn dexterity_modifier(&self) -> (r: i32)
        ensures
            r == ability_modifier(self.dexterity as int),
    {
        Self::modifier_of_score(self.dexterity)
    }

    /// Computes the ability modifier of one score; total for every `i32`.
    fn modifier_of_score(score: i32) -> (r: i32)
        ensures
            r == ability_modifier(score as int),
    {
        if score >= 10 {
            (((score as u32) - 10) / 2) as i32
        } else {
            let d: u64 = ((10 as i64 - score as i64) / 2) as u64;
            -(d as i32)
        }
    }
}

#[derive(Debug, Clone, PartialEq)]
pub struct CombatStats {
    pub armor_class: i32,
    pub hit_points: i32,
    pub max_hit_points: i32,
    pub temporary_hit_points: i32,
    pub speed: i32,
    pub initiative_bonus: i32,
    pub death_saves_success: i32,
    pub death_saves_failure: i32,
    pub conditions: Vec<Condition>,
}

impl Default for CombatStats {
    fn default() -> (r: Self)
        ensures
            r.armor_class == 0,
            r.hit_points == 0,
            r.max_hit_points == 0,
            r.temporary_hit_points == 0,
            r.speed == 0,
            r.initiative_bonus == 0,
            r.death_saves_success == 0,
            r.death_saves_failure == 0,
            r.conditions@ =~= Seq::<Condition>::empty(),
    {
        CombatStats {
            armor_class: 0,
            hit_points: 0,
            max_hit_points: 0,
            temporary_hit_points: 0,
            speed: 0,
            initiative_bonus: 0,
            death_saves_success: 0,
            death_saves_failure: 0,
            conditions: Vec::new(),
        }
    }
}

#[derive(Debug, Clone, PartialEq)]
pub struct Condition {
    pub name: String,
    pub description: String,
    pub duration: Option<i32>,
    pub source: String,
}

#[derive(Debug, Clone, Copy, PartialEq, Eq, Structural)]
pub struct Skills {
    pub acrobatics: SkillProficiency,
    pub animal_handling: SkillProficiency,
    pub arcana: SkillProficiency,
    pub athletics: SkillProficiency,
    pub deception: SkillProficiency,
    pub history: SkillProficiency,
    pub insight: SkillProficiency,
    pub intimidation: SkillProficiency,
    pub investigation: SkillProficiency,
    pub medicine: SkillProficiency,
    pub nature: SkillProficiency,
    pub perception: SkillProficiency,
    pub performance: SkillProficiency,
    pub persuasion: SkillProficiency,
    pub religion: SkillProficiency,
    pub sleight_of_hand: SkillProficiency,
    pub stealth: SkillProficiency,
    pub survival: SkillProficiency,
}

pub open spec fn default_skills() -> Skills {
    Skills {
        acrobatics: SkillProficiency::Untrained,
        animal_handling: SkillProficiency::Untrained,
        arcana: SkillProficiency::Untrained,
        athletics: SkillProficiency::Untrained,
        deception: SkillProficiency::Untrained,
        history: SkillProficiency::Untrained,
        insight: SkillProficiency::Untrained,
        intimidation: SkillProficiency::Untrained,
        investigation: SkillProficiency::Untrained,
        medicine: SkillProficiency::Untrained,
        nature: SkillProficiency::Untrained,
        perception: SkillProficiency::Untrained,
        performance: SkillProficiency::Untrained,
        persuasion: SkillProficiency::Untrained,
        religion: SkillProficiency::Untrained,
        sleight_of_hand: SkillProficiency::Untrained,
        stealth: SkillProficiency::Untrained,
        survival: SkillProficiency::Untrained,
    }
}

impl Default for Skills {
    fn default() -> (r: Self)
        ensures
            r == default_skills(),
    {
        Skills {
            acrobatics: SkillProficiency::Untrained,
            animal_handling: SkillProficiency::Untrained,
            arcana: SkillProficiency::Untrained,
            athletics: SkillProficiency::Untrained,
            deception: SkillProficiency::Untrained,
            history: SkillProficiency::Untrained,
            insight: SkillProficiency::Untrained,
            intimidation: SkillProficiency::Untrained,
            investigation: SkillProficiency::Untrained,
            medicine: SkillProficiency::Untrained,
            nature: SkillProficiency::Untrained,
            perception: SkillProficiency::Untrained,
            performance: SkillProficiency::Untrained,
            persuasion: SkillProficiency::Untrained,
            religion: SkillProficiency::Untrained,
            sleight_of_hand: SkillProficiency::Untrained,
            stealth: SkillProficiency::Untrained,
            survival: SkillProficiency::Untrained,
        }
    }
}

#[derive(Debug, Clone, Copy, PartialEq, Eq, Structural)]
pub enum SkillProficiency {
    Untrained,
    Proficient,
    Expertise,
}

impl Default for SkillProficiency {
    fn default() -> (r: Self)
        ensures
            r == SkillProficiency::Untrained,
    {
        SkillProficiency::Untrained
    }
}

// =========================================================================
// Equipment
// =========================================================================

#[derive(Debug, Clone, PartialEq)]
pub struct Equipment {
    pub items: Vec<Item>,
    pub weapons: Vec<Weapon>,
    pub armor: Vec<Armor>,
    pub currency: Currency,
}

impl Default for Equipment {
    fn default() -> (r: Self)
        ensures
            r.items@ =~= Seq::<Item>::empty(),
            r.weapons@ =~= Seq::<Weapon>::empty(),
            r.armor@ =~= Seq::<Armor>::empty(),
            r.currency == default_currency(),
    {
        Equipment {
            items: Vec::new(),
            weapons: Vec::new(),
            armor: Vec::new(),
            currency: Currency::default(),
        }
    }
}

#[derive(Debug, Clone, PartialEq)]
pub struct Item {
    pub id: String,
    pub name: String,
    pub description: String,
    pub quantity: i32,
    /// Weight in tenths of a pound, so that it stays an exact integer.
    pub weight: i64,
    /// Value in copper pieces.
    pub value: i32,
    pub rarity: ItemRarity,
    pub item_type: ItemType,
}

#[derive(Debug, Clone, Copy, PartialEq, Eq, Structural)]
pub enum ItemRarity {
    Common,
    Uncommon,
    Rare,
    VeryRare,
    Legendary,
    Artifact,
}

#[derive(Debug, Clone, Copy, PartialEq, Eq, Structural)]
pub enum ItemType {
    AdventuringGear,
    Tool,
    Consumable,
    Treasure,
    MagicItem,
}

#[derive(Debug, Clone, PartialEq)]
pub struct Weapon {
    pub id: String,
    pub name: String,
    pub damage_dice: String,
    pub damage_type: DamageType,
    pub properties: Vec<WeaponProperty>,
    pub range: Option<WeaponRange>,
    pub is_equipped: bool,
}

#[derive(Debug, Clone, Copy, PartialEq, Eq, Structural)]
pub enum DamageType {
    Acid,
    Bludgeoning,
    Cold,
    Fire,
    Force,
    Lightning,
    Necrotic,
    Piercing,
    Poison,
    Psychic,
    Radiant,
    Slashing,
    Thunder,
}

#[derive(Debug, Clone, Copy, PartialEq, Eq, Structural)]
pub enum WeaponProperty {
    Ammunition,
    Finesse,
    Heavy,
    Light,
    Loading,
    Reach,
    Special,
    Thrown,
    TwoHanded,
    Versatile,
}

#[derive(Debug, Clone, Copy, PartialEq, Eq, Structural)]
pub struct WeaponRange {
    pub normal: i32,
    pub long: Option<i32>,
}

#[derive(Debug, Clone, PartialEq)]
pub struct Armor {
    pub id: String,
    pub name: String,
    pub armor_class: i32,
    pub armor_type: ArmorType,
    pub stealth_disadvantage: bool,
    pub is_equipped: bool,
}

#[derive(Debug, Clone, Copy, PartialEq, Eq, Structural)]
pub enum ArmorType {
    Light,
    Medium,
    Heavy,
    Shield,
}

#[derive(Debug, Clone, Copy, PartialEq, Eq, Structural)]
pub struct Currency {
    pub copper: i32,
    pub silver: i32,
    pub electrum: i32,
    pub gold: i32,
    pub platinum: i32,
}

pub open spec fn default_currency() -> Currency {
    Currency { copper: 0, silver: 0, electrum: 0, gold: 0, platinum: 0 }
}

impl Default for Currency {
    fn default() -> (r: Self)
        ensures
            r == default_currency(),
    {
        Currency { copper: 0, silver: 0, electrum: 0, gold: 0, platinum: 0 }
    }
}

/// The exchange value of a purse in copper pieces: 10 to a silver, 50 to an
/// electrum, 100 to a gold and 1000 to a platinum piece.
pub open spec fn total_copper(c: Currency) -> int {
    c.copper + c.silver * 10 + c.electrum * 50 + c.gold * 100 + c.platinum * 1000
}

impl Currency {
    pub fn total_in_copper(&self) -> (r: i32)
        requires
            i32::MIN <= total_copper(*self) <= i32::MAX,
        ensures
            r == total_copper(*self),
    {
        let total: i64 = self.copper as i64 + self.silver as i64 * 10 + self.electrum as i64 * 50
            + self.gold as i64 * 100 + self.platinum as i64 * 1000;
        total as i32
    }
}

// =========================================================================
// Spells and features
// =========================================================================

#[derive(Debug, Clone, PartialEq)]
pub struct Spell {
    pub id: String,
    pub name: String,
    pub level: i32,
    pub school: SpellSchool,
    pub casting_time: String,
    pub range: String,
    pub components: SpellComponents,
    pub duration: String,
    pub description: String,
    pub is_prepared: bool,
    pub is_ritual: bool,
    pub damage: Option<SpellDamage>,
}

#[derive(Debug, Clone, Copy, PartialEq, Eq, Structural)]
pub enum SpellSchool {
    Abjuration,
    Conjuration,
    Divination,
    Enchantment,
    Evocation,
    Illusion,
    Necromancy,
    Transmutation,
}

#[derive(Debug, Clone, PartialEq)]
pub struct SpellComponents {
    pub verbal: bool,
    pub somatic: bool,
    pub material: bool,
    pub material_description: Option<String>,
}

#[derive(Debug, Clone, PartialEq)]
pub struct SpellDamage {
    pub damage_dice: String,
    pub damage_type: DamageType,
    pub scaling: Option<SpellScaling>,
}

#[derive(Debug, Clone, PartialEq)]
pub struct SpellScaling {
    pub per_level: String,
    pub max_level: i32,
}

#[derive(Debug, Clone, PartialEq)]
pub struct Feature {
    pub id: String,
    pub name: String,
    pub description: String,
    pub source: FeatureSource,
    pub uses: Option<FeatureUses>,
}

#[derive(Debug, Clone, Copy, PartialEq, Eq, Structural)]
pub enum FeatureSource {
    Class,
    Race,
    Background,
    Feat,
    MagicItem,
}

#[derive(Debug, Clone, Copy, PartialEq, Eq, Structural)]
pub struct FeatureUses {
    pub max_uses: i32,
    pub current_uses: i32,
    pub recharge: RechargeType,
}

#[derive(Debug, Clone, Copy, PartialEq, Eq, Structural)]
pub enum RechargeType {
    ShortRest,
    LongRest,
    Daily,
    Weekly,
}

// =========================================================================
// Maps, tokens and fog-of-war
// =========================================================================

/// A map record as the entity store holds it. The token set and fog-of-war
/// are the mutable map state; the rest are descriptive fields.
#[derive(Debug, Clone, PartialEq)]
pub struct GameMap {
    pub id: String,
    pub campaign_id: String,
    pub name: String,
    pub description: Option<String>,
    pub image_url: String,
    pub grid_size: i32,
    pub width: i32,
    pub height: i32,
    pub tokens: Vec<Token>,
    pub fog_of_war: Option<FogOfWar>,
    pub created_at: i64,
    pub updated_at: i64,
}

#[derive(Debug, PartialEq)]
pub struct Token {
    pub id: String,
    pub character_id: Option<String>,
    pub name: String,
    pub image_url: Option<String>,
    pub position: Position,
    pub size: TokenSize,
    pub conditions: Vec<String>,
    pub notes: String,
    pub is_hidden: bool,
    pub initiative: Option<i32>,
}

/// A grid position; `z` is an optional elevation.
#[derive(Debug, Clone, Copy, PartialEq, Eq)]
pub struct Position {
    pub x: i64,
    pub y: i64,
    pub z: Option<i64>,
}

#[derive(Debug, Clone, Copy, PartialEq, Eq, Structural)]
pub enum TokenSize {
    Tiny,
    Small,
    Medium,
    Large,
    Huge,
    Gargantuan,
}

/// The grid-square footprint of each size class.
pub open spec fn spec_grid_squares(s: TokenSize) -> int {
    match s {
        TokenSize::Tiny => 1,
        TokenSize::Small => 1,
        TokenSize::Medium => 1,
        TokenSize::Large => 4,
        TokenSize::Huge => 9,
        TokenSize::Gargantuan => 16,
    }
}

impl TokenSize {
    pub fn grid_squares(&self) -> (r: i32)
        ensures
            r == spec_grid_squares(*self),
    {
        match self {
            TokenSize::Tiny => 1,
            TokenSize::Small => 1,
            TokenSize::Medium => 1,
            TokenSize::Large => 4,
            TokenSize::Huge => 9,
            TokenSize::Gargantuan => 16,
        }
    }
}

#[derive(Debug, PartialEq)]
pub struct FogOfWar {
    pub revealed_areas: Vec<RevealedArea>,
    pub is_enabled: bool,
}

#[derive(Debug, PartialEq)]
pub struct RevealedArea {
    pub x: i64,
    pub y: i64,
    pub radius: i64,
    pub shape: AreaShape,
}

#[derive(Debug, PartialEq)]
pub enum AreaShape {
    Circle,
    Square,
    Polygon(Vec<Position>),
}

// =========================================================================
// Mathematical views of the map state
// =========================================================================

pub open spec fn opt_str_view(o: Option<String>) -> Option<Seq<char>> {
    match o {
        Option::Some(s) => Option::Some(s@),
        Option::None => Option::None,
    }
}

/// A token as a value: every string replaced by its character sequence.
pub ghost struct TokenView {
    pub id: Seq<char>,
    pub character_id: Option<Seq<char>>,
    pub name: Seq<char>,
    pub image_url: Option<Seq<char>>,
    pub position: Position,
    pub size: TokenSize,
    pub conditions: Seq<Seq<char>>,
    pub notes: Seq<char>,
    pub is_hidden: bool,
    pub initiative: Option<i32>,
}

impl View for Token {
    type V = TokenView;

    open spec fn view(&self) -> TokenView {
        TokenView {
            id: self.id@,
            character_id: opt_str_view(self.character_id),
            name: self.name@,
            image_url: opt_str_view(self.image_url),
            position: self.position,
            size: self.size,
            conditions: self.conditions@.map_values(|s: String| s@),
            notes: self.notes@,
            is_hidden: self.is_hidden,
            initiative: self.initiative,
        }
    }
}

pub ghost enum ShapeView {
    Circle,
    Square,
    Polygon(Seq<Position>),
}

impl View for AreaShape {
    type V = ShapeView;

    open spec fn view(&self) -> ShapeView {
        match self {
            AreaShape::Circle => ShapeView::Circle,
            AreaShape::Square => ShapeView::Square,
            AreaShape::Polygon(ps) => ShapeView::Polygon(ps@),
        }
    }
}

pub ghost struct AreaView {
    pub x: i64,
    pub y: i64,
    pub radius: i64,
    pub shape: ShapeView,
}

impl View for RevealedArea {
    type V = AreaView;

    open spec fn view(&self) -> AreaView {
        AreaView { x: self.x, y: self.y, radius: self.radius, shape: self.shape@ }
    }
}

/// The fog as a value: the revealed areas in reveal order, and the flag.
pub ghost struct FogView {
    pub revealed: Seq<AreaView>,
    pub enabled: bool,
}

impl View for FogOfWar {
    type V = FogView;

    open spec fn view(&self) -> FogView {
        FogView {
            revealed: self.revealed_areas@.map_values(|a: RevealedArea| a@),
            enabled: self.is_enabled,
        }
    }
}

/// The token sequence as values.
pub open spec fn tokens_view(s: Seq<Token>) -> Seq<TokenView> {
    s.map_values(|t: Token| t@)
}

pub open spec fn opt_fog_view(o: Option<FogOfWar>) -> Option<FogView> {
    match o {
        Option::Some(f) => Option::Some(f@),
        Option::None => Option::None,
    }
}

// =========================================================================
// Deep clones with known results
// =========================================================================

fn clone_opt_string(o: &Option<String>) -> (r: Option<String>)
    ensures
        r == *o,
{
    match o {
        Option::Some(s) => Option::Some(s.clone()),
        Option::None => Option::None,
    }
}

fn clone_strings(v: &Vec<String>) -> (r: Vec<String>)
    ensures
        r@ == v@,
{
    let mut out: Vec<String> = Vec::new();
    let mut i: usize = 0;
    while i < v.len()
        invariant
            i <= v.len(),
            out@ =~= v@.subrange(0, i as int),
        decreases v.len() - i,
    {
        out.push(v[i].clone());
        i = i + 1;
    }
    assert(out@ =~= v@);
    out
}

impl Clone for Token {
    /// A deep copy that is the same token, value for value.
    fn clone(&self) -> (r: Self)
        ensures
            r@ == self@,
    {
        let r = Token {
            id: self.id.clone(),
            character_id: clone_opt_string(&self.character_id),
            name: self.name.clone(),
            image_url: clone_opt_string(&self.image_url),
            position: self.position,
            size: self.size,
            conditions: clone_strings(&self.conditions),
            notes: self.notes.clone(),
            is_hidden: self.is_hidden,
            initiative: self.initiative,
        };
        assert(r@.conditions =~= self@.conditions);
        r
    }
}

impl Clone for AreaShape {
    fn clone(&self) -> (r: Self)
        ensures
            r@ == self@,
    {
        match self {
            AreaShape::Circle => AreaShape::Circle,
            AreaShape::Square => AreaShape::Square,
            AreaShape::Polygon(ps) => {
                let mut out: Vec<Position> = Vec::new();
                let mut i: usize = 0;
                while i < ps.len()
                    invariant
                        i <= ps.len(),
                        out@ =~= ps@.subrange(0, i as int),
                    decreases ps.len() - i,
                {
                    out.push(ps[i]);
                    i = i + 1;
                }
                assert(out@ =~= ps@);
                AreaShape::Polygon(out)
            },
        }
    }
}

impl Clone for RevealedArea {
    fn clone(&self) -> (r: Self)
        ensures
            r@ == self@,
    {
        RevealedArea { x: self.x, y: self.y, radius: self.radius, shape: self.shape.clone() }
    }
}

pub fn clone_areas(v: &Vec<RevealedArea>) -> (r: Vec<RevealedArea>)
    ensures
        r@.map_values(|a: RevealedArea| a@) == v@.map_values(|a: RevealedArea| a@),
{
    let mut out: Vec<RevealedArea> = Vec::new();
    let mut i: usize = 0;
    while i < v.len()
        invariant
            i <= v.len(),
            out@.len() == i,
            forall|j: int| 0 <= j < i ==> #[trigger] out@[j]@ == v@[j]@,
        decreases v.len() - i,
    {
        out.push(v[i].clone());
        i = i + 1;
    }
    assert(out@.map_values(|a: RevealedArea| a@) =~= v@.map_values(|a: RevealedArea| a@));
    out
}

impl Clone for FogOfWar {
    fn clone(&self) -> (r: Self)
        ensures
            r@ == self@,
    {
        FogOfWar { revealed_areas: clone_areas(&self.revealed_areas), is_enabled: self.is_enabled }
    }
}

pub fn clone_tokens(v: &Vec<Token>) -> (r: Vec<Token>)
    ensures
        tokens_view(r@) == tokens_view(v@),
{
    let mut out: Vec<Token> = Vec::new();
    let mut i: usize = 0;
    while i < v.len()
        invariant
            i <= v.len(),
            out@.len() == i,
            forall|j: int| 0 <= j < i ==> #[trigger] out@[j]@ == v@[j]@,
        decreases v.len() - i,
    {
        out.push(v[i].clone());
        i = i + 1;
    }
    assert(tokens_view(out@) =~= tokens_view(v@));
    out
}

pub fn clone_opt_fog(o: &Option<FogOfWar>) -> (r: Option<FogOfWar>)
    ensures
        opt_fog_view(r) == opt_fog_view(*o),
{
    match o {
        Option::Some(f) => Option::Some(f.clone()),
        Option::None => Option::None,
    }
}

// =========================================================================
// Request values
// =========================================================================

#[derive(Debug, Clone, PartialEq)]
pub struct CreateCampaignData {
    pub name: String,
    pub description: Option<String>,
    pub dm_name: String,
    pub settings: CampaignSettings,
}

/// A sparse campaign patch: only the listed fields mutate.
#[derive(Debug, Clone, PartialEq)]
pub struct UpdateCampaignRequest {
    pub name: Option<String>,
    pub description: Option<String>,
    pub settings: Option<CampaignSettings>,
}

#[derive(Debug, Clone, PartialEq)]
pub struct CreateCharacterRequest {
    pub campaign_id: String,
    pub name: String,
    pub player_name: Option<String>,
    pub character_class: String,
    pub level: i32,
    pub race: String,
    pub background: String,
    pub stats: CharacterStats,
    pub is_npc: bool,
}

/// A sparse character patch: each block mutates independently, and a block
/// update never clobbers its sibling blocks.
#[derive(Debug, Clone, PartialEq)]
pub struct UpdateCharacterRequest {
    pub name: Option<String>,
    pub level: Option<i32>,
    pub stats: Option<CharacterStats>,
    pub combat_stats: Option<CombatStats>,
    pub equipment: Option<Equipment>,
    pub notes: Option<String>,
}

#[derive(Debug, Clone, PartialEq)]
pub struct CreateMapRequest {
    pub campaign_id: String,
    pub name: String,
    pub description: Option<String>,
    pub image_url: String,
    pub grid_size: i32,
    pub width: i32,
    pub height: i32,
}

#[derive(Debug, Clone, PartialEq)]
pub struct CreateTokenRequest {
    pub map_id: String,
    pub character_id: Option<String>,
    pub name: String,
    pub image_url: Option<String>,
    pub position: Position,
    pub size: TokenSize,
}

#[derive(Debug, Clone, PartialEq)]
pub struct UpdateTokenPositionRequest {
    pub token_id: String,
    pub position: Position,
}

// =========================================================================
// Dice
// =========================================================================

#[derive(Debug, Clone, PartialEq)]
pub struct DiceRoll {
    pub dice_notation: String,
    pub individual_rolls: Vec<i32>,
    pub modifiers: Vec<DiceModifier>,
    pub total: i32,
    pub roll_type: RollType,
}

#[derive(Debug, Clone, PartialEq)]
pub struct DiceModifier {
    pub name: String,
    pub value: i32,
    pub source: String,
}

#[derive(Debug, Clone, Copy, PartialEq, Eq, Structural)]
pub enum RollType {
    Normal,
    Advantage,
    Disadvantage,
    Critical,
}

#[derive(Debug, Clone, PartialEq)]
pub struct InitiativeRoll {
    pub character_id: String,
    pub character_name: String,
    pub roll: DiceRoll,
    pub initiative_bonus: i32,
    pub total: i32,
}

// =========================================================================
// Network and session data
// =========================================================================

/// A message between peers; the payload is an opaque serialized blob.
#[derive(Debug, Clone, PartialEq)]
pub struct NetworkMessage {
    pub id: String,
    pub sender_id: String,
    pub sender_name: String,
    pub message_type: MessageType,
    pub content: String,
    pub timestamp: i64,
}

#[derive(Debug, Clone, Copy, PartialEq, Eq, Structural)]
pub enum MessageType {
    Chat,
    DiceRoll,
    TokenUpdate,
    MapChange,
    Initiative,
    System,
}

#[derive(Debug, Clone, PartialEq)]
pub struct ChatMessage {
    pub message: String,
    pub is_whisper: bool,
    pub target_players: Option<Vec<String>>,
    pub is_in_character: bool,
}

/// The connection life cycle of a peer. `Disconnected` is terminal for one
/// connection; a reconnect starts over at `Connecting` with a fresh record
/// under the same identity.
#[derive(Debug, Clone, Copy, PartialEq, Eq, Structural)]
pub enum ConnectionState {
    Connecting,
    Joined,
    Active,
    Disconnected,
}

#[derive(Debug, Clone, PartialEq)]
pub struct PeerInfo {
    pub id: String,
    pub name: String,
    pub role: PlayerRole,
    pub state: ConnectionState,
    pub last_seen: i64,
}

impl PeerInfo {
    /// A peer counts as connected once past `Connecting` and not yet dropped.
    pub open spec fn spec_connected(&self) -> bool {
        self.state == ConnectionState::Joined || self.state == ConnectionState::Active
    }

    pub fn is_connected(&self) -> (r: bool)
        ensures
            r == self.spec_connected(),
    {
        match self.state {
            ConnectionState::Joined => true,
            ConnectionState::Active => true,
            _ => false,
        }
    }
}

#[derive(Debug, Clone, Copy, PartialEq, Eq, Structural)]
pub enum PlayerRole {
    DungeonMaster,
    Player,
    Observer,
}

// =========================================================================
// Assets
// =========================================================================

#[derive(Debug, Clone, PartialEq)]
pub struct Asset {
    pub id: String,
    pub campaign_id: Option<String>,
    pub name: String,
    pub file_path: String,
    pub asset_type: AssetType,
    pub file_size: i64,
    pub mime_type: String,
    pub tags: Vec<String>,
    pub created_at: i64,
}

#[derive(Debug, Clone, Copy, PartialEq, Eq, Structural)]
pub enum AssetType {
    MapImage,
    Token,
    Portrait,
    Handout,
    Audio,
    Other,
}

impl Default for AssetType {
    fn default() -> (r: Self)
        ensures
            r == AssetType::Other,
    {
        AssetType::Other
    }
}

} // verus!
