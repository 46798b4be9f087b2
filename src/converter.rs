use vstd::prelude::*;
use crate::pokemon::{BaseStats, Pokemon, PokemonType};
use crate::text::same_text;

verus! {

/// A tabletop stat block derived from a record and a level.
#[derive(Debug)]
pub struct DnDStatBlock {
    pub ability_scores: AbilityScores,
    pub armor_class: u8,
    pub hit_points: u32,
    pub speed: u32,
    pub skills: Vec<Skill>,
    pub resistances: Vec<DamageType>,
    pub vulnerabilities: Vec<DamageType>,
    pub actions: Vec<Action>,
    /// The challenge rating in quarter points: 2 stands for a rating of 0.5.
    pub challenge_rating_quarters: u32,
}

/// The six ability scores of a stat block.
#[derive(Debug, Clone, Copy, PartialEq, Eq)]
pub struct AbilityScores {
    pub strength: u8,
    pub dexterity: u8,
    pub constitution: u8,
    pub intelligence: u8,
    pub wisdom: u8,
    pub charisma: u8,
}

/// A skill of a stat block.
#[derive(Debug, Clone, PartialEq, Eq)]
pub struct Skill {
    pub name: String,
    pub modifier: i8,
    pub proficient: bool,
}

/// The closed set of damage types.
#[derive(Debug, Clone, Copy, PartialEq, Eq)]
pub enum DamageType {
    Fire,
    Water,
    Grass,
    Electric,
    Psychic,
    Ice,
    Dragon,
    Dark,
    Fighting,
    Poison,
    Ground,
    Flying,
    Bug,
    Rock,
    /// The ghost damage type.
    Spectral,
    Steel,
    Fairy,
    Normal,
}

/// An action of a stat block.
#[derive(Debug, Clone, PartialEq, Eq)]
pub struct Action {
    pub name: String,
    pub description: String,
    pub attack_bonus: Option<i8>,
    pub damage_dice: Option<String>,
    pub damage_type: Option<DamageType>,
    pub range: Option<String>,
    pub recharge: Option<String>,
}

/// The scale factor, in fiftieths, that stands for a factor of 1.
pub const UNIT_SCALE: u32 = 50;

/// `base * (scale / 50) * 0.08 + 8`, truncated toward zero and held to
/// [8, 20]; `scale` is the scale factor in fiftieths.
pub open spec fn scaled_score(base: int, scale: int) -> int {
    let raw = 8 + (base * scale) / 625;
    if raw > 20 {
        20
    } else if raw < 8 {
        8
    } else {
        raw
    }
}

/// `x / 2` rounded toward zero.
pub open spec fn half_toward_zero(x: int) -> int {
    if x >= 0 {
        x / 2
    } else {
        -((-x) / 2)
    }
}

/// The modifier of an ability score: `(score - 10) / 2`, rounded toward zero.
pub open spec fn modifier_of(score: int) -> int {
    half_toward_zero(score - 10)
}

/// The six scores, each scaled at `level / 50`; charisma from the mean of
/// attack and special attack, halved before scaling.
pub open spec fn abilities_spec(stats: BaseStats, level: int) -> AbilityScores {
    AbilityScores {
        strength: scaled_score(stats.attack as int, level) as u8,
        dexterity: scaled_score(stats.speed as int, level) as u8,
        constitution: scaled_score(stats.hp as int, level) as u8,
        intelligence: scaled_score(stats.special_attack as int, level) as u8,
        wisdom: scaled_score(stats.special_defense as int, level) as u8,
        charisma: scaled_score((stats.attack as int + stats.special_attack as int) / 2, level) as u8,
    }
}

/// `max(1, level * 8 + con_modifier * level)`.
pub open spec fn hit_points_spec(stats: BaseStats, level: int) -> int {
    let con = modifier_of(scaled_score(stats.hp as int, level));
    let total = level * 8 + con * level;
    if total < 1 {
        1
    } else {
        total
    }
}

/// `max(10, 10 + dex_modifier + min(5, defense / 20))`, the dexterity taken
/// at a scale of 1.
pub open spec fn armor_class_spec(stats: BaseStats) -> int {
    let dex = modifier_of(scaled_score(stats.speed as int, UNIT_SCALE as int));
    let natural = if stats.defense / 20 < 5 {
        stats.defense / 20
    } else {
        5
    };
    let total = 10 + dex + natural;
    if total < 10 {
        10
    } else {
        total
    }
}

/// `30 + min(20, speed / 10)`.
pub open spec fn speed_spec(stats: BaseStats) -> int {
    30 + if stats.speed / 10 < 20 {
        stats.speed / 10
    } else {
        20
    }
}

/// The sum of the six base stats.
pub open spec fn stat_total(stats: BaseStats) -> int {
    stats.hp + stats.attack + stats.defense + stats.special_attack + stats.special_defense
        + stats.speed
}

/// `(total / 600) * (level / 50)` rounded half up to a quarter, counted in
/// quarters: `floor(total * level / 7500 + 1/2)`.
pub open spec fn challenge_quarters_spec(stats: BaseStats, level: int) -> int {
    (2 * stat_total(stats) * level + 7500) / 15000
}

/// The resistances that one elemental tag grants.
pub open spec fn tag_resistances(name: Seq<char>) -> Seq<DamageType> {
    if name == seq!['f', 'i', 'r', 'e'] {
        seq![DamageType::Fire]
    } else if name == seq!['w', 'a', 't', 'e', 'r'] {
        seq![DamageType::Water]
    } else if name == seq!['g', 'r', 'a', 's', 's'] {
        seq![DamageType::Grass]
    } else if name == seq!['e', 'l', 'e', 'c', 't', 'r', 'i', 'c'] {
        seq![DamageType::Electric]
    } else if name == seq!['s', 't', 'e', 'e', 'l'] {
        seq![DamageType::Steel, DamageType::Poison]
    } else {
        Seq::empty()
    }
}

/// The vulnerabilities that one elemental tag brings.
pub open spec fn tag_vulnerabilities(name: Seq<char>) -> Seq<DamageType> {
    if name == seq!['f', 'i', 'r', 'e'] {
        seq![DamageType::Water]
    } else if name == seq!['w', 'a', 't', 'e', 'r'] {
        seq![DamageType::Electric]
    } else if name == seq!['g', 'r', 'a', 's', 's'] {
        seq![DamageType::Fire]
    } else if name == seq!['i', 'c', 'e'] {
        seq![DamageType::Fire]
    } else {
        Seq::empty()
    }
}

/// The resistances of all tags, in tag order.
pub open spec fn resistances_spec(types: Seq<PokemonType>) -> Seq<DamageType>
    decreases types.len(),
{
    if types.len() == 0 {
        Seq::empty()
    } else {
        resistances_spec(types.drop_last()) + tag_resistances(types.last().name@)
    }
}

/// The vulnerabilities of all tags, in tag order.
pub open spec fn vulnerabilities_spec(types: Seq<PokemonType>) -> Seq<DamageType>
    decreases types.len(),
{
    if types.len() == 0 {
        Seq::empty()
    } else {
        vulnerabilities_spec(types.drop_last()) + tag_vulnerabilities(types.last().name@)
    }
}

/// Scales a base stat to an ability score; `scale_factor` is the factor in
/// fiftieths (50 stands for 1.0).
pub fn scale_stat(base_stat: u32, scale_factor: u32) -> (r: u8)
    ensures
        r as int == scaled_score(base_stat as int, scale_factor as int),
        8 <= r <= 20,
{
    assert((base_stat as int) * (scale_factor as int) <= u64::MAX) by (nonlinear_arith)
        requires
            base_stat <= u32::MAX,
            scale_factor <= u32::MAX,
    ;
    assert(0 <= (base_stat as int) * (scale_factor as int)) by (nonlinear_arith);
    let product: u64 = (base_stat as u64) * (scale_factor as u64);
    let bonus: u64 = product / 625;
    if bonus >= 12 {
        20
    } else {
        (8 + bonus) as u8
    }
}

/// The modifier of an ability score, `(score - 10) / 2` rounded toward zero.
pub fn ability_modifier(score: u8) -> (r: i8)
    ensures
        r as int == modifier_of(score as int),
{
    let diff: i16 = score as i16 - 10;
    if diff >= 0 {
        (diff / 2) as i8
    } else {
        (-((-diff) / 2)) as i8
    }
}

/// The six ability scores of a record at a level.
pub fn convert_base_stats_to_abilities(stats: &BaseStats, level: u8) -> (r: AbilityScores)
    ensures
        r == abilities_spec(*stats, level as int),
{
    let scale = level as u32;
    AbilityScores {
        strength: scale_stat(stats.attack, scale),
        dexterity: scale_stat(stats.speed, scale),
        constitution: scale_stat(stats.hp, scale),
        intelligence: scale_stat(stats.special_attack, scale),
        wisdom: scale_stat(stats.special_defense, scale),
        charisma: scale_stat(((stats.attack as u64 + stats.special_attack as u64) / 2) as u32, scale),
    }
}

/// Hit points at a level: `max(1, level * 8 + con_modifier * level)`.
pub fn calculate_hit_points(stats: &BaseStats, level: u8) -> (r: u32)
    ensures
        r as int == hit_points_spec(*stats, level as int),
        r >= 1,
{
    let con_modifier = ability_modifier(scale_stat(stats.hp, level as u32)) as i32;
    assert(-1 <= con_modifier <= 5);
    let lv = level as i32;
    assert(-255 <= con_modifier * lv <= 1275) by (nonlinear_arith)
        requires
            -1 <= con_modifier <= 5,
            0 <= lv <= 255,
    ;
    let base_hp: i32 = lv * 8;
    let total: i32 = base_hp + con_modifier * lv;
    if total < 1 {
        1
    } else {
        total as u32
    }
}

/// Armor class: `max(10, 10 + dex_modifier + min(5, defense / 20))`.
pub fn calculate_armor_class(stats: &BaseStats) -> (r: u8)
    ensures
        r as int == armor_class_spec(*stats),
        r >= 10,
{
    let dex_modifier = ability_modifier(scale_stat(stats.speed, UNIT_SCALE)) as i16;
    let natural_armor: i16 = if stats.defense / 20 < 5 {
        (stats.defense / 20) as i16
    } else {
        5
    };
    let total: i16 = 10 + dex_modifier + natural_armor;
    if total < 10 {
        10
    } else {
        total as u8
    }
}

/// Walking speed: `30 + min(20, speed / 10)`.
pub fn calculate_speed(stats: &BaseStats) -> (r: u32)
    ensures
        r as int == speed_spec(*stats),
        30 <= r <= 50,
{
    let bonus = if stats.speed / 10 < 20 {
        stats.speed / 10
    } else {
        20
    };
    30 + bonus
}

/// The challenge rating at a level, in quarter points.
pub fn calculate_challenge_rating(stats: &BaseStats, level: u8) -> (r: u32)
    ensures
        r as int == challenge_quarters_spec(*stats, level as int),
{
    let total: u64 = stats.hp as u64 + stats.attack as u64 + stats.defense as u64
        + stats.special_attack as u64 + stats.special_defense as u64 + stats.speed as u64;
    assert(2 * total * (level as int) + 7500 <= 2 * 6 * 0xffff_ffffu64 * 255 + 7500) by (nonlinear_arith)
        requires
            total <= 6 * 0xffff_ffffu64,
            level <= 255,
    ;
    let doubled: u64 = 2 * total * level as u64 + 7500;
    assert(doubled / 15000 <= u32::MAX) by (nonlinear_arith)
        requires
            doubled <= 2 * 6 * 0xffff_ffffu64 * 255 + 7500,
    ;
    (doubled / 15000) as u32
}

/// Pushes the damage types of `add` onto `out`.
fn push_all(out: &mut Vec<DamageType>, add: &[DamageType])
    ensures
        final(out)@ == old(out)@ + add@,
{
    let mut i: usize = 0;
    while i < add.len()
        invariant
            i <= add.len(),
            out@ == old(out)@ + add@.subrange(0, i as int),
        decreases add.len() - i,
    {
        out.push(add[i]);
        assert(add@.subrange(0, i + 1) =~= add@.subrange(0, i as int).push(add@[i as int]));
        i = i + 1;
    }
    assert(add@.subrange(0, i as int) =~= add@);
}

/// The resistances that one elemental tag grants.
fn resistances_of_tag(name: &str) -> (r: Vec<DamageType>)
    ensures
        r@ == tag_resistances(name@),
{
    proof {
        reveal_strlit("fire");
        reveal_strlit("water");
        reveal_strlit("grass");
        reveal_strlit("electric");
        reveal_strlit("steel");
    }
    assert("fire"@ =~= seq!['f', 'i', 'r', 'e']);
    assert("water"@ =~= seq!['w', 'a', 't', 'e', 'r']);
    assert("grass"@ =~= seq!['g', 'r', 'a', 's', 's']);
    assert("electric"@ =~= seq!['e', 'l', 'e', 'c', 't', 'r', 'i', 'c']);
    assert("steel"@ =~= seq!['s', 't', 'e', 'e', 'l']);
    let r = if same_text(name, "fire") {
        vec![DamageType::Fire]
    } else if same_text(name, "water") {
        vec![DamageType::Water]
    } else if same_text(name, "grass") {
        vec![DamageType::Grass]
    } else if same_text(name, "electric") {
        vec![DamageType::Electric]
    } else if same_text(name, "steel") {
        vec![DamageType::Steel, DamageType::Poison]
    } else {
        Vec::new()
    };
    assert(r@ =~= tag_resistances(name@));
    r
}

/// The vulnerabilities that one elemental tag brings.
fn vulnerabilities_of_tag(name: &str) -> (r: Vec<DamageType>)
    ensures
        r@ == tag_vulnerabilities(name@),
{
    proof {
        reveal_strlit("fire");
        reveal_strlit("water");
        reveal_strlit("grass");
        reveal_strlit("ice");
    }
    assert("fire"@ =~= seq!['f', 'i', 'r', 'e']);
    assert("water"@ =~= seq!['w', 'a', 't', 'e', 'r']);
    assert("grass"@ =~= seq!['g', 'r', 'a', 's', 's']);
    assert("ice"@ =~= seq!['i', 'c', 'e']);
    let r = if same_text(name, "fire") {
        vec![DamageType::Water]
    } else if same_text(name, "water") {
        vec![DamageType::Electric]
    } else if same_text(name, "grass") {
        vec![DamageType::Fire]
    } else if same_text(name, "ice") {
        vec![DamageType::Fire]
    } else {
        Vec::new()
    };
    assert(r@ =~= tag_vulnerabilities(name@));
    r
}

/// The resistances of a list of tags, tag by tag; unmapped tags add nothing.
pub fn convert_types_to_resistances(types: &[PokemonType]) -> (r: Vec<DamageType>)
    ensures
        r@ == resistances_spec(types@),
{
    let mut resistances: Vec<DamageType> = Vec::new();
    let mut i: usize = 0;
    while i < types.len()
        invariant
            i <= types.len(),
            resistances@ == resistances_spec(types@.subrange(0, i as int)),
        decreases types.len() - i,
    {
        let add = resistances_of_tag(types[i].name.as_str());
        push_all(&mut resistances, add.as_slice());
        assert(types@.subrange(0, i + 1).drop_last() =~= types@.subrange(0, i as int));
        i = i + 1;
    }
    assert(types@.subrange(0, i as int) =~= types@);
    resistances
}

/// The vulnerabilities of a list of tags, tag by tag; unmapped tags add
/// nothing.
pub fn convert_types_to_vulnerabilities(types: &[PokemonType]) -> (r: Vec<DamageType>)
    ensures
        r@ == vulnerabilities_spec(types@),
{
    let mut vulnerabilities: Vec<DamageType> = Vec::new();
    let mut i: usize = 0;
    while i < types.len()
        invariant
            i <= types.len(),
            vulnerabilities@ == vulnerabilities_spec(types@.subrange(0, i as int)),
        decreases types.len() - i,
    {
        let add = vulnerabilities_of_tag(types[i].name.as_str());
        push_all(&mut vulnerabilities, add.as_slice());
        assert(types@.subrange(0, i + 1).drop_last() =~= types@.subrange(0, i as int));
        i = i + 1;
    }
    assert(types@.subrange(0, i as int) =~= types@);
    vulnerabilities
}

impl DnDStatBlock {
    /// Derives the stat block of a record at a level; skills and actions
    /// are left empty.
    pub fn from_pokemon(pokemon: &Pokemon, level: u8) -> (r: Self)
        ensures
            r.ability_scores == abilities_spec(pokemon.base_stats, level as int),
            r.armor_class as int == armor_class_spec(pokemon.base_stats),
            r.hit_points as int == hit_points_spec(pokemon.base_stats, level as int),
            r.speed as int == speed_spec(pokemon.base_stats),
            r.skills@.len() == 0,
            r.resistances@ == resistances_spec(pokemon.types@),
            r.vulnerabilities@ == vulnerabilities_spec(pokemon.types@),
            r.actions@.len() == 0,
            r.challenge_rating_quarters as int == challenge_quarters_spec(
                pokemon.base_stats,
                level as int,
            ),
    {
        DnDStatBlock {
            ability_scores: convert_base_stats_to_abilities(&pokemon.base_stats, level),
            armor_class: calculate_armor_class(&pokemon.base_stats),
            hit_points: calculate_hit_points(&pokemon.base_stats, level),
            speed: calculate_speed(&pokemon.base_stats),
            skills: Vec::new(),
            resistances: convert_types_to_resistances(pokemon.types.as_slice()),
            vulnerabilities: convert_types_to_vulnerabilities(pokemon.types.as_slice()),
            actions: Vec::new(),
            challenge_rating_quarters: calculate_challenge_rating(&pokemon.base_stats, level),
        }
    }
}

} // verus!
