use pokedex_dnd::converter::{
    ability_modifier, calculate_armor_class, calculate_challenge_rating, calculate_hit_points,
    calculate_speed, convert_base_stats_to_abilities, convert_types_to_resistances,
    convert_types_to_vulnerabilities, scale_stat, DamageType, DnDStatBlock, UNIT_SCALE,
};
use pokedex_dnd::pokemon::{BaseStats, Pokemon, PokemonType};

fn stats(hp: u32, attack: u32, defense: u32, sp_atk: u32, sp_def: u32, speed: u32) -> BaseStats {
    BaseStats {
        hp,
        attack,
        defense,
        special_attack: sp_atk,
        special_defense: sp_def,
        speed,
    }
}

fn tag(name: &str, slot: u32) -> PokemonType {
    PokemonType { name: name.to_string(), slot }
}

#[test]
fn scale_stat_at_unit_factor() {
    assert_eq!(scale_stat(100, UNIT_SCALE), 16);
}

#[test]
fn scale_stat_stays_in_range() {
    assert_eq!(scale_stat(0, 0), 8);
    assert_eq!(scale_stat(0, 255), 8);
    assert_eq!(scale_stat(255, 255), 20);
    assert_eq!(scale_stat(u32::MAX, u32::MAX), 20);
    for base in [0u32, 1, 45, 100, 150, 255, 1000] {
        for scale in [0u32, 1, 25, 50, 100, 255] {
            let s = scale_stat(base, scale);
            assert!((8..=20).contains(&s));
        }
    }
}

#[test]
fn scale_stat_truncates() {
    // 624 * 1 / 625 is just below one step.
    assert_eq!(scale_stat(624, 1), 8);
    assert_eq!(scale_stat(625, 1), 9);
    assert_eq!(scale_stat(150, 50), 20);
}

#[test]
fn modifier_rounds_toward_zero() {
    assert_eq!(ability_modifier(8), -1);
    assert_eq!(ability_modifier(9), 0);
    assert_eq!(ability_modifier(10), 0);
    assert_eq!(ability_modifier(11), 0);
    assert_eq!(ability_modifier(13), 1);
    assert_eq!(ability_modifier(20), 5);
}

#[test]
fn hit_points_at_least_one() {
    let zero = stats(0, 0, 0, 0, 0, 0);
    assert_eq!(calculate_hit_points(&zero, 0), 1);
    assert_eq!(calculate_hit_points(&zero, 1), 7);
    for level in 1..=255u8 {
        assert!(calculate_hit_points(&zero, level) >= 1);
    }
    let strong = stats(255, 0, 0, 0, 0, 0);
    assert_eq!(calculate_hit_points(&strong, 100), 100 * 8 + 5 * 100);
}

#[test]
fn armor_class_floor_with_zero_stats() {
    let zero = stats(0, 0, 0, 0, 0, 0);
    assert_eq!(calculate_armor_class(&zero), 10);
    let quick = stats(0, 0, 200, 0, 0, 150);
    // dexterity 20 gives +5, natural armor is capped at 5
    assert_eq!(calculate_armor_class(&quick), 20);
}

#[test]
fn speed_bonus_is_capped() {
    assert_eq!(calculate_speed(&stats(0, 0, 0, 0, 0, 45)), 34);
    assert_eq!(calculate_speed(&stats(0, 0, 0, 0, 0, 500)), 50);
}

#[test]
fn challenge_rating_of_a_starter() {
    let s = stats(45, 49, 49, 65, 65, 45);
    assert_eq!(calculate_challenge_rating(&s, 50), 2);
}

#[test]
fn challenge_rating_rounds_half_up() {
    // total 375 at level 50: 375 / 600 = 0.625, exactly between 0.5 and 0.75
    let s = stats(375, 0, 0, 0, 0, 0);
    assert_eq!(calculate_challenge_rating(&s, 50), 3);
    assert_eq!(calculate_challenge_rating(&s, 0), 0);
}

#[test]
fn abilities_of_a_starter() {
    let a = convert_base_stats_to_abilities(&stats(45, 49, 49, 65, 65, 45), 50);
    assert_eq!(a.strength, 11);
    assert_eq!(a.dexterity, 11);
    assert_eq!(a.constitution, 11);
    assert_eq!(a.intelligence, 13);
    assert_eq!(a.wisdom, 13);
    assert_eq!(a.charisma, 12);
}

#[test]
fn resistances_follow_tag_table() {
    let types = vec![tag("fire", 1), tag("steel", 2), tag("dragon", 3)];
    assert_eq!(
        convert_types_to_resistances(&types),
        vec![DamageType::Fire, DamageType::Steel, DamageType::Poison]
    );
    assert_eq!(convert_types_to_vulnerabilities(&types), vec![DamageType::Water]);
    let more = vec![tag("ice", 1), tag("grass", 2), tag("water", 3)];
    assert_eq!(convert_types_to_resistances(&more), vec![DamageType::Grass, DamageType::Water]);
    assert_eq!(
        convert_types_to_vulnerabilities(&more),
        vec![DamageType::Fire, DamageType::Fire, DamageType::Electric]
    );
    assert!(convert_types_to_resistances(&[]).is_empty());
}

#[test]
fn stat_block_of_a_starter() {
    let mut p = Pokemon::new(1, "bulbasaur".to_string());
    p.base_stats = stats(45, 49, 49, 65, 65, 45);
    p.types = vec![tag("grass", 1), tag("poison", 2)];
    let block = DnDStatBlock::from_pokemon(&p, 50);
    assert_eq!(block.challenge_rating_quarters, 2);
    assert_eq!(block.hit_points, 400);
    assert_eq!(block.armor_class, 12);
    assert_eq!(block.speed, 34);
    assert_eq!(block.ability_scores.charisma, 12);
    assert_eq!(block.resistances, vec![DamageType::Grass]);
    assert_eq!(block.vulnerabilities, vec![DamageType::Fire]);
    assert!(block.skills.is_empty());
    assert!(block.actions.is_empty());
}
