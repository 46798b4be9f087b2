use pokedex_dnd::converter::{AbilityScores, DamageType, DnDStatBlock};
use pokedex_dnd::export::{decimal_text, format_stat_block_as_text, parse_export_format, ExportFormat};
use pokedex_dnd::pokemon::{Pokemon, PokemonType};

fn expected(b: &DnDStatBlock) -> String {
    let a = &b.ability_scores;
    let m = |s: u8| (s as i8 - 10) / 2;
    format!(
        r#"
=== D&D 5e Stat Block ===

Ability Scores:
STR: {} ({:+})  DEX: {} ({:+})  CON: {} ({:+})
INT: {} ({:+})  WIS: {} ({:+})  CHA: {} ({:+})

Armor Class: {}
Hit Points: {}
Speed: {} ft.
Challenge Rating: {}

Damage Resistances: {}
Damage Vulnerabilities: {}

Actions: {} actions available
"#,
        a.strength,
        m(a.strength),
        a.dexterity,
        m(a.dexterity),
        a.constitution,
        m(a.constitution),
        a.intelligence,
        m(a.intelligence),
        a.wisdom,
        m(a.wisdom),
        a.charisma,
        m(a.charisma),
        b.armor_class,
        b.hit_points,
        b.speed,
        b.challenge_rating_quarters as f32 / 4.0,
        if b.resistances.is_empty() { "None".to_string() } else { format!("{} types", b.resistances.len()) },
        if b.vulnerabilities.is_empty() { "None".to_string() } else { format!("{} types", b.vulnerabilities.len()) },
        b.actions.len()
    )
}

fn block(scores: [u8; 6], quarters: u32, res: usize) -> DnDStatBlock {
    DnDStatBlock {
        ability_scores: AbilityScores {
            strength: scores[0],
            dexterity: scores[1],
            constitution: scores[2],
            intelligence: scores[3],
            wisdom: scores[4],
            charisma: scores[5],
        },
        armor_class: 14,
        hit_points: 1234,
        speed: 45,
        skills: vec![],
        resistances: vec![DamageType::Fire; res],
        vulnerabilities: vec![],
        actions: vec![],
        challenge_rating_quarters: quarters,
    }
}

#[test]
fn decimal_forms() {
    assert_eq!(decimal_text(0), "0");
    assert_eq!(decimal_text(7), "7");
    assert_eq!(decimal_text(10), "10");
    assert_eq!(decimal_text(1302), "1302");
    assert_eq!(decimal_text(u64::MAX), u64::MAX.to_string());
}

#[test]
fn text_matches_template() {
    for (scores, q, res) in [
        ([8, 9, 10, 11, 19, 20], 0u32, 0usize),
        ([12, 13, 14, 15, 16, 17], 1, 1),
        ([8, 8, 8, 8, 8, 8], 2, 3),
        ([20, 20, 20, 20, 20, 20], 3, 0),
        ([10, 10, 10, 10, 10, 10], 9, 2),
    ] {
        let b = block(scores, q, res);
        assert_eq!(format_stat_block_as_text(&b), expected(&b));
    }
}

#[test]
fn text_of_a_converted_record() {
    let mut p = Pokemon::new(6, "charizard".to_string());
    p.base_stats.hp = 78;
    p.base_stats.attack = 84;
    p.base_stats.defense = 78;
    p.base_stats.special_attack = 109;
    p.base_stats.special_defense = 85;
    p.base_stats.speed = 100;
    p.types = vec![PokemonType { name: "fire".to_string(), slot: 1 }, PokemonType { name: "flying".to_string(), slot: 2 }];
    let b = DnDStatBlock::from_pokemon(&p, 36);
    let text = format_stat_block_as_text(&b);
    assert_eq!(text, expected(&b));
    assert!(text.contains("Damage Resistances: 1 types"));
    assert!(text.contains("Damage Vulnerabilities: 1 types"));
    assert!(text.contains("Actions: 0 actions available"));
}

#[test]
fn export_formats() {
    assert_eq!(parse_export_format("json"), Ok(ExportFormat::Json));
    assert_eq!(parse_export_format("text"), Ok(ExportFormat::Text));
    assert_eq!(parse_export_format("xml"), Err("Unsupported format".to_string()));
    assert_eq!(parse_export_format("JSON"), Err("Unsupported format".to_string()));
}
