use pokedex_dnd::pokemon::{
    BaseStats, PokeApiAbilityEntry, PokeApiMoveEntry, PokeApiPokemonResponse, PokeApiResource,
    PokeApiSprites, PokeApiStat, PokeApiTypeSlot, Pokemon, Sprites,
};

fn res(name: &str) -> PokeApiResource {
    PokeApiResource { name: name.to_string(), url: format!("https://example.test/{}/", name) }
}

fn stat(name: &str, value: u32) -> PokeApiStat {
    PokeApiStat { base_stat: value, effort: 0, stat: res(name) }
}

fn response(moves: usize) -> PokeApiPokemonResponse {
    PokeApiPokemonResponse {
        id: 25,
        name: "pikachu".to_string(),
        height: 4,
        weight: 60,
        stats: vec![stat("hp", 35), stat("attack", 55), stat("hp", 99), stat("speed", 90)],
        types: vec![PokeApiTypeSlot { slot: 1, type_info: res("electric") }],
        moves: (0..moves)
            .map(|i| PokeApiMoveEntry {
                move_info: res(&format!("move-{}", i)),
                version_group_details: vec![],
            })
            .collect(),
        abilities: vec![
            PokeApiAbilityEntry { is_hidden: false, slot: 1, ability: res("static") },
            PokeApiAbilityEntry { is_hidden: true, slot: 3, ability: res("lightning-rod") },
        ],
        sprites: PokeApiSprites {
            front_default: Some("front.png".to_string()),
            front_shiny: None,
            back_default: Some("back.png".to_string()),
            back_shiny: None,
            other: None,
        },
        species: res("pikachu"),
    }
}

#[test]
fn new_record_has_defaults() {
    let p = Pokemon::new(7, "squirtle".to_string());
    assert_eq!(p.id, 7);
    assert_eq!(p.name, "squirtle");
    assert_eq!(p.base_stats, BaseStats::default());
    assert_eq!(p.base_stats.hp, 0);
    assert!(p.types.is_empty() && p.moves.is_empty() && p.abilities.is_empty());
    assert_eq!(p.sprites, Sprites::default());
    assert_eq!(p.sprites.front_default, None);
}

#[test]
fn normalizer_takes_first_stat_and_defaults_missing() {
    let p = Pokemon::from_pokeapi_response(response(3));
    assert_eq!(p.id, 25);
    assert_eq!(p.name, "pikachu");
    assert_eq!(p.base_stats.hp, 35);
    assert_eq!(p.base_stats.attack, 55);
    assert_eq!(p.base_stats.defense, 0);
    assert_eq!(p.base_stats.special_attack, 0);
    assert_eq!(p.base_stats.special_defense, 0);
    assert_eq!(p.base_stats.speed, 90);
}

#[test]
fn normalizer_maps_types_abilities_and_images() {
    let p = Pokemon::from_pokeapi_response(response(3));
    assert_eq!(p.types.len(), 1);
    assert_eq!(p.types[0].name, "electric");
    assert_eq!(p.types[0].slot, 1);
    assert_eq!(p.abilities.len(), 2);
    assert_eq!(p.abilities[1].name, "lightning-rod");
    assert!(p.abilities[1].is_hidden);
    assert_eq!(p.abilities[1].slot, 3);
    assert_eq!(p.sprites.front_default.as_deref(), Some("front.png"));
    assert_eq!(p.sprites.back_default.as_deref(), Some("back.png"));
    assert_eq!(p.sprites.front_shiny, None);
}

#[test]
fn normalizer_keeps_first_ten_moves() {
    let p = Pokemon::from_pokeapi_response(response(12));
    assert_eq!(p.moves.len(), 10);
    assert_eq!(p.moves[0].name, "move-0");
    assert_eq!(p.moves[9].name, "move-9");
    assert_eq!(p.moves[3].move_type, "normal");
    assert_eq!(p.moves[3].damage_class, "physical");
    assert_eq!(p.moves[3].pp, 0);
    assert_eq!(p.moves[3].power, None);
    let few = Pokemon::from_pokeapi_response(response(2));
    assert_eq!(few.moves.len(), 2);
}
