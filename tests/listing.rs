use pokedex_dnd::cache::Database;
use pokedex_dnd::fetch::FetchError;
use pokedex_dnd::listing::{
    plan_search, search_result_by_id, ListingPlan, SearchPlan,
    api_listing, empty_listing, has_more_after, keep_name_matches, matching_species_ids,
    resource_ids, type_listing, type_page_ids, PokeApiTypePokemon,
};
use pokedex_dnd::pokemon::{PokeApiResource, Pokemon};
use pokedex_dnd::text::{id_from_url, parse_u32};

fn species(name: &str, id: u32) -> PokeApiResource {
    PokeApiResource {
        name: name.to_string(),
        url: format!("https://pokeapi.co/api/v2/pokemon-species/{}/", id),
    }
}

#[test]
fn numbers_parse_like_std() {
    assert_eq!(parse_u32("25"), Some(25));
    assert_eq!(parse_u32("+7"), Some(7));
    assert_eq!(parse_u32("007"), Some(7));
    assert_eq!(parse_u32("4294967295"), Some(u32::MAX));
    assert_eq!(parse_u32("4294967296"), None);
    assert_eq!(parse_u32(""), None);
    assert_eq!(parse_u32("+"), None);
    assert_eq!(parse_u32("-1"), None);
    assert_eq!(parse_u32("pikachu"), None);
    assert_eq!(parse_u32("12a"), None);
    for s in ["0", "1", "151", "99999", "+0"] {
        assert_eq!(parse_u32(s), s.parse::<u32>().ok());
    }
}

#[test]
fn ids_come_from_link_ends() {
    assert_eq!(id_from_url("https://pokeapi.co/api/v2/pokemon-species/25/"), Some(25));
    assert_eq!(id_from_url("https://pokeapi.co/api/v2/pokemon/6"), None);
    assert_eq!(id_from_url("25/"), Some(25));
    assert_eq!(id_from_url("no-slash"), None);
    assert_eq!(id_from_url("a/b/"), None);
}

#[test]
fn resource_links_to_ids() {
    let list = vec![species("a", 1), PokeApiResource { name: "b".to_string(), url: "x".to_string() }, species("c", 3)];
    assert_eq!(resource_ids(&list), vec![1, 3]);
}

#[test]
fn species_search_ignores_case_and_caps_results() {
    let list = vec![species("Pikachu", 25), species("raichu", 26), species("pichu", 172), species("eevee", 133)];
    assert_eq!(matching_species_ids(&list, "CHU"), vec![25, 26, 172]);
    assert_eq!(matching_species_ids(&list, "zzz"), Vec::<u32>::new());
    let many: Vec<PokeApiResource> = (1..=30).map(|i| species("mon", i)).collect();
    assert_eq!(matching_species_ids(&many, "mon"), (1..=20).collect::<Vec<u32>>());
}

#[test]
fn type_pages_skip_and_take() {
    let entries: Vec<PokeApiTypePokemon> =
        (1..=6).map(|i| PokeApiTypePokemon { pokemon: species("m", i * 10), slot: 1 }).collect();
    assert_eq!(type_page_ids(&entries, 2, 3), vec![30, 40, 50]);
    assert_eq!(type_page_ids(&entries, 5, 3), vec![60]);
    assert_eq!(type_page_ids(&entries, 9, 3), Vec::<u32>::new());
    assert_eq!(type_page_ids(&entries, 0, 0), Vec::<u32>::new());
}

#[test]
fn fetched_records_filtered_by_name() {
    let list = vec![
        Pokemon::new(4, "charmander".to_string()),
        Pokemon::new(7, "squirtle".to_string()),
        Pokemon::new(5, "Charmeleon".to_string()),
    ];
    let kept = keep_name_matches(list, &Some("CHARM".to_string()));
    assert_eq!(kept.iter().map(|p| p.id).collect::<Vec<u32>>(), vec![4, 5]);
    let all = keep_name_matches(vec![Pokemon::new(1, "a".to_string())], &None);
    assert_eq!(all.len(), 1);
}

#[test]
fn listings_report_more() {
    assert!(has_more_after(0, 20, 21));
    assert!(!has_more_after(0, 20, 20));
    assert!(has_more_after(u32::MAX, 1, u64::MAX));
    let l = api_listing(vec![Pokemon::new(1, "a".to_string())], 1302, 0, 20);
    assert_eq!(l.total_count, 1302);
    assert!(l.has_more);
    let t = type_listing(vec![Pokemon::new(1, "a".to_string()), Pokemon::new(2, "b".to_string())]);
    assert_eq!(t.total_count, 2);
    assert!(!t.has_more);
    let e = empty_listing();
    assert!(e.pokemon.is_empty() && e.total_count == 0 && !e.has_more);
}

#[test]
fn cached_listing_pages_and_counts() {
    let mut db = Database::new();
    for id in 1..=5u32 {
        let mut p = Pokemon::new(id, format!("mon{}", id));
        p.types = vec![pokedex_dnd::pokemon::PokemonType {
            name: if id % 2 == 0 { "fire".to_string() } else { "water".to_string() },
            slot: 1,
        }];
        db.cache_pokemon(&p, 100);
    }
    let l = db.cached_listing(0, 2, None, None).unwrap();
    assert_eq!(l.pokemon.iter().map(|p| p.id).collect::<Vec<u32>>(), vec![1, 2]);
    assert_eq!(l.total_count, 5);
    assert!(l.has_more);
    let f = db.cached_listing(0, 10, Some("fire".to_string()), None).unwrap();
    assert_eq!(f.total_count, 2);
    assert!(!f.has_more);
    assert!(db.cached_listing(10, 10, None, None).is_none());
    match db.plan_listing(0, 2, None, None) {
        ListingPlan::Cached(l) => assert_eq!(l.total_count, 5),
        other => panic!("{:?}", other),
    }
    match db.plan_listing(10, 10, Some("fire".to_string()), None) {
        ListingPlan::FetchType(t) => assert_eq!(t, "fire"),
        other => panic!("{:?}", other),
    }
    assert!(matches!(db.plan_listing(10, 10, None, Some("x".to_string())), ListingPlan::FetchGeneral));
    assert!(matches!(db.plan_listing_unfiltered_fallback(10, 10, None, None), ListingPlan::FetchGeneral));
    assert!(matches!(
        db.plan_listing_unfiltered_fallback(10, 10, Some("fire".to_string()), None),
        ListingPlan::Empty
    ));
    assert!(matches!(
        db.plan_listing_unfiltered_fallback(0, 10, None, Some("mon".to_string())),
        ListingPlan::Cached(_)
    ));
    let stats = db.get_cache_stats(42);
    assert_eq!(stats.cached_pokemon_count, 5);
    assert_eq!(stats.last_updated, 42);
}

#[test]
fn search_plans() {
    assert_eq!(plan_search("25"), SearchPlan::ById(25));
    assert_eq!(plan_search("+4"), SearchPlan::ById(4));
    assert_eq!(plan_search("pika"), SearchPlan::ByName);
    assert_eq!(plan_search(""), SearchPlan::ByName);
    let found = search_result_by_id(Ok(Pokemon::new(25, "pikachu".to_string())));
    assert_eq!(found, vec![Pokemon::new(25, "pikachu".to_string())]);
    assert!(search_result_by_id(Err(FetchError::Status(404))).is_empty());
}
