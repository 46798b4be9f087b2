use pokedex_dnd::cache::Database;
use pokedex_dnd::pokemon::{Pokemon, PokemonType};

fn record(id: u32, name: &str, types: &[&str]) -> Pokemon {
    let mut p = Pokemon::new(id, name.to_string());
    p.base_stats.hp = id * 3;
    p.types = types
        .iter()
        .enumerate()
        .map(|(i, t)| PokemonType { name: t.to_string(), slot: i as u32 + 1 })
        .collect();
    p
}

fn ids(list: &[Pokemon]) -> Vec<u32> {
    list.iter().map(|p| p.id).collect()
}

const T0: i64 = 1_700_000_000;

#[test]
fn stored_record_reads_back_equal() {
    let mut db = Database::new();
    let p = record(6, "charizard", &["fire", "flying"]);
    db.cache_pokemon(&p, T0);
    assert_eq!(db.get_cached_pokemon(6), Some(p));
    assert_eq!(db.get_cached_pokemon(7), None);
}

#[test]
fn store_replaces_same_id() {
    let mut db = Database::new();
    db.cache_pokemon(&record(4, "charmander", &["fire"]), T0);
    db.cache_pokemon(&record(1, "bulbasaur", &["grass"]), T0);
    let newer = record(4, "charmander-new", &["fire"]);
    db.cache_pokemon(&newer, T0 + 10);
    assert_eq!(db.get_cached_pokemon_count(), 2);
    assert_eq!(db.get_cached_pokemon(4), Some(newer));
    assert_eq!(ids(&db.get_pokemon_by_id_range(0, 100)), vec![1, 4]);
}

#[test]
fn validity_ends_at_the_hour_boundary() {
    let mut db = Database::new();
    db.cache_pokemon(&record(25, "pikachu", &["electric"]), T0);
    assert!(db.is_pokemon_cache_valid(25, 1, T0));
    assert!(db.is_pokemon_cache_valid(25, 1, T0 + 3599));
    assert!(!db.is_pokemon_cache_valid(25, 1, T0 + 3600));
    assert!(db.is_pokemon_cache_valid(25, 24, T0 + 23 * 3600));
    assert!(!db.is_pokemon_cache_valid(25, 24, T0 + 24 * 3600));
    assert!(!db.is_pokemon_cache_valid(25, 0, T0));
    assert!(!db.is_pokemon_cache_valid(26, 24, T0));
}

#[test]
fn valid_right_after_store_for_any_positive_ttl() {
    let mut db = Database::new();
    db.cache_pokemon(&record(3, "venusaur", &["grass"]), T0);
    for h in [1i64, 2, 24, 1000] {
        assert!(db.is_pokemon_cache_valid(3, h, T0));
        assert!(!db.is_pokemon_cache_valid(3, h, T0 + h * 3600));
    }
    assert!(!db.is_pokemon_cache_valid(4, 1, T0));
}

#[test]
fn unknown_write_time_is_never_valid() {
    let mut db = Database::new();
    db.restore_pokemon(&record(8, "wartortle", &["water"]), None);
    db.restore_pokemon(&record(9, "blastoise", &["water"]), Some(T0));
    assert_eq!(db.get_cached_pokemon(8), Some(record(8, "wartortle", &["water"])));
    assert!(!db.is_pokemon_cache_valid(8, i64::MAX, T0));
    assert!(db.is_pokemon_cache_valid(9, 1, T0));
    assert_eq!(db.clear_expired_pokemon_cache(i64::MAX, T0), 1);
    assert_eq!(db.get_cached_pokemon(8), None);
    assert!(db.get_cached_pokemon(9).is_some());
}

#[test]
fn clear_expired_removes_exactly_the_old() {
    let mut db = Database::new();
    db.cache_pokemon(&record(1, "a", &[]), T0);
    db.cache_pokemon(&record(2, "b", &[]), T0 + 3600);
    db.cache_pokemon(&record(3, "c", &[]), T0 + 7200);
    db.cache_pokemon(&record(4, "d", &[]), T0 + 9000);
    // at T0 + 7200 with one hour: ages 7200, 3600, 0, -1800
    let removed = db.clear_expired_pokemon_cache(1, T0 + 7200);
    assert_eq!(removed, 2);
    assert_eq!(db.get_cached_pokemon_count(), 2);
    assert_eq!(db.get_cached_pokemon(1), None);
    assert_eq!(db.get_cached_pokemon(2), None);
    assert_eq!(db.get_cached_pokemon(3), Some(record(3, "c", &[])));
    assert_eq!(db.get_cached_pokemon(4), Some(record(4, "d", &[])));
    assert_eq!(db.clear_expired_pokemon_cache(1, T0 + 7200), 0);
}

#[test]
fn clear_removes_all() {
    let mut db = Database::new();
    db.cache_pokemon(&record(1, "a", &[]), T0);
    db.cache_pokemon(&record(2, "b", &[]), T0);
    assert!(db.is_pokemon_database_complete(2));
    assert!(!db.is_pokemon_database_complete(3));
    db.clear_pokemon_cache();
    assert_eq!(db.get_cached_pokemon_count(), 0);
    assert_eq!(db.get_cached_pokemon(1), None);
    assert_eq!(db.clear_expired_pokemon_cache(1, T0), 0);
}

#[test]
fn batch_by_offset_uses_id_range() {
    let mut db = Database::new();
    for id in [5u32, 1, 3, 2, 9] {
        db.cache_pokemon(&record(id, "x", &[]), T0);
    }
    assert_eq!(ids(&db.get_pokemon_batch(0, 3)), vec![1, 2, 3]);
    assert_eq!(ids(&db.get_pokemon_batch(2, 3)), vec![3, 5]);
    assert!(db.get_pokemon_batch(0, 0).is_empty());
    assert_eq!(ids(&db.get_pokemon_by_id_range(2, 5)), vec![2, 3, 5]);
    assert!(db.get_pokemon_by_id_range(6, 2).is_empty());
    assert_eq!(ids(&db.get_pokemon_batch(u32::MAX, u32::MAX)), Vec::<u32>::new());
}

fn mixed_cache() -> Database {
    let mut db = Database::new();
    let names = [
        (1, "bulbasaur", "grass"),
        (2, "ivysaur", "grass"),
        (3, "venusaur", "grass"),
        (4, "charmander", "fire"),
        (5, "charmeleon", "fire"),
        (6, "charizard", "Fire"),
        (7, "squirtle", "water"),
        (8, "wartortle", "water"),
        (9, "blastoise", "water"),
        (10, "caterpie", "bug"),
    ];
    for (id, name, t) in names.iter().rev() {
        db.cache_pokemon(&record(*id, name, &[t]), T0);
    }
    db
}

#[test]
fn type_filter_keeps_only_tagged_in_id_order() {
    let db = mixed_cache();
    let fire = db.get_pokemon_batch_filtered(0, 10, Some("fire".to_string()), None);
    assert_eq!(ids(&fire), vec![4, 5, 6]);
    let upper = db.get_pokemon_batch_filtered(0, 10, Some("FIRE".to_string()), None);
    assert_eq!(ids(&upper), vec![4, 5, 6]);
}

#[test]
fn type_filter_applies_after_the_page() {
    let db = mixed_cache();
    // the page of ids 1..=5 holds only two fire records
    let fire = db.get_pokemon_batch_filtered(0, 5, Some("fire".to_string()), None);
    assert_eq!(ids(&fire), vec![4, 5]);
    let later = db.get_pokemon_batch_filtered(5, 5, Some("fire".to_string()), None);
    assert_eq!(ids(&later), vec![6]);
}

#[test]
fn name_search_ignores_case_and_pages_before_type() {
    let db = mixed_cache();
    let charm = db.get_pokemon_batch_filtered(0, 10, None, Some("CHAR".to_string()));
    assert_eq!(ids(&charm), vec![4, 5, 6]);
    let second = db.get_pokemon_batch_filtered(1, 1, None, Some("char".to_string()));
    assert_eq!(ids(&second), vec![5]);
    let saur = db.get_pokemon_batch_filtered(0, 10, Some("grass".to_string()), Some("saur".to_string()));
    assert_eq!(ids(&saur), vec![1, 2, 3]);
    let all = db.get_pokemon_batch_filtered(8, 10, None, None);
    assert_eq!(ids(&all), vec![9, 10]);
    assert!(db.get_pokemon_batch_filtered(20, 10, None, None).is_empty());
}

#[test]
fn filtered_count_matches_listing() {
    let db = mixed_cache();
    assert_eq!(db.get_pokemon_count_filtered(None, None), 10);
    assert_eq!(db.get_pokemon_count_filtered(Some("fire".to_string()), None), 3);
    assert_eq!(db.get_pokemon_count_filtered(None, Some("Char".to_string())), 3);
    assert_eq!(
        db.get_pokemon_count_filtered(Some("water".to_string()), Some("char".to_string())),
        0
    );
    assert_eq!(db.get_pokemon_count_filtered(Some("psychic".to_string()), None), 0);
}
