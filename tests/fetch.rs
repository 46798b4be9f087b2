use pokedex_dnd::cache::Database;
use pokedex_dnd::fetch::{
    expected_dex_size, generation_limit, BulkLoad, BulkLoadSummary, BulkStep, FetchError, FetchOutcome,
    CACHE_TTL_HOURS, DEFAULT_DEX_SIZE,
};
use pokedex_dnd::pokemon::{PokeApiPokemonResponse, PokeApiResource, PokeApiSprites, Pokemon};

const T0: i64 = 1_700_000_000;

fn response(id: u32, name: &str) -> PokeApiPokemonResponse {
    PokeApiPokemonResponse {
        id,
        name: name.to_string(),
        height: 1,
        weight: 1,
        stats: vec![],
        types: vec![],
        moves: vec![],
        abilities: vec![],
        sprites: PokeApiSprites {
            front_default: None,
            front_shiny: None,
            back_default: None,
            back_shiny: None,
            other: None,
        },
        species: PokeApiResource { name: name.to_string(), url: String::new() },
    }
}

#[test]
fn received_record_is_stored_and_returned() {
    let mut db = Database::new();
    let got = db.complete_fetch(FetchOutcome::Received(response(150, "mewtwo")), T0);
    let p = got.unwrap();
    assert_eq!(p.id, 150);
    assert_eq!(p.name, "mewtwo");
    assert_eq!(db.get_cached_pokemon(150), Some(p));
    assert!(db.is_cached(150));
    assert!(db.is_pokemon_cache_valid(150, CACHE_TTL_HOURS, T0 + 60));
}

#[test]
fn failures_are_reported_and_not_stored() {
    let mut db = Database::new();
    let a = db.complete_fetch(FetchOutcome::Unreachable("refused".to_string()), T0);
    assert_eq!(a, Err(FetchError::Transport("refused".to_string())));
    let b = db.complete_fetch(FetchOutcome::Status(404), T0);
    assert_eq!(b, Err(FetchError::Status(404)));
    let c = db.complete_fetch(FetchOutcome::Unparsable("bad json".to_string()), T0);
    assert_eq!(c, Err(FetchError::Schema("bad json".to_string())));
    assert_eq!(db.get_cached_pokemon_count(), 0);
}

#[test]
fn fresh_cache_is_used_and_stale_is_not() {
    let mut db = Database::new();
    db.cache_pokemon(&Pokemon::new(1, "bulbasaur".to_string()), T0);
    assert_eq!(
        db.fresh_cached_pokemon(1, 24, T0 + 3600),
        Some(Pokemon::new(1, "bulbasaur".to_string()))
    );
    assert_eq!(db.fresh_cached_pokemon(1, 24, T0 + 24 * 3600), None);
    assert_eq!(db.fresh_cached_pokemon(2, 24, T0), None);
    assert!(db.is_cached(1));
    assert!(!db.is_cached(2));
}

#[test]
fn bulk_load_skips_cached_ids() {
    let mut db = Database::new();
    db.cache_pokemon(&Pokemon::new(2, "b".to_string()), T0);
    db.cache_pokemon(&Pokemon::new(3, "c".to_string()), T0);
    let mut load = BulkLoad::new(vec![1, 2, 3, 4, 2]);
    assert_eq!(load.next_step(&db), BulkStep::Fetch(1));
    load.record(1, &Ok(Pokemon::new(1, "a".to_string())));
    assert_eq!(load.next_step(&db), BulkStep::Fetch(4));
    let failed = db.complete_fetch(FetchOutcome::Status(500), T0);
    load.record(4, &failed);
    assert_eq!(load.next_step(&db), BulkStep::Finished);
    assert_eq!(load.next_step(&db), BulkStep::Finished);
    assert_eq!(load.summary.loaded, 1);
    assert_eq!(load.summary.errors, 1);
    assert_eq!(load.summary.failed_ids, vec![4]);
}

#[test]
fn generation_limits() {
    assert_eq!(generation_limit(Some(1)), 151);
    assert_eq!(generation_limit(Some(2)), 251);
    assert_eq!(generation_limit(Some(3)), 386);
    assert_eq!(generation_limit(Some(4)), 493);
    assert_eq!(generation_limit(Some(5)), 649);
    assert_eq!(generation_limit(Some(9)), 151);
    assert_eq!(generation_limit(None), 151);
    assert_eq!(expected_dex_size(None), DEFAULT_DEX_SIZE);
    assert_eq!(expected_dex_size(Some(386)), 386);
}

#[test]
fn bulk_summary_counts() {
    let mut s = BulkLoadSummary::new();
    s.record(1, &Ok(Pokemon::new(1, "a".to_string())));
    s.record(2, &Err(FetchError::Status(500)));
    s.record(3, &Ok(Pokemon::new(3, "c".to_string())));
    s.record(4, &Err(FetchError::Transport("down".to_string())));
    assert_eq!(s.loaded, 2);
    assert_eq!(s.errors, 2);
    assert_eq!(s.failed_ids, vec![2, 4]);
}
