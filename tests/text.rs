use pokedex_dnd::cache::Database;
use pokedex_dnd::pokemon::Pokemon;
use pokedex_dnd::text::{chars_of, contains_text, same_text};

#[test]
fn text_equality_and_containment() {
    assert!(same_text("fire", "fire"));
    assert!(!same_text("fire", "Fire"));
    assert!(!same_text("fire", "fir"));
    assert!(same_text("", ""));
    assert!(contains_text("charmander", "arm"));
    assert!(contains_text("charmander", ""));
    assert!(contains_text("abc", "abc"));
    assert!(!contains_text("abc", "abcd"));
    assert!(!contains_text("charmander", "CHAR"));
    assert_eq!(chars_of("héllo"), vec!['h', 'é', 'l', 'l', 'o']);
}

#[test]
fn entries_list_in_id_order_with_times() {
    let mut db = Database::new();
    db.cache_pokemon(&Pokemon::new(9, "nine".to_string()), 30);
    db.cache_pokemon(&Pokemon::new(2, "two".to_string()), 20);
    db.cache_pokemon(&Pokemon::new(5, "five".to_string()), 10);
    let entries = db.cached_entries();
    let seen: Vec<(u32, String, Option<i64>)> =
        entries.iter().map(|e| (e.id, e.name.clone(), e.last_updated)).collect();
    assert_eq!(
        seen,
        vec![
            (2, "two".to_string(), Some(20)),
            (5, "five".to_string(), Some(10)),
            (9, "nine".to_string(), Some(30)),
        ]
    );
    assert_eq!(entries[1].pokemon, Pokemon::new(5, "five".to_string()));
}
