use steam_size::aggregate::{aggregate, OwnedGame, RANK_LIMIT};
use steam_size::catalog::{CatalogRecord, SizeCatalog};

fn record(key: &str, name: &str, size_micro: u64) -> CatalogRecord {
    CatalogRecord { key: key.to_string(), name: name.to_string(), size_micro }
}

fn game(app_id: u64, name: Option<&str>) -> OwnedGame {
    OwnedGame { app_id, name: name.map(|n| n.to_string()), playtime_minutes: None }
}

#[test]
fn two_owned_one_known() {
    let catalog = SizeCatalog::from_records(&vec![record("10", "Game A", 5_000_000)]);
    let owned = vec![game(10, Some("Game A")), game(20, Some("Game B"))];
    let r = aggregate(&owned, &catalog);
    assert_eq!(r.total_games_owned, 2);
    assert_eq!(r.total_size_micro, 5_000_000);
    assert_eq!(r.total_size_display, "5.00 GB");
    assert_eq!(r.ranked_games.len(), 1);
    assert_eq!(r.ranked_games[0].name, "Game A");
    assert_eq!(r.ranked_games[0].size_micro, 5_000_000);
}

#[test]
fn empty_library() {
    let catalog = SizeCatalog::from_records(&vec![record("10", "Game A", 5_000_000)]);
    let r = aggregate(&vec![], &catalog);
    assert_eq!(r.total_games_owned, 0);
    assert_eq!(r.total_size_micro, 0);
    assert_eq!(r.total_size_display, "0.00 GB");
    assert!(r.ranked_games.is_empty());
}

#[test]
fn empty_catalog_counts_all_games() {
    let catalog = SizeCatalog::empty();
    let owned = vec![game(1, None), game(2, None), game(3, Some("C"))];
    let r = aggregate(&owned, &catalog);
    assert_eq!(r.total_games_owned, 3);
    assert_eq!(r.total_size_micro, 0);
    assert!(r.ranked_games.is_empty());
}

#[test]
fn total_sums_only_known_games() {
    let catalog = SizeCatalog::from_records(&vec![
        record("1", "One", 1_500_000),
        record("2", "Two", 2_250_000),
        record("4", "Four", 9_000_000),
    ]);
    let owned = vec![game(1, None), game(2, None), game(3, None)];
    let r = aggregate(&owned, &catalog);
    assert_eq!(r.total_games_owned, 3);
    assert_eq!(r.total_size_micro, 3_750_000);
    assert_eq!(r.total_size_display, "3.75 GB");
}

#[test]
fn name_falls_back_to_catalog() {
    let catalog = SizeCatalog::from_records(&vec![record("7", "Stored", 1_000_000)]);
    let r = aggregate(&vec![game(7, None)], &catalog);
    assert_eq!(r.ranked_games[0].name, "Stored");
    let r = aggregate(&vec![game(7, Some("Reported"))], &catalog);
    assert_eq!(r.ranked_games[0].name, "Reported");
}

#[test]
fn ranked_largest_first_and_stable() {
    let catalog = SizeCatalog::from_records(&vec![
        record("1", "a", 3),
        record("2", "b", 7),
        record("3", "c", 3),
        record("4", "d", 7),
        record("5", "e", 1),
    ]);
    let owned = vec![game(1, None), game(2, None), game(3, None), game(4, None), game(5, None)];
    let r = aggregate(&owned, &catalog);
    let names: Vec<&str> = r.ranked_games.iter().map(|g| g.name.as_str()).collect();
    assert_eq!(names, vec!["b", "d", "a", "c", "e"]);
}

#[test]
fn ranked_capped_at_limit() {
    let mut records = Vec::new();
    let mut owned = Vec::new();
    for i in 0..25u64 {
        records.push(record(&i.to_string(), &format!("g{}", i), i * 1_000_000));
        owned.push(game(i, None));
    }
    let catalog = SizeCatalog::from_records(&records);
    let r = aggregate(&owned, &catalog);
    assert_eq!(r.total_games_owned, 25);
    assert_eq!(r.ranked_games.len(), RANK_LIMIT);
    assert_eq!(r.ranked_games[0].name, "g24");
    assert_eq!(r.ranked_games[19].name, "g5");
    assert_eq!(r.total_size_micro, 300_000_000);
    for w in r.ranked_games.windows(2) {
        assert!(w[0].size_micro >= w[1].size_micro);
    }
}

#[test]
fn aggregating_twice_gives_same_result() {
    let catalog = SizeCatalog::from_records(&vec![record("1", "a", 4), record("2", "b", 4)]);
    let owned = vec![game(2, None), game(1, None), game(9, None)];
    let first = aggregate(&owned, &catalog);
    let second = aggregate(&owned, &catalog);
    assert_eq!(first.total_size_micro, second.total_size_micro);
    assert_eq!(first.total_size_display, second.total_size_display);
    assert_eq!(first.total_games_owned, second.total_games_owned);
    assert_eq!(first.ranked_games.len(), second.ranked_games.len());
    for (a, b) in first.ranked_games.iter().zip(second.ranked_games.iter()) {
        assert_eq!(a.name, b.name);
        assert_eq!(a.size_micro, b.size_micro);
    }
}

#[test]
fn large_total_shown_in_tebibytes() {
    let catalog = SizeCatalog::from_records(&vec![
        record("1", "a", 1_000_000_000),
        record("2", "b", 24_000_000),
    ]);
    let r = aggregate(&vec![game(1, None), game(2, None)], &catalog);
    assert_eq!(r.total_size_micro, 1_024_000_000);
    assert_eq!(r.total_size_display, "1.00 TB");
}
