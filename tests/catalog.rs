use steam_size::catalog::{load_step, CandidateOutcome, CatalogRecord, LoadStep, SizeCatalog};
use steam_size::decimal::parse_id;

fn record(key: &str, name: &str, size_micro: u64) -> CatalogRecord {
    CatalogRecord { key: key.to_string(), name: name.to_string(), size_micro }
}

#[test]
fn parses_canonical_ids() {
    assert_eq!(parse_id("10"), Some(10));
    assert_eq!(parse_id("0"), Some(0));
    assert_eq!(parse_id("18446744073709551615"), Some(u64::MAX));
}

#[test]
fn rejects_other_keys() {
    assert_eq!(parse_id(""), None);
    assert_eq!(parse_id("010"), None);
    assert_eq!(parse_id("+10"), None);
    assert_eq!(parse_id("1a"), None);
    assert_eq!(parse_id("abc"), None);
    assert_eq!(parse_id("18446744073709551616"), None);
    assert_eq!(parse_id("123456789012345678901"), None);
}

#[test]
fn last_record_wins() {
    let catalog = SizeCatalog::from_records(&vec![record("5", "old", 1), record("5", "new", 2)]);
    let e = catalog.lookup(5).unwrap();
    assert_eq!(e.name, "new");
    assert_eq!(e.size_micro, 2);
}

#[test]
fn non_canonical_keys_left_out() {
    let catalog = SizeCatalog::from_records(&vec![record("05", "padded", 1), record("x", "odd", 2)]);
    assert!(catalog.lookup(5).is_none());
    assert!(catalog.lookup(0).is_none());
}

#[test]
fn empty_catalog_knows_nothing() {
    assert!(SizeCatalog::empty().lookup(10).is_none());
}

#[test]
fn parsed_candidate_ends_loading() {
    let outcome = CandidateOutcome::Parsed(vec![record("3", "c", 9)]);
    match load_step(0, 4, outcome) {
        LoadStep::Done(c) => assert_eq!(c.lookup(3).unwrap().size_micro, 9),
        LoadStep::TryNext(_) => panic!("a parsed candidate ends loading"),
    }
}

#[test]
fn parsed_empty_candidate_still_wins() {
    match load_step(1, 4, CandidateOutcome::Parsed(vec![])) {
        LoadStep::Done(c) => assert!(c.lookup(3).is_none()),
        LoadStep::TryNext(_) => panic!("an empty database is still a database"),
    }
}

#[test]
fn failed_candidates_are_skipped() {
    assert!(matches!(load_step(0, 4, CandidateOutcome::Unreadable), LoadStep::TryNext(1)));
    assert!(matches!(load_step(2, 4, CandidateOutcome::Malformed), LoadStep::TryNext(3)));
}

#[test]
fn last_failure_gives_empty_catalog() {
    match load_step(3, 4, CandidateOutcome::Malformed) {
        LoadStep::Done(c) => assert!(c.lookup(0).is_none()),
        LoadStep::TryNext(_) => panic!("no candidate is left"),
    }
    assert!(matches!(load_step(0, 0, CandidateOutcome::Unreadable), LoadStep::Done(_)));
}
