use vinyl_catalog::database::Database;
use vinyl_catalog::record::Record;

fn rec(id: i64, title: &str) -> Record {
    Record {
        id,
        year: 1999,
        title: title.to_string(),
        formats: vec![],
        artists: vec![],
        labels: vec![],
        identifiers: vec![],
        genres: vec![],
        styles: vec![],
        tracklist: vec![],
    }
}

fn demo_db() -> Database {
    let mut db = Database::new();
    db.add(rec(1, "Abbey Road")).unwrap();
    db.add(rec(2, "The Dark Side of the Moon")).unwrap();
    db.add(rec(3, "Abbey to Nowhere")).unwrap();
    db
}

#[test]
fn empty_query_returns_every_holder() {
    let db = demo_db();
    let results = db.search("", None);
    assert_eq!(results.len(), 3);
    assert_eq!(
        results.iter().map(|h| h.record.id).collect::<Vec<_>>(),
        vec![1, 2, 3]
    );
}

#[test]
fn whitespace_only_query_returns_every_holder() {
    let db = demo_db();
    let results = db.search("  \t  ", None);
    assert_eq!(results.len(), 3);
}

#[test]
fn every_token_must_appear() {
    let db = demo_db();
    let hits = db.search("abbey road", None);
    assert_eq!(hits.len(), 1);
    assert_eq!(hits[0].record.id, 1);
    let misses = db.search("abbey zeppelin", None);
    assert_eq!(misses.len(), 0);
}

#[test]
fn matching_is_ascii_case_insensitive() {
    let db = demo_db();
    let hits = db.search("ABBEY", None);
    assert_eq!(hits.len(), 2);
    assert_eq!(
        hits.iter().map(|h| h.record.id).collect::<Vec<_>>(),
        vec![1, 3]
    );
}

#[test]
fn token_may_match_any_field_of_the_serialized_text() {
    let mut db = Database::new();
    let mut r = rec(9, "Untitled");
    r.genres = vec!["Progressive".to_string()];
    db.add(r).unwrap();
    let hits = db.search("progressive", None);
    assert_eq!(hits.len(), 1);
}

#[test]
fn pinned_known_record_comes_first_and_only_once() {
    let db = demo_db();
    let results = db.search("abbey", Some(rec(3, "Abbey to Nowhere")));
    assert_eq!(results[0].record.id, 3);
    // stored holder, so its copy came along
    assert_eq!(results[0].items.len(), 1);
    let rest: Vec<i64> = results[1..].iter().map(|h| h.record.id).collect();
    assert_eq!(rest, vec![1]);
    assert!(!rest.contains(&3));
}

#[test]
fn pinned_record_ignores_whether_it_matches() {
    let db = demo_db();
    let results = db.search("zeppelin", Some(rec(2, "The Dark Side of the Moon")));
    assert_eq!(results.len(), 1);
    assert_eq!(results[0].record.id, 2);
}

#[test]
fn pinned_unknown_record_yields_fresh_empty_holder() {
    let db = demo_db();
    let results = db.search("", Some(rec(42, "Unsaved")));
    assert_eq!(results[0].record.id, 42);
    assert_eq!(results[0].items.len(), 0);
    assert_eq!(results.len(), 4);
}
