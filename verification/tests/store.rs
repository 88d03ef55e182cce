use vinyl_catalog::database::Database;
use vinyl_catalog::item_holder::{Item, ItemEvent, ItemEventType, ItemHolder};
use vinyl_catalog::record::Record;

fn rec(id: i64, title: &str) -> Record {
    Record {
        id,
        year: 1999,
        title: title.to_string(),
        formats: vec![],
        artists: vec![],
        labels: vec![],
        identifiers: vec![],
        genres: vec![],
        styles: vec![],
        tracklist: vec![],
    }
}

#[test]
fn add_then_contains() {
    let mut db = Database::new();
    let a = rec(1, "Abbey Road");
    assert!(!db.contains(&a));
    db.add(rec(1, "Abbey Road")).unwrap();
    assert!(db.contains(&a));
    assert!(db.contains_id(1));
    assert!(!db.contains_id(2));
}

#[test]
fn add_twice_yields_two_copies() {
    let mut db = Database::new();
    db.add(rec(1, "Abbey Road")).unwrap();
    let holder = db.add(rec(1, "Abbey Road")).unwrap();
    assert_eq!(db.data.len(), 1);
    assert_eq!(holder.items.len(), 2);
    assert_eq!(holder.items[0].id, 0);
    assert_eq!(holder.items[1].id, 1);
    assert_eq!(db.data[0].items.len(), 2);
    assert_eq!(db.data[0].items[0].id, 0);
    assert_eq!(db.data[0].items[1].id, 1);
}

#[test]
fn full_lifecycle_scenario() {
    let mut db = Database::new();
    let a = rec(1, "A");
    let holder = db.add(rec(1, "A")).unwrap();
    assert_eq!(db.data.len(), 1);
    assert_eq!(holder.items.len(), 1);
    assert_eq!(holder.items[0].id, 0);
    assert_eq!(holder.items[0].events.len(), 1);
    assert_eq!(holder.items[0].events[0].event_type, ItemEventType::Created);
    assert!(holder.items[0].events[0].message.is_none());

    let holder = db.add(rec(1, "A")).unwrap();
    assert_eq!(db.data.len(), 1);
    assert_eq!(
        holder.items.iter().map(|i| i.id).collect::<Vec<_>>(),
        vec![0, 1]
    );

    db.remove_holder_item(&a, 0).unwrap();
    assert_eq!(
        db.data[0].items.iter().map(|i| i.id).collect::<Vec<_>>(),
        vec![1]
    );

    db.remove_holder(&a).unwrap();
    assert!(!db.contains(&a));
    assert_eq!(db.data.len(), 0);
}

#[test]
fn remove_only_copy_then_holder_uncontains() {
    let mut db = Database::new();
    let a = rec(7, "Seven");
    db.add(rec(7, "Seven")).unwrap();
    db.remove_holder_item(&a, 0).unwrap();
    assert_eq!(db.data[0].items.len(), 0);
    db.remove_holder(&a).unwrap();
    assert!(!db.contains(&a));
}

#[test]
fn out_of_range_copy_removal_is_a_noop() {
    let mut db = Database::new();
    let a = rec(7, "Seven");
    db.add(rec(7, "Seven")).unwrap();
    let before = format!("{:?}", db.data);
    db.remove_holder_item(&a, 5).unwrap();
    assert_eq!(format!("{:?}", db.data), before);
    // the store still renders a full document afterwards
    let doc = db.document();
    assert!(doc.starts_with('['));
    assert!(doc.ends_with(']'));
}

#[test]
fn remove_unknown_holder_is_a_noop() {
    let mut db = Database::new();
    db.add(rec(1, "A")).unwrap();
    let other = rec(2, "B");
    db.remove_holder(&other).unwrap();
    assert_eq!(db.data.len(), 1);
}

#[test]
fn update_item_replaces_event_log() {
    let mut db = Database::new();
    let a = rec(1, "A");
    db.add(rec(1, "A")).unwrap();
    let mut item = Item {
        id: db.data[0].items[0].id,
        events: db.data[0].items[0]
            .events
            .iter()
            .map(|e| ItemEvent {
                date: e.date,
                event_type: e.event_type,
                message: e.message.clone(),
            })
            .collect(),
    };
    item.events.push(ItemEvent {
        date: 123,
        event_type: ItemEventType::Message,
        message: Some("note".to_string()),
    });
    let old_len = db.data[0].items[0].events.len();
    db.update_item(&a, item).unwrap();
    // visible immediately, never reordered or dropped
    let events = &db.data[0].items[0].events;
    assert_eq!(events.len(), old_len + 1);
    assert_eq!(events[0].event_type, ItemEventType::Created);
    assert_eq!(events[1].event_type, ItemEventType::Message);
    assert_eq!(events[1].message.as_deref(), Some("note"));
    assert_eq!(events[1].date, 123);
}

#[test]
fn update_item_unknown_record_fails() {
    let mut db = Database::new();
    db.add(rec(1, "A")).unwrap();
    let unknown = rec(99, "Unknown");
    let item = Item { id: 0, events: vec![] };
    let err = db.update_item(&unknown, item).unwrap_err();
    assert_eq!(err.0, "No item holder matching the current record");
}

#[test]
fn update_item_unknown_copy_fails() {
    let mut db = Database::new();
    let a = rec(1, "A");
    db.add(rec(1, "A")).unwrap();
    let item = Item { id: 42, events: vec![] };
    let err = db.update_item(&a, item).unwrap_err();
    assert_eq!(err.0, "No item holder matching the item id");
}

#[test]
fn copy_id_space_exhaustion_is_reported() {
    let data = vec![ItemHolder {
        record: rec(1, "A"),
        items: vec![Item {
            id: i64::MAX,
            events: vec![ItemEvent {
                date: 0,
                event_type: ItemEventType::Created,
                message: None,
            }],
        }],
    }];
    let mut db = Database::from_data(data).unwrap();
    let err = db.add(rec(1, "A")).unwrap_err();
    assert_eq!(err.0, "No copy id left for this record");
}

#[test]
fn from_data_refuses_duplicate_identities() {
    let data = vec![
        ItemHolder { record: rec(1, "A"), items: vec![] },
        ItemHolder { record: rec(1, "A again"), items: vec![] },
    ];
    let err = Database::from_data(data).unwrap_err();
    assert_eq!(err.0, "The stored collection is malformed");
}

#[test]
fn from_data_refuses_unordered_copy_ids() {
    let data = vec![ItemHolder {
        record: rec(1, "A"),
        items: vec![
            Item { id: 3, events: vec![] },
            Item { id: 2, events: vec![] },
        ],
    }];
    let err = Database::from_data(data).unwrap_err();
    assert_eq!(err.0, "The stored collection is malformed");
}

#[test]
fn from_data_accepts_a_good_collection() {
    let data = vec![ItemHolder {
        record: rec(1, "A"),
        items: vec![
            Item { id: 0, events: vec![] },
            Item { id: 4, events: vec![] },
        ],
    }];
    let db = Database::from_data(data).unwrap();
    assert_eq!(db.data.len(), 1);
    assert_eq!(db.data[0].items[1].id, 4);
}

#[test]
fn re_adding_after_emptying_restarts_copy_ids_at_zero() {
    let mut db = Database::new();
    let a = rec(1, "A");
    db.add(rec(1, "A")).unwrap();
    db.remove_holder_item(&a, 0).unwrap();
    assert_eq!(db.data[0].items.len(), 0);
    let holder = db.add(rec(1, "A")).unwrap();
    assert_eq!(holder.items.len(), 1);
    assert_eq!(holder.items[0].id, 0);
}

#[test]
fn copy_ids_keep_growing_past_removals() {
    let mut db = Database::new();
    let a = rec(1, "A");
    db.add(rec(1, "A")).unwrap();
    db.add(rec(1, "A")).unwrap();
    db.remove_holder_item(&a, 0).unwrap();
    let holder = db.add(rec(1, "A")).unwrap();
    assert_eq!(
        holder.items.iter().map(|i| i.id).collect::<Vec<_>>(),
        vec![1, 2]
    );
}
