use vinyl_catalog::database::Database;
use vinyl_catalog::json::holder_text;
use vinyl_catalog::record::{Artist, Format, Identifier, Label, Record, Track};

fn full_record() -> Record {
    Record {
        id: -42,
        year: 1977,
        title: "Quo\"ted \\ and\nlined".to_string(),
        formats: vec![Format { name: "Vinyl".to_string() }],
        artists: vec![Artist { name: "Ada".to_string(), id: 7 }],
        labels: vec![Label { name: "Harvest".to_string(), catno: "SHVL 804".to_string() }],
        identifiers: vec![Identifier { type_: "Barcode".to_string(), value: "123".to_string() }],
        genres: vec!["Rock".to_string(), "Jazz".to_string()],
        styles: vec!["Prog".to_string()],
        tracklist: vec![Track {
            position: "A1".to_string(),
            type_: "track".to_string(),
            title: "One".to_string(),
            duration: "3:20".to_string(),
            extraartists: Some(vec![Artist { name: "Guest".to_string(), id: 8 }]),
            sub_tracks: Some(vec![Track {
                position: "A1a".to_string(),
                type_: "track".to_string(),
                title: "One part a".to_string(),
                duration: "".to_string(),
                extraartists: None,
                sub_tracks: None,
            }]),
        }],
    }
}

#[test]
fn empty_store_serializes_to_an_empty_array() {
    let db = Database::new();
    assert_eq!(db.document(), "[]");
}

#[test]
fn document_is_valid_json_and_round_trips() {
    let mut db = Database::new();
    db.add(full_record()).unwrap();
    let doc = db.document();
    let v: serde_json::Value = serde_json::from_str(&doc).expect("the document parses as JSON");
    let holders = v.as_array().unwrap();
    assert_eq!(holders.len(), 1);
    let record = &holders[0]["record"];
    assert_eq!(record["id"], serde_json::Value::from(-42));
    assert_eq!(record["year"], serde_json::Value::from(1977));
    assert_eq!(record["title"], serde_json::Value::from("Quo\"ted \\ and\nlined"));
    assert_eq!(record["formats"][0]["name"], serde_json::Value::from("Vinyl"));
    assert_eq!(record["artists"][0]["id"], serde_json::Value::from(7));
    assert_eq!(record["labels"][0]["catno"], serde_json::Value::from("SHVL 804"));
    assert_eq!(record["identifiers"][0]["type"], serde_json::Value::from("Barcode"));
    assert_eq!(record["genres"][1], serde_json::Value::from("Jazz"));
    assert_eq!(record["tracklist"][0]["position"], serde_json::Value::from("A1"));
    assert_eq!(
        record["tracklist"][0]["extraartists"][0]["name"],
        serde_json::Value::from("Guest")
    );
    assert_eq!(
        record["tracklist"][0]["sub_tracks"][0]["title"],
        serde_json::Value::from("One part a")
    );
    assert!(record["tracklist"][0]["sub_tracks"][0]["sub_tracks"].is_null());
    let items = holders[0]["items"].as_array().unwrap();
    assert_eq!(items.len(), 1);
    assert_eq!(items[0]["id"], serde_json::Value::from(0));
    let events = items[0]["events"].as_array().unwrap();
    assert_eq!(events.len(), 1);
    assert_eq!(events[0]["event_type"], serde_json::Value::from("Created"));
    assert!(events[0]["message"].is_null());
    assert!(events[0]["date"].is_i64());
}

#[test]
fn holder_text_is_what_search_matches_against() {
    let mut db = Database::new();
    db.add(full_record()).unwrap();
    let text: String = holder_text(&db.data[0]).into_iter().collect();
    assert!(text.starts_with("{\"record\":{\"id\":-42,\"year\":1977,"));
    assert!(text.contains("\"genres\":[\"Rock\",\"Jazz\"]"));
    // the text is exactly the holder's slice of the document
    let doc = db.document();
    assert_eq!(doc, format!("[{}]", text));
}

#[test]
fn control_characters_are_escaped() {
    let mut db = Database::new();
    let mut r = full_record();
    r.title = "a\tb\u{1}c".to_string();
    db.add(r).unwrap();
    let doc = db.document();
    assert!(doc.contains("a\\tb\\u0001c"));
    let v: serde_json::Value = serde_json::from_str(&doc).unwrap();
    assert_eq!(v[0]["record"]["title"], serde_json::Value::from("a\tb\u{1}c"));
}

#[test]
fn holders_are_joined_with_commas_in_store_order() {
    let mut db = Database::new();
    let mut a = full_record();
    a.id = 1;
    let mut b = full_record();
    b.id = 2;
    db.add(a).unwrap();
    db.add(b).unwrap();
    let v: serde_json::Value = serde_json::from_str(&db.document()).unwrap();
    let holders = v.as_array().unwrap();
    assert_eq!(holders.len(), 2);
    assert_eq!(holders[0]["record"]["id"], serde_json::Value::from(1));
    assert_eq!(holders[1]["record"]["id"], serde_json::Value::from(2));
}

#[test]
fn a_holder_left_without_copies_serializes_with_an_empty_array() {
    let mut db = Database::new();
    let r = full_record();
    let probe = full_record();
    db.add(r).unwrap();
    db.remove_holder_item(&probe, 0).unwrap();
    let v: serde_json::Value = serde_json::from_str(&db.document()).unwrap();
    assert_eq!(v[0]["items"].as_array().unwrap().len(), 0);
}
