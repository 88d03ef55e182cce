use vinyl_catalog::app::{App, AppPage, AppPages, CustomEvent, Key, RemoteAction};
use vinyl_catalog::database::Database;
use vinyl_catalog::item_holder::ItemEventType;
use vinyl_catalog::query::DiscogsSearchResultRelease;
use vinyl_catalog::record::Record;
use vinyl_catalog::settings::Settings;

fn rec(id: i64, title: &str) -> Record {
    Record {
        id,
        year: 1999,
        title: title.to_string(),
        formats: vec![],
        artists: vec![],
        labels: vec![],
        identifiers: vec![],
        genres: vec![],
        styles: vec![],
        tracklist: vec![],
    }
}

fn settings() -> Settings {
    Settings {
        discogs_key: "token".to_string(),
        database_path: "collection.json".to_string(),
    }
}

fn press(app: &mut App, k: Key) -> (bool, Option<RemoteAction>) {
    app.input(CustomEvent::Input(k))
}

fn type_text(app: &mut App, text: &str) {
    for c in text.chars() {
        press(app, Key::Char(c));
    }
}

#[test]
fn pages_have_titles_numbers_and_inputs() {
    assert_eq!(AppPages::Home.get_title(), "Home");
    assert_eq!(AppPages::Search.get_title(), "Search");
    assert_eq!(AppPages::WebSearch.get_title(), "Web search");
    assert_eq!(AppPages::Home.get_number(), 0);
    assert_eq!(AppPages::Search.get_number(), 1);
    assert_eq!(AppPages::WebSearch.get_number(), 2);
    assert!(!AppPages::Home.show_input());
    assert!(AppPages::Search.show_input());
    assert!(AppPages::WebSearch.show_input());
}

#[test]
fn global_keys_switch_pages_and_quit() {
    let mut app = App::new(settings(), Database::new());
    assert_eq!(app.active, AppPages::Home);
    press(&mut app, Key::Char('s'));
    assert_eq!(app.active, AppPages::Search);
    press(&mut app, Key::Char('w'));
    assert_eq!(app.active, AppPages::WebSearch);
    press(&mut app, Key::Char('h'));
    assert_eq!(app.active, AppPages::Home);
    let (quit, _) = press(&mut app, Key::Char('q'));
    assert!(quit);
}

#[test]
fn tick_changes_nothing() {
    let mut app = App::new(settings(), Database::new());
    let (quit, action) = app.input(CustomEvent::Tick);
    assert!(!quit);
    assert!(action.is_none());
    assert_eq!(app.active, AppPages::Home);
}

#[test]
fn main_modal_opens_only_on_input_pages() {
    let mut app = App::new(settings(), Database::new());
    press(&mut app, Key::Char('i'));
    assert!(!app.is_main_input);
    press(&mut app, Key::Char('s'));
    press(&mut app, Key::Char('i'));
    assert!(app.is_main_input);
    press(&mut app, Key::Esc);
    assert!(!app.is_main_input);
}

#[test]
fn typing_edits_the_main_input() {
    let mut app = App::new(settings(), Database::new());
    press(&mut app, Key::Char('s'));
    press(&mut app, Key::Char('i'));
    type_text(&mut app, "abc");
    assert_eq!(app.main_input, "abc");
    press(&mut app, Key::Backspace);
    assert_eq!(app.main_input, "ab");
}

#[test]
fn submitting_the_main_modal_searches_the_store() {
    let mut db = Database::new();
    db.add(rec(1, "Abbey Road")).unwrap();
    db.add(rec(2, "Dark Side")).unwrap();
    let mut app = App::new(settings(), db);
    press(&mut app, Key::Char('s'));
    press(&mut app, Key::Char('i'));
    type_text(&mut app, "abbey");
    press(&mut app, Key::Enter);
    assert!(!app.is_main_input);
    assert_eq!(app.search.list.items.len(), 1);
    assert_eq!(app.search.list.items[0].record.id, 1);
    assert_eq!(app.search.list.state, Some(0));
    // "Found 1 results" was cleared? no: InputSubmit runs after the clear
    assert_eq!(app.message_box, "Found 1 results");
}

#[test]
fn web_modal_submission_asks_for_a_query() {
    let mut app = App::new(settings(), Database::new());
    press(&mut app, Key::Char('w'));
    press(&mut app, Key::Char('i'));
    type_text(&mut app, "nirvana");
    let (quit, action) = press(&mut app, Key::Enter);
    assert!(!quit);
    match action {
        Some(RemoteAction::WebQuery(url)) => {
            assert_eq!(
                url,
                "https://api.discogs.com/database/search?q=nirvana&token=token"
            );
        }
        other => panic!("expected a web query, got {:?}", other),
    }
}

#[test]
fn selecting_a_web_result_asks_for_the_release() {
    let mut app = App::new(settings(), Database::new());
    press(&mut app, Key::Char('w'));
    app.apply_query_results(vec![DiscogsSearchResultRelease {
        id: 77,
        result_type: "release".to_string(),
        title: "Nevermind".to_string(),
        format: vec!["Vinyl".to_string()],
    }]);
    assert_eq!(app.message_box, "Found 1 results");
    press(&mut app, Key::Down);
    let (_, action) = press(&mut app, Key::Enter);
    match action {
        Some(RemoteAction::FetchRelease(url)) => {
            assert_eq!(url, "https://api.discogs.com/releases/77");
        }
        other => panic!("expected a fetch, got {:?}", other),
    }
}

#[test]
fn selecting_nothing_reports_a_failed_load() {
    let mut app = App::new(settings(), Database::new());
    press(&mut app, Key::Char('w'));
    let (_, action) = press(&mut app, Key::Enter);
    assert!(action.is_none());
    assert_eq!(app.message_box, "Release couldn't be loaded!");
}

#[test]
fn a_fetched_release_lands_pinned_on_the_search_page() {
    let mut app = App::new(settings(), Database::new());
    press(&mut app, Key::Char('w'));
    app.apply_release(rec(42, "Fresh"));
    assert_eq!(app.active, AppPages::Search);
    assert_eq!(app.search.list.items[0].record.id, 42);
    assert_eq!(app.search.list.items[0].list.items.len(), 0);
    assert_eq!(app.message_box, "");
}

#[test]
fn saving_the_selected_record_adds_a_copy() {
    let mut db = Database::new();
    db.add(rec(1, "Abbey Road")).unwrap();
    let mut app = App::new(settings(), db);
    press(&mut app, Key::Char('s'));
    press(&mut app, Key::Char('i'));
    press(&mut app, Key::Enter); // empty query: everything
    assert_eq!(app.search.list.state, Some(0));
    press(&mut app, Key::Char('+'));
    assert_eq!(app.message_box, "Record Saved");
    assert_eq!(app.database.data[0].items.len(), 2);
    // the visible holder was refreshed, its fresh copy selected
    let shown = &app.search.list.items[0];
    assert_eq!(shown.list.items.len(), 2);
    assert_eq!(shown.list.state, Some(1));
}

#[test]
fn removing_the_selected_copy_updates_store_and_screen() {
    let mut db = Database::new();
    db.add(rec(1, "Abbey Road")).unwrap();
    db.add(rec(1, "Abbey Road")).unwrap();
    let mut app = App::new(settings(), db);
    press(&mut app, Key::Char('s'));
    press(&mut app, Key::Char('i'));
    press(&mut app, Key::Enter);
    press(&mut app, Key::Right); // select first copy
    press(&mut app, Key::Char('_'));
    assert_eq!(app.message_box, "Item removed");
    assert_eq!(app.database.data[0].items.len(), 1);
    assert_eq!(app.database.data[0].items[0].id, 1);
    assert_eq!(app.search.list.items[0].list.items.len(), 1);
}

#[test]
fn removing_a_holder_requires_it_to_be_empty() {
    let mut db = Database::new();
    db.add(rec(1, "Abbey Road")).unwrap();
    let mut app = App::new(settings(), db);
    press(&mut app, Key::Char('s'));
    press(&mut app, Key::Char('i'));
    press(&mut app, Key::Enter);
    press(&mut app, Key::Char('-'));
    assert_eq!(app.message_box, "Items list not empty");
    assert!(app.database.contains_id(1));
    // drop the only copy, then remove the holder
    press(&mut app, Key::Right);
    press(&mut app, Key::Char('_'));
    press(&mut app, Key::Char('-'));
    assert_eq!(app.message_box, "Record removed");
    assert!(!app.database.contains_id(1));
}

#[test]
fn side_modal_annotation_scenario() {
    let mut db = Database::new();
    db.add(rec(1, "Abbey Road")).unwrap();
    db.add(rec(1, "Abbey Road")).unwrap();
    let mut app = App::new(settings(), db);
    press(&mut app, Key::Char('s'));
    press(&mut app, Key::Char('i'));
    press(&mut app, Key::Enter);
    press(&mut app, Key::Right); // copy id 0
    press(&mut app, Key::Down); // copy id 1
    assert_eq!(app.search.list.items[0].list.state, Some(1));
    press(&mut app, Key::Char('m'));
    assert!(app.is_side_input);
    type_text(&mut app, "loaned to Sam");
    press(&mut app, Key::Enter);
    assert!(!app.is_side_input);
    let created_at = app.database.data[0].items[1].events[0].date;
    let events = &app.database.data[0].items[1].events;
    assert_eq!(events.len(), 2);
    assert_eq!(events[1].event_type, ItemEventType::Message);
    assert_eq!(events[1].message.as_deref(), Some("loaned to Sam"));
    assert!(events[1].date >= created_at);
    // the other copy's log is untouched
    assert_eq!(app.database.data[0].items[0].events.len(), 1);
}

#[test]
fn lending_note_uses_the_lent_kind() {
    let mut db = Database::new();
    db.add(rec(1, "Abbey Road")).unwrap();
    let mut app = App::new(settings(), db);
    press(&mut app, Key::Char('s'));
    press(&mut app, Key::Char('i'));
    press(&mut app, Key::Enter);
    press(&mut app, Key::Right);
    press(&mut app, Key::Char('l'));
    assert!(app.is_side_input);
    type_text(&mut app, "to Ada");
    press(&mut app, Key::Enter);
    let events = &app.database.data[0].items[0].events;
    assert_eq!(events[1].event_type, ItemEventType::Lent);
    assert_eq!(events[1].message.as_deref(), Some("to Ada"));
}

#[test]
fn up_and_down_wrap_over_search_results() {
    let mut db = Database::new();
    db.add(rec(1, "A")).unwrap();
    db.add(rec(2, "B")).unwrap();
    let mut app = App::new(settings(), db);
    press(&mut app, Key::Char('s'));
    press(&mut app, Key::Char('i'));
    press(&mut app, Key::Enter);
    assert_eq!(app.search.list.state, Some(0));
    press(&mut app, Key::Down);
    assert_eq!(app.search.list.state, Some(1));
    press(&mut app, Key::Down);
    assert_eq!(app.search.list.state, Some(0));
    press(&mut app, Key::Up);
    assert_eq!(app.search.list.state, Some(1));
}

#[test]
fn arrows_inside_a_holder_move_the_copy_cursor() {
    let mut db = Database::new();
    db.add(rec(1, "A")).unwrap();
    db.add(rec(1, "A")).unwrap();
    let mut app = App::new(settings(), db);
    press(&mut app, Key::Char('s'));
    press(&mut app, Key::Char('i'));
    press(&mut app, Key::Enter);
    press(&mut app, Key::Right);
    assert_eq!(app.search.list.items[0].list.state, Some(0));
    press(&mut app, Key::Down);
    assert_eq!(app.search.list.items[0].list.state, Some(1));
    press(&mut app, Key::Left);
    assert_eq!(app.search.list.items[0].list.state, None);
}

#[test]
fn page_keys_scroll_the_detail_text() {
    let mut db = Database::new();
    db.add(rec(1, "A")).unwrap();
    let mut app = App::new(settings(), db);
    press(&mut app, Key::Char('s'));
    press(&mut app, Key::Char('i'));
    press(&mut app, Key::Enter);
    assert_eq!(app.search.list.items[0].detail_offset, 0);
    press(&mut app, Key::PageUp);
    assert_eq!(app.search.list.items[0].detail_offset, 0);
    press(&mut app, Key::PageDown);
    assert_eq!(app.search.list.items[0].detail_offset, 1);
    press(&mut app, Key::PageUp);
    assert_eq!(app.search.list.items[0].detail_offset, 0);
}

#[test]
fn state_changing_transitions_clear_the_message() {
    let mut db = Database::new();
    db.add(rec(1, "A")).unwrap();
    let mut app = App::new(settings(), db);
    press(&mut app, Key::Char('s'));
    press(&mut app, Key::Char('i'));
    press(&mut app, Key::Enter);
    assert_eq!(app.message_box, "Found 1 results");
    press(&mut app, Key::Char('h'));
    assert_eq!(app.message_box, "");
}

#[test]
fn removing_the_top_copy_keeps_the_selection_at_the_top() {
    let mut db = Database::new();
    db.add(rec(1, "A")).unwrap();
    db.add(rec(1, "A")).unwrap();
    db.add(rec(1, "A")).unwrap();
    let mut app = App::new(settings(), db);
    press(&mut app, Key::Char('s'));
    press(&mut app, Key::Char('i'));
    press(&mut app, Key::Enter);
    press(&mut app, Key::Right); // copy id 0 selected
    press(&mut app, Key::Char('_'));
    let shown = &app.search.list.items[0];
    assert_eq!(shown.list.items.len(), 2);
    // the cursor stays at the top instead of wrapping to the end
    assert_eq!(shown.list.state, Some(0));
    assert_eq!(shown.list.items[0].item.id, 1);
    assert_eq!(app.database.data[0].items.len(), 2);
}
