use vinyl_catalog::app::Navigation;
use vinyl_catalog::record::{Artist, Format, Record, Track};
use vinyl_catalog::lines::{Tab, TM};
use vinyl_catalog::record_detail::RecordDetail;

fn demo_record() -> Record {
    Record {
        id: 7,
        year: 2000,
        title: "T".to_string(),
        formats: vec![Format { name: "LP".to_string() }],
        artists: vec![Artist { name: "A".to_string(), id: 1 }],
        labels: vec![],
        identifiers: vec![],
        genres: vec!["Rock".to_string(), "Jazz".to_string()],
        styles: vec!["Prog".to_string()],
        tracklist: vec![],
    }
}

#[test]
fn detail_lines_follow_the_fixed_layout() {
    let lines = demo_record().get_lines();
    assert_eq!(lines[0], "  ");
    assert_eq!(lines[1], "  T");
    assert_eq!(lines[2], "  ");
    assert_eq!(lines[3], "  Year: 2000");
    assert_eq!(lines[4], "  Artists:");
    assert_eq!(lines[5], "      A");
    assert_eq!(lines[6], "  Formats:");
    assert_eq!(lines[7], "      LP");
    assert_eq!(lines[8], "  Genres: Rock | Jazz");
    assert_eq!(lines[9], "  Styles: Prog");
    assert_eq!(lines[10], "  Tracklist: ");
    assert_eq!(lines[lines.len() - 1], "  Id: 7");
    assert_eq!(lines.len(), 15);
}

#[test]
fn tracks_render_position_duration_and_nesting() {
    let mut r = demo_record();
    r.tracklist = vec![Track {
        position: "A1".to_string(),
        type_: "track".to_string(),
        title: "Song".to_string(),
        duration: "3:20".to_string(),
        extraartists: None,
        sub_tracks: Some(vec![Track {
            position: "".to_string(),
            type_: "track".to_string(),
            title: "Part".to_string(),
            duration: "".to_string(),
            extraartists: None,
            sub_tracks: None,
        }]),
    }];
    let lines = r.get_lines();
    assert!(lines.contains(&"      A1. [3:20] Song".to_string()));
    // the sub-track sits one level deeper still
    assert!(lines.contains(&"            Part".to_string()));
}

#[test]
fn empty_position_and_duration_leave_no_marks() {
    let mut r = demo_record();
    r.tracklist = vec![Track {
        position: "".to_string(),
        type_: "track".to_string(),
        title: "Bare".to_string(),
        duration: "".to_string(),
        extraartists: None,
        sub_tracks: None,
    }];
    let lines = r.get_lines();
    assert!(lines.contains(&"      Bare".to_string()));
}

#[test]
fn record_detail_messages_follow_saved_state() {
    let d = RecordDetail::empty(Navigation::DoNotihing);
    assert!(d.record.is_none());
    assert!(d.is_saved);
    assert_eq!(d.message, "No record");

    let mut d = RecordDetail::new(Navigation::DoNotihing, demo_record(), true);
    assert_eq!(d.message, "Viewing the saved record.");
    d.set_saved(false);
    assert!(!d.is_saved);
    assert_eq!(
        d.message,
        "This record's not been saved yet. Press '+' to save it."
    );
}

#[test]
fn indentation_grows_two_spaces_per_level() {
    assert_eq!(Tab::get_indent(0), "");
    assert_eq!(Tab::get_indent(1), "  ");
    assert_eq!(Tab::get_indent(3), "      ");
}

#[test]
fn blocks_compose_lines_and_modules() {
    let inner = Tab::from_strings(vec!["x".to_string()]);
    let outer = Tab::new(vec![TM::Line("head".to_string()), TM::Module(inner)]);
    let lines = outer.get_lines(0);
    assert_eq!(lines, vec!["head".to_string(), "  x".to_string()]);
}

#[test]
fn single_wraps_one_node() {
    let t = Tab::single(TM::Line("only".to_string()));
    assert_eq!(t.get_lines(0), vec!["only".to_string()]);
}

#[test]
fn line_with_title_joins_without_trailing_delimiter() {
    let line = TM::line_with_title("Genres: ", vec!["A".to_string(), "B".to_string()], " | ");
    let t = Tab::new(vec![line]);
    assert_eq!(t.get_lines(0), vec!["Genres: A | B".to_string()]);
    let empty = TM::line_with_title("Genres: ", vec![], " | ");
    let t = Tab::new(vec![empty]);
    assert_eq!(t.get_lines(0), vec!["Genres: ".to_string()]);
}
