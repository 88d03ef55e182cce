//! The interactive core: which page is active, which modal captures
//! keystrokes, and how one input event becomes state transitions, store
//! mutations and remote requests. Every transition is described by a
//! spec-level step function over the application's abstract state; the
//! clock reading that a transition may consume is its one free
//! parameter.
use vstd::prelude::*;

use crate::database::{
    add_db_spec, add_holder_spec, add_ok_spec, contains_id_spec, db_wf, idx_of, item_idx_of,
    remove_holder_db_spec, remove_item_db_spec, search_spec, update_item_db_spec,
    update_item_ok_spec, Database,
};
use crate::discogs::{query_url_spec, release_url_spec, DiscogsClient};
use crate::error::AppError;
use crate::item_holder::{
    fresh_stateful, ItemEvent, ItemEventType, ItemEventV, ItemHolder, ItemHolderV, ItemV,
    StatefulItem, StatefulItemHolder, StatefulItemHolderV, StatefulItemV,
};
use crate::json::{chars_to_string, dec_rep_nat, push_u64};
use crate::lines::record_lines_spec;
use crate::list::{spec_next, spec_previous, StatefulList};
use crate::query::{DiscogsSearchResultRelease, ReleaseV};
use crate::record::{Record, RecordV};
use crate::settings::Settings;
use crate::text::lower_spec;

verus! {

broadcast use vstd::std_specs::vec::axiom_vec_index_decreases, vstd::std_specs::vec::axiom_vec_decreases_to_view, vstd::seq::axiom_seq_index_decreases;

/// The fixed set of pages, in their display order.
#[derive(Clone, Copy, Debug, PartialEq, Eq, Structural)]
pub enum AppPages {
    Home,
    Search,
    WebSearch,
}

/// What the interface needs to know of a page: its title, its place in
/// the menu, and whether it offers the main text input.
pub trait AppPage {
    spec fn title_spec(&self) -> Seq<char>;

    spec fn number_spec(&self) -> int;

    spec fn show_input_spec(&self) -> bool;

    fn get_title(&self) -> (r: &str)
        ensures
            r@ == self.title_spec(),
    ;

    fn get_number(&self) -> (r: usize)
        ensures
            r as int == self.number_spec(),
    ;

    fn show_input(&self) -> (r: bool)
        ensures
            r == self.show_input_spec(),
    ;
}

impl AppPage for AppPages {
    open spec fn title_spec(&self) -> Seq<char> {
        match self {
            AppPages::Home => "Home"@,
            AppPages::WebSearch => "Web search"@,
            AppPages::Search => "Search"@,
        }
    }

    open spec fn number_spec(&self) -> int {
        match self {
            AppPages::Home => 0,
            AppPages::Search => 1,
            AppPages::WebSearch => 2,
        }
    }

    open spec fn show_input_spec(&self) -> bool {
        match self {
            AppPages::Home => false,
            AppPages::WebSearch => true,
            AppPages::Search => true,
        }
    }

    fn get_title(&self) -> (r: &str) {
        match self {
            AppPages::Home => "Home",
            AppPages::WebSearch => "Web search",
            AppPages::Search => "Search",
        }
    }

    fn get_number(&self) -> (r: usize) {
        match self {
            AppPages::Home => 0,
            AppPages::Search => 1,
            AppPages::WebSearch => 2,
        }
    }

    fn show_input(&self) -> (r: bool) {
        match self {
            AppPages::Home => false,
            AppPages::WebSearch => true,
            AppPages::Search => true,
        }
    }
}

/// One keyboard key, as the interactive core distinguishes them.
#[derive(Clone, Copy, Debug, PartialEq, Eq, Structural)]
pub enum Key {
    Char(char),
    Up,
    Down,
    Left,
    Right,
    Enter,
    Esc,
    PageUp,
    PageDown,
    Backspace,
    Other,
}

/// One event from the input source: a key, or the periodic tick that
/// only drives redraws.
#[derive(Clone, Copy, Debug, PartialEq, Eq, Structural)]
pub enum CustomEvent<I> {
    Input(I),
    Tick,
}

/// One intermediate navigation intent, computed from an input event and
/// then applied; `Combined` applies its parts in order.
#[derive(Debug, PartialEq)]
pub enum Navigation {
    NavigatePage(AppPages),
    InputSubmit,
    DoNotihing,
    QuitInput,
    QuitSideInput,
    EnterInput,
    EnterSideInput,
    SideInputSubmit,
    Quit,
    Combined(Vec<Navigation>),
}

/// One request the surrounding program must make of the remote catalog
/// on the core's behalf, carrying the exact URL to fetch.
#[derive(Debug, PartialEq)]
pub enum RemoteAction {
    WebQuery(String),
    FetchRelease(String),
}

/// The abstract shape of a pending remote request.
#[verifier::ext_equal]
pub enum ActionV {
    WebQuery(Seq<char>),
    FetchRelease(Seq<char>),
}

/// The search page's state: a cursor over the holders last found.
pub struct Search {
    pub list: StatefulList<StatefulItemHolder>,
}

/// The whole application state the navigation machine drives.
pub struct App {
    pub active: AppPages,
    pub pages: Vec<AppPages>,
    pub is_main_input: bool,
    pub main_input: String,
    pub is_side_input: bool,
    pub side_input: String,
    pub database: Database,
    pub discogs_client: DiscogsClient,
    pub message_box: String,
    pub query_results: StatefulList<DiscogsSearchResultRelease>,
    pub search: Search,
}

/// The application's abstract state: everything a transition reads or
/// writes, as mathematical values.
#[verifier::ext_equal]
pub struct AppV {
    pub active: AppPages,
    pub is_main_input: bool,
    pub main_input: Seq<char>,
    pub is_side_input: bool,
    pub side_input: Seq<char>,
    pub database: Seq<ItemHolderV>,
    pub token: Seq<char>,
    pub message_box: Seq<char>,
    pub query_state: Option<usize>,
    pub query_items: Seq<ReleaseV>,
    pub search_state: Option<usize>,
    pub search_items: Seq<StatefulItemHolderV>,
}

impl App {
    /// The abstract state of this application value.
    pub open spec fn v(&self) -> AppV {
        AppV {
            active: self.active,
            is_main_input: self.is_main_input,
            main_input: self.main_input@,
            is_side_input: self.is_side_input,
            side_input: self.side_input@,
            database: self.database@,
            token: self.discogs_client@,
            message_box: self.message_box@,
            query_state: self.query_results.state,
            query_items: self.query_results.items.deep_view(),
            search_state: self.search.list.state,
            search_items: self.search.list.items.deep_view(),
        }
    }
}

/// The state's internal consistency: the store invariant holds, every
/// cursor points inside its list, and at most one modal captures input.
pub open spec fn wf_v(s: AppV) -> bool {
    &&& db_wf(s.database)
    &&& (match s.query_state {
        Some(i) => i < s.query_items.len(),
        None => true,
    })
    &&& (match s.search_state {
        Some(i) => i < s.search_items.len(),
        None => true,
    })
    &&& (forall|i: int|
        0 <= i < s.search_items.len() ==> (match (#[trigger] s.search_items[i]).state {
            Some(j) => j < s.search_items[i].items.len(),
            None => true,
        }))
    &&& !(s.is_main_input && s.is_side_input)
}

/// A holder of the search page is selected.
pub open spec fn holder_selected(s: AppV) -> bool {
    match s.search_state {
        Some(i) => i < s.search_items.len(),
        None => false,
    }
}

/// A copy within the selected holder is selected.
pub open spec fn item_selected_v(s: AppV) -> bool {
    match s.search_state {
        Some(i) => i < s.search_items.len() && (match s.search_items[i as int].state {
            Some(j) => j < s.search_items[i as int].items.len(),
            None => false,
        }),
        None => false,
    }
}

/// The status line a finished search shows.
pub open spec fn found_message(n: nat) -> Seq<char> {
    "Found "@ + dec_rep_nat(n) + " results"@
}

/// Run the store search with the main input's text and show the result:
/// the status line counts the hits, the result list is rebuilt from
/// fresh on-screen holders, and the first hit is selected.
pub open spec fn search_step(s: AppV, pinned: Option<RecordV>) -> AppV {
    let results = search_spec(s.database, lower_spec(s.main_input), pinned);
    let items = results.map_values(|h: ItemHolderV| fresh_stateful(h));
    AppV {
        message_box: found_message(results.len()),
        search_items: items,
        search_state: spec_next(None, items.len()),
        ..s
    }
}

/// Show a web search's answer: the status line counts the hits and the
/// result list is replaced, with nothing selected.
pub open spec fn query_results_step(s: AppV, results: Seq<ReleaseV>) -> AppV {
    AppV {
        message_box: found_message(results.len()),
        query_items: results,
        query_state: None,
        ..s
    }
}

/// What the store's `update_item` reports when it fails.
pub open spec fn update_item_err_msg(hs: Seq<ItemHolderV>, rid: int) -> Seq<char> {
    if !contains_id_spec(hs, rid) {
        "No item holder matching the current record"@
    } else {
        "No item holder matching the item id"@
    }
}

/// Submit the side modal: append an event of the recorded kind, dated
/// now and carrying the modal's text, to the selected copy's log, both
/// on screen and in the store. With nothing selected, or no kind
/// recorded, nothing happens; a store lookup failure becomes the
/// status message.
pub open spec fn side_submit_step(s: AppV, ts: int) -> AppV {
    if item_selected_v(s) {
        let i = s.search_state->0 as int;
        let sh = s.search_items[i];
        let j = sh.state->0 as int;
        let it = sh.items[j];
        match it.input {
            None => s,
            Some(kind) => {
                let ev = ItemEventV { date: ts, event_type: kind, message: Some(s.side_input) };
                let it2 = StatefulItemV {
                    item: ItemV { id: it.item.id, events: it.item.events.push(ev) },
                    input: it.input,
                };
                let sh2 = StatefulItemHolderV { items: sh.items.update(j, it2), ..sh };
                let s2 = AppV { search_items: s.search_items.update(i, sh2), ..s };
                if update_item_ok_spec(s.database, sh.record.id, it2.item.id) {
                    AppV {
                        database: update_item_db_spec(s.database, sh.record.id, it2.item),
                        ..s2
                    }
                } else {
                    AppV { message_box: update_item_err_msg(s.database, sh.record.id), ..s2 }
                }
            },
        }
    } else {
        s
    }
}

/// Save the selected holder's record: one more copy in the store, the
/// on-screen holder rebuilt from the stored one with its fresh last
/// copy selected. A failure (copy id space exhausted) becomes the
/// status message.
pub open spec fn plus_step(s: AppV, ts: int) -> AppV {
    if holder_selected(s) {
        let i = s.search_state->0 as int;
        let rec = s.search_items[i].record;
        if add_ok_spec(s.database, rec) {
            let hv = add_holder_spec(s.database, rec, ts);
            let n = hv.items.len();
            let upd = StatefulItemHolderV {
                record: hv.record,
                detail_offset: 0,
                state: spec_previous(spec_previous(None, n), n),
                items: hv.items.map_values(|iv: ItemV| StatefulItemV { item: iv, input: None }),
            };
            AppV {
                database: add_db_spec(s.database, rec, ts),
                search_items: s.search_items.update(i, upd),
                message_box: "Record Saved"@,
                ..s
            }
        } else {
            AppV { message_box: "No copy id left for this record"@, ..s }
        }
    } else {
        s
    }
}

/// Remove the selected copy, from the store and from the visible list,
/// the cursor stepping back as on the shortened list.
pub open spec fn underscore_step(s: AppV) -> AppV {
    if item_selected_v(s) {
        let i = s.search_state->0 as int;
        let sh = s.search_items[i];
        let j = sh.state->0 as int;
        let sh2 = StatefulItemHolderV {
            items: sh.items.remove(j),
            state: crate::list::spec_removed_cursor(sh.state, (sh.items.len() - 1) as nat),
            ..sh
        };
        AppV {
            database: remove_item_db_spec(s.database, sh.record.id, j),
            search_items: s.search_items.update(i, sh2),
            message_box: "Item removed"@,
            ..s
        }
    } else {
        AppV { message_box: "Item not selected"@, ..s }
    }
}

/// Remove the selected holder from the store, only when it owns no
/// copy any more; otherwise, or with nothing selected, only report.
pub open spec fn minus_step(s: AppV) -> AppV {
    if holder_selected(s) {
        let i = s.search_state->0 as int;
        let sh = s.search_items[i];
        if sh.items.len() == 0 {
            AppV {
                database: remove_holder_db_spec(s.database, sh.record.id),
                message_box: "Record removed"@,
                ..s
            }
        } else {
            AppV { message_box: "Items list not empty"@, ..s }
        }
    } else {
        AppV { message_box: "Record not selected"@, ..s }
    }
}

/// Scroll the selected holder's detail text one line up, stopping at
/// the top.
pub open spec fn pageup_step(s: AppV) -> AppV {
    if holder_selected(s) {
        let i = s.search_state->0 as int;
        let sh = s.search_items[i];
        if sh.detail_offset > 0 {
            AppV {
                search_items: s.search_items.update(
                    i,
                    (StatefulItemHolderV { detail_offset: sh.detail_offset - 1, ..sh }),
                ),
                ..s
            }
        } else {
            s
        }
    } else {
        s
    }
}

/// Scroll the selected holder's detail text one line down, stopping at
/// the last line.
pub open spec fn pagedown_step(s: AppV) -> AppV {
    if holder_selected(s) {
        let i = s.search_state->0 as int;
        let sh = s.search_items[i];
        let total = record_lines_spec(sh.record).len() as int;
        if total > 0 && sh.detail_offset < total - 1 {
            AppV {
                search_items: s.search_items.update(
                    i,
                    (StatefulItemHolderV { detail_offset: sh.detail_offset + 1, ..sh }),
                ),
                ..s
            }
        } else {
            s
        }
    } else {
        s
    }
}

/// Record on the selected copy which kind of event the side modal will
/// append when submitted.
pub open spec fn modal_kind_step(s: AppV, kind: ItemEventType) -> AppV {
    if item_selected_v(s) {
        let i = s.search_state->0 as int;
        let sh = s.search_items[i];
        let j = sh.state->0 as int;
        let it = sh.items[j];
        let it2 = StatefulItemV { item: it.item, input: Some(kind) };
        let sh2 = StatefulItemHolderV { items: sh.items.update(j, it2), ..sh };
        AppV { search_items: s.search_items.update(i, sh2), ..s }
    } else {
        s
    }
}

/// One key on the search page: what changes and which intent follows.
pub open spec fn search_page_step(s: AppV, code: Key, ts: int) -> (AppV, Navigation) {
    match code {
        Key::Up => {
            if item_selected_v(s) {
                let i = s.search_state->0 as int;
                let sh = s.search_items[i];
                let sh2 = StatefulItemHolderV {
                    state: spec_previous(sh.state, sh.items.len()),
                    ..sh
                };
                (
                    AppV { search_items: s.search_items.update(i, sh2), ..s },
                    Navigation::QuitSideInput,
                )
            } else {
                (
                    AppV { search_state: spec_previous(s.search_state, s.search_items.len()), ..s },
                    Navigation::DoNotihing,
                )
            }
        },
        Key::Down => {
            if item_selected_v(s) {
                let i = s.search_state->0 as int;
                let sh = s.search_items[i];
                let sh2 = StatefulItemHolderV { state: spec_next(sh.state, sh.items.len()), ..sh };
                (
                    AppV { search_items: s.search_items.update(i, sh2), ..s },
                    Navigation::QuitSideInput,
                )
            } else {
                (
                    AppV { search_state: spec_next(s.search_state, s.search_items.len()), ..s },
                    Navigation::DoNotihing,
                )
            }
        },
        Key::Right => {
            if holder_selected(s) {
                let i = s.search_state->0 as int;
                let sh = s.search_items[i];
                let sh2 = StatefulItemHolderV { state: spec_next(sh.state, sh.items.len()), ..sh };
                (AppV { search_items: s.search_items.update(i, sh2), ..s }, Navigation::DoNotihing)
            } else {
                (s, Navigation::DoNotihing)
            }
        },
        Key::Left => {
            if holder_selected(s) {
                let i = s.search_state->0 as int;
                let sh = s.search_items[i];
                let sh2 = StatefulItemHolderV { state: None, ..sh };
                (AppV { search_items: s.search_items.update(i, sh2), ..s }, Navigation::DoNotihing)
            } else {
                (s, Navigation::DoNotihing)
            }
        },
        Key::Char(c) => {
            if c == '+' {
                (plus_step(s, ts), Navigation::DoNotihing)
            } else if c == '_' {
                (underscore_step(s), Navigation::DoNotihing)
            } else if c == '-' {
                (minus_step(s), Navigation::DoNotihing)
            } else if c == 'm' {
                if item_selected_v(s) {
                    (modal_kind_step(s, ItemEventType::Message), Navigation::EnterSideInput)
                } else {
                    (s, Navigation::DoNotihing)
                }
            } else if c == 'l' {
                if item_selected_v(s) {
                    (modal_kind_step(s, ItemEventType::Lent), Navigation::EnterSideInput)
                } else {
                    (s, Navigation::DoNotihing)
                }
            } else {
                (s, Navigation::DoNotihing)
            }
        },
        Key::PageUp => (pageup_step(s), Navigation::DoNotihing),
        Key::PageDown => (pagedown_step(s), Navigation::DoNotihing),
        Key::Enter => (s, Navigation::InputSubmit),
        _ => (s, Navigation::DoNotihing),
    }
}

/// One key on the web-search page: moving the cursor, or asking the
/// surrounding program to fetch the selected release.
pub open spec fn web_page_step(s: AppV, code: Key) -> (AppV, Navigation, Option<ActionV>) {
    match code {
        Key::Up => (
            AppV { query_state: spec_previous(s.query_state, s.query_items.len()), ..s },
            Navigation::DoNotihing,
            None,
        ),
        Key::Down => (
            AppV { query_state: spec_next(s.query_state, s.query_items.len()), ..s },
            Navigation::DoNotihing,
            None,
        ),
        Key::Enter => {
            match s.query_state {
                Some(i) => if (i as int) < s.query_items.len() {
                    (
                        s,
                        Navigation::DoNotihing,
                        Some(ActionV::FetchRelease(release_url_spec(s.query_items[i as int].id))),
                    )
                } else {
                    (
                        AppV { message_box: "Release couldn't be loaded!"@, ..s },
                        Navigation::DoNotihing,
                        None,
                    )
                },
                None => (
                    AppV { message_box: "Release couldn't be loaded!"@, ..s },
                    Navigation::DoNotihing,
                    None,
                ),
            }
        },
        _ => (s, Navigation::DoNotihing, None),
    }
}

/// One key delegated to the active page.
pub open spec fn page_step(s: AppV, code: Key, ts: int) -> (AppV, Navigation, Option<ActionV>) {
    match s.active {
        AppPages::Home => (s, Navigation::DoNotihing, None),
        AppPages::Search => {
            let r = search_page_step(s, code, ts);
            (r.0, r.1, None)
        },
        AppPages::WebSearch => web_page_step(s, code),
    }
}

/// Apply one navigation intent: every intent but `DoNotihing` first
/// clears the status line; `Quit` asks the application to exit;
/// `Combined` applies its parts in order, exits when any part does, and
/// keeps the last remote request that arises.
pub open spec fn nav_step(s: AppV, nav: Navigation, ts: int) -> (AppV, bool, Option<ActionV>)
    decreases nav,
{
    if nav is DoNotihing {
        (s, false, None)
    } else {
        let sc = AppV { message_box: Seq::empty(), ..s };
        match nav {
            Navigation::NavigatePage(p) => (AppV { active: p, ..sc }, false, None),
            Navigation::EnterInput => (
                if sc.active.show_input_spec() {
                    AppV { is_main_input: true, ..sc }
                } else {
                    sc
                },
                false,
                None,
            ),
            Navigation::EnterSideInput => (
                if item_selected_v(sc) {
                    AppV { is_side_input: true, ..sc }
                } else {
                    sc
                },
                false,
                None,
            ),
            Navigation::QuitInput => (AppV { is_main_input: false, ..sc }, false, None),
            Navigation::QuitSideInput => (AppV { is_side_input: false, ..sc }, false, None),
            Navigation::Quit => (sc, true, None),
            Navigation::InputSubmit => {
                match sc.active {
                    AppPages::Search => (search_step(sc, None), false, None),
                    AppPages::WebSearch => (
                        sc,
                        false,
                        Some(ActionV::WebQuery(query_url_spec(sc.main_input, sc.token))),
                    ),
                    AppPages::Home => (sc, false, None),
                }
            },
            Navigation::SideInputSubmit => {
                match sc.active {
                    AppPages::Search => (side_submit_step(sc, ts), false, None),
                    _ => (sc, false, None),
                }
            },
            Navigation::Combined(v) => navs_step(sc, v@, ts),
            Navigation::DoNotihing => (s, false, None),
        }
    }
}

/// Apply a list of intents in order.
pub open spec fn navs_step(s: AppV, navs: Seq<Navigation>, ts: int) -> (AppV, bool, Option<
    ActionV,
>)
    decreases navs,
{
    if navs.len() == 0 {
        (s, false, None)
    } else {
        let r1 = nav_step(s, navs[0], ts);
        let r2 = navs_step(r1.0, navs.drop_first(), ts);
        (
            r2.0,
            r1.1 || r2.1,
            if r2.2 is Some {
                r2.2
            } else {
                r1.2
            },
        )
    }
}

/// One whole input event: while a modal captures keystrokes the event
/// edits or submits that modal; otherwise the global keys switch pages,
/// open the main modal or quit, and everything else goes to the active
/// page. The results are the new state, whether to exit, and the remote
/// request to make, if any.
pub open spec fn input_step(s: AppV, event: CustomEvent<Key>, ts: int) -> (AppV, bool, Option<
    ActionV,
>) {
    match event {
        CustomEvent::Tick => (s, false, None),
        CustomEvent::Input(k) => {
            if s.is_main_input {
                match k {
                    Key::Esc => nav_step(s, Navigation::QuitInput, ts),
                    Key::Enter => {
                        let r1 = nav_step(s, Navigation::QuitInput, ts);
                        let r2 = nav_step(r1.0, Navigation::InputSubmit, ts);
                        (
                            r2.0,
                            r1.1 || r2.1,
                            if r2.2 is Some {
                                r2.2
                            } else {
                                r1.2
                            },
                        )
                    },
                    Key::Char(c) => (AppV { main_input: s.main_input.push(c), ..s }, false, None),
                    Key::Backspace => (
                        AppV {
                            main_input: if s.main_input.len() == 0 {
                                s.main_input
                            } else {
                                s.main_input.drop_last()
                            },
                            ..s
                        },
                        false,
                        None,
                    ),
                    _ => (s, false, None),
                }
            } else if s.is_side_input {
                match k {
                    Key::Esc => nav_step(s, Navigation::QuitSideInput, ts),
                    Key::Enter => {
                        let r1 = nav_step(s, Navigation::QuitSideInput, ts);
                        let r2 = nav_step(r1.0, Navigation::SideInputSubmit, ts);
                        (
                            r2.0,
                            r1.1 || r2.1,
                            if r2.2 is Some {
                                r2.2
                            } else {
                                r1.2
                            },
                        )
                    },
                    Key::Char(c) => (AppV { side_input: s.side_input.push(c), ..s }, false, None),
                    Key::Backspace => (
                        AppV {
                            side_input: if s.side_input.len() == 0 {
                                s.side_input
                            } else {
                                s.side_input.drop_last()
                            },
                            ..s
                        },
                        false,
                        None,
                    ),
                    _ => (s, false, None),
                }
            } else {
                if k == Key::Char('h') {
                    nav_step(s, Navigation::NavigatePage(AppPages::Home), ts)
                } else if k == Key::Char('w') {
                    nav_step(s, Navigation::NavigatePage(AppPages::WebSearch), ts)
                } else if k == Key::Char('s') {
                    nav_step(s, Navigation::NavigatePage(AppPages::Search), ts)
                } else if k == Key::Char('i') {
                    nav_step(s, Navigation::EnterInput, ts)
                } else if k == Key::Char('q') {
                    nav_step(s, Navigation::Quit, ts)
                } else {
                    let p = page_step(s, k, ts);
                    let r = nav_step(p.0, p.1, ts);
                    (
                        r.0,
                        r.1,
                        if r.2 is Some {
                            r.2
                        } else {
                            p.2
                        },
                    )
                }
            }
        },
    }
}

/// Whether a concrete pending request matches its abstract shape.
pub open spec fn action_matches(a: Option<RemoteAction>, av: Option<ActionV>) -> bool {
    match (a, av) {
        (None, None) => true,
        (Some(RemoteAction::WebQuery(u)), Some(ActionV::WebQuery(uv))) => u@ == uv,
        (Some(RemoteAction::FetchRelease(u)), Some(ActionV::FetchRelease(uv))) => u@ == uv,
        _ => false,
    }
}

/// Opening a modal is only asked for while the other modal is closed:
/// what keeps the two capture flags mutually exclusive.
pub open spec fn nav_enter_ok(s: AppV, nav: Navigation) -> bool {
    match nav {
        Navigation::EnterInput => !s.is_side_input,
        Navigation::EnterSideInput => !s.is_main_input,
        _ => true,
    }
}

/// The intent shapes the input handler can produce: a plain intent, or
/// one of the two modal submit pairs.
pub open spec fn wf_nav(nav: Navigation) -> bool {
    match nav {
        Navigation::Combined(v) => v@ == seq![Navigation::QuitInput, Navigation::InputSubmit] || v@
            == seq![Navigation::QuitSideInput, Navigation::SideInputSubmit],
        _ => true,
    }
}

/// Relies on `String::push`: appends exactly the one character.
#[verifier::external_body]
fn push_char(s: &mut String, c: char)
    ensures
        final(s)@ == old(s)@.push(c),
{
    s.push(c);
}

/// Relies on `String::pop`: removes and returns the last character of a
/// nonempty string and leaves an empty one unchanged.
#[verifier::external_body]
fn pop_char(s: &mut String) -> (r: Option<char>)
    ensures
        old(s)@.len() == 0 ==> final(s)@ == old(s)@ && r is None,
        old(s)@.len() > 0 ==> final(s)@ == old(s)@.drop_last() && r == Some(old(s)@.last()),
{
    s.pop()
}

/// The status line a finished search shows, as a string.
fn found_message_string(n: usize) -> (r: String)
    ensures
        r@ == found_message(n as nat),
{
    let mut out = String::from_str("Found ");
    let mut digits: Vec<char> = Vec::new();
    push_u64(&mut digits, n as u64);
    out.append(chars_to_string(digits).as_str());
    out.append(" results");
    proof {
        assert(out@ =~= found_message(n as nat));
    }
    out
}

impl Search {
    /// Whether a copy within the selected holder is selected.
    pub open spec fn item_selected_spec(&self) -> bool {
        match self.list.state {
            Some(i) => i < self.list.items@.len() && (match self.list.items@[i as int].list.state {
                Some(j) => j < self.list.items@[i as int].list.items@.len(),
                None => false,
            }),
            None => false,
        }
    }

    /// An empty search page: no results, nothing selected.
    pub fn empty() -> (r: Search)
        ensures
            r.list.items@.len() == 0,
            r.list.state is None,
    {
        Search { list: StatefulList::with_items(Vec::new()) }
    }

    /// The selected holder, if any.
    pub fn get_selected_item_holder(&self) -> (r: Option<&StatefulItemHolder>)
        requires
            self.list.wf(),
        ensures
            match self.list.state {
                Some(i) => r matches Some(h) && h == &self.list.items[i as int],
                None => r is None,
            },
    {
        self.list.selected()
    }

    /// Whether a copy within the selected holder is selected.
    pub fn is_item_selected(&self) -> (r: bool)
        requires
            self.list.wf(),
        ensures
            r == self.item_selected_spec(),
    {
        match self.list.state {
            Some(i) => {
                match self.list.items[i].list.state {
                    Some(j) => j < self.list.items[i].list.items.len(),
                    None => false,
                }
            },
            None => false,
        }
    }
}

impl App {
    /// A fresh application over an already-loaded store: the home page
    /// active, no modal open, no message, nothing searched yet.
    pub fn new(settings: Settings, database: Database) -> (r: App)
        requires
            db_wf(database@),
        ensures
            r.v() == (AppV {
                active: AppPages::Home,
                is_main_input: false,
                main_input: Seq::<char>::empty(),
                is_side_input: false,
                side_input: Seq::<char>::empty(),
                database: database@,
                token: settings.discogs_key@,
                message_box: Seq::<char>::empty(),
                query_state: None,
                query_items: Seq::<ReleaseV>::empty(),
                search_state: None,
                search_items: Seq::<StatefulItemHolderV>::empty(),
            }),
            r.pages@ == seq![AppPages::Home, AppPages::Search, AppPages::WebSearch],
            wf_v(r.v()),
    {
        let discogs_client = DiscogsClient::new(settings.discogs_key.as_str());
        let mut pages: Vec<AppPages> = Vec::new();
        pages.push(AppPages::Home);
        pages.push(AppPages::Search);
        pages.push(AppPages::WebSearch);
        proof {
            assert(pages@ =~= seq![AppPages::Home, AppPages::Search, AppPages::WebSearch]);
        }
        let r = App {
            pages,
            active: AppPages::Home,
            database,
            discogs_client,
            is_main_input: false,
            main_input: String::new(),
            is_side_input: false,
            side_input: String::new(),
            query_results: StatefulList::with_items(Vec::new()),
            message_box: String::new(),
            search: Search::empty(),
        };
        proof {
            assert(r.v() =~= (AppV {
                active: AppPages::Home,
                is_main_input: false,
                main_input: Seq::<char>::empty(),
                is_side_input: false,
                side_input: Seq::<char>::empty(),
                database: database@,
                token: settings.discogs_key@,
                message_box: Seq::<char>::empty(),
                query_state: None,
                query_items: Seq::<ReleaseV>::empty(),
                search_state: None,
                search_items: Seq::<StatefulItemHolderV>::empty(),
            }));
        }
        r
    }

    /// Run the store search with the main input's text, optionally
    /// pinning a record's holder to the front, and show the result.
    pub fn search(&mut self, item_holder: Option<Record>)
        requires
            wf_v(old(self).v()),
        ensures
            wf_v(final(self).v()),
            final(self).pages@ == old(self).pages@,
            final(self).v() == search_step(
                old(self).v(),
                match item_holder {
                    None => None,
                    Some(rec) => Some(rec.deep_view()),
                },
            ),
    {
        let ghost s0 = self.v();
        let ghost pinned = match item_holder {
            None => None,
            Some(ref rec) => Some(rec.deep_view()),
        };
        let q = self.main_input.clone();
        let results = self.database.search(q.as_str(), item_holder);
        let ghost results_v = results.deep_view();
        proof {
            assert(results_v == search_spec(s0.database, lower_spec(s0.main_input), pinned));
        }
        self.message_box = found_message_string(results.len());
        let mut stateful: Vec<StatefulItemHolder> = Vec::new();
        let mut i: usize = 0;
        let n = results.len();
        while i < n
            invariant
                i <= n,
                n == results@.len(),
                results_v == results.deep_view(),
                results_v.len() == n,
                stateful@.len() == i,
                forall|k: int|
                    0 <= k < i ==> (#[trigger] stateful@[k]).deep_view() == fresh_stateful(
                        results_v[k],
                    ),
            decreases n - i,
        {
            proof {
                assert(results_v[i as int] == results@[i as int].deep_view());
            }
            let sh = results[i].duplicate().to_stateful();
            proof {
                assert(sh.deep_view().items =~= fresh_stateful(results_v[i as int]).items);
                assert(sh.deep_view() =~= fresh_stateful(results_v[i as int]));
            }
            stateful.push(sh);
            i += 1;
        }
        self.search.list = StatefulList::with_items(stateful);
        self.search.list.next();
        proof {
            assert(self.v().search_items =~~= results_v.map_values(
                |h: ItemHolderV| fresh_stateful(h),
            ));
            assert(self.v() =~= search_step(s0, pinned));
        }
    }

    /// The remote query the main input's text asks for: the request the
    /// surrounding program must now make.
    pub fn web_search(&self) -> (r: RemoteAction)
        ensures
            r matches RemoteAction::WebQuery(u) && u@ == query_url_spec(
                self.main_input@,
                self.discogs_client@,
            ),
    {
        RemoteAction::WebQuery(self.discogs_client.query_url(self.main_input.as_str()))
    }

    /// The identity of the release selected in the web-search results,
    /// or a failure when nothing is selected.
    pub fn select_release_from_web_search(&self) -> (r: Result<i64, AppError>)
        requires
            wf_v(self.v()),
        ensures
            match self.query_results.state {
                Some(i) => r matches Ok(id) && id as int == self.v().query_items[i as int].id,
                None => r matches Err(e) && e.0@ == "No release"@,
            },
    {
        match self.query_results.state {
            Some(i) => {
                proof {
                    assert(self.v().query_items[i as int]
                        == self.query_results.items@[i as int].deep_view());
                }
                Ok(self.query_results.items[i].id)
            },
            None => Err(AppError(String::from_str("No release"))),
        }
    }

    /// Show a web search's answer.
    pub fn apply_query_results(&mut self, results: Vec<DiscogsSearchResultRelease>)
        requires
            wf_v(old(self).v()),
        ensures
            wf_v(final(self).v()),
            final(self).pages@ == old(self).pages@,
            final(self).v() == query_results_step(old(self).v(), results.deep_view()),
    {
        let ghost s0 = self.v();
        self.message_box = found_message_string(results.len());
        self.query_results = StatefulList::with_items(results);
        proof {
            assert(self.v() =~= query_results_step(s0, results.deep_view()));
        }
    }

    /// Report that the remote query could not be answered.
    pub fn apply_web_search_failure(&mut self)
        requires
            wf_v(old(self).v()),
        ensures
            wf_v(final(self).v()),
            final(self).pages@ == old(self).pages@,
            final(self).v() == (AppV { message_box: "Web search failed"@, ..old(self).v() }),
    {
        self.message_box = String::from_str("Web search failed");
        proof {
            assert(self.v() =~= (AppV { message_box: "Web search failed"@, ..old(self).v() }));
        }
    }

    /// Seed the search page with a just-fetched record pinned first and
    /// switch to it: what selecting a web-search result leads to once
    /// the record has arrived.
    pub fn apply_release(&mut self, record: Record)
        requires
            wf_v(old(self).v()),
        ensures
            wf_v(final(self).v()),
            final(self).pages@ == old(self).pages@,
            final(self).v() == (AppV {
                message_box: Seq::<char>::empty(),
                active: AppPages::Search,
                ..search_step(old(self).v(), Some(record.deep_view()))
            }),
    {
        let ghost s0 = self.v();
        self.search(Some(record));
        self.message_box = String::new();
        self.active = AppPages::Search;
        proof {
            assert(self.v() =~= (AppV {
                message_box: Seq::<char>::empty(),
                active: AppPages::Search,
                ..search_step(s0, Some(record.deep_view()))
            }));
        }
    }

    /// Report that the selected release could not be fetched.
    pub fn apply_release_failure(&mut self)
        requires
            wf_v(old(self).v()),
        ensures
            wf_v(final(self).v()),
            final(self).pages@ == old(self).pages@,
            final(self).v() == (AppV {
                message_box: "Release couldn't be loaded!"@,
                ..old(self).v()
            }),
    {
        self.message_box = String::from_str("Release couldn't be loaded!");
        proof {
            assert(self.v() =~= (AppV {
                message_box: "Release couldn't be loaded!"@,
                ..old(self).v()
            }));
        }
    }
}

impl App {
    /// One key on the search page: move the cursors, save or remove
    /// copies and holders, scroll the detail text, or open the side
    /// modal; the returned intent is applied by the caller.
    pub fn handle_search_input(&mut self, code: Key) -> (r: Navigation)
        requires
            wf_v(old(self).v()),
        ensures
            wf_v(final(self).v()),
            final(self).pages@ == old(self).pages@,
            final(self).v().is_main_input == old(self).v().is_main_input,
            final(self).v().is_side_input == old(self).v().is_side_input,
            !(r is SideInputSubmit),
            !(r is Combined),
            exists|ts: int|
                #![trigger search_page_step(old(self).v(), code, ts)]
                {
                    let st = search_page_step(old(self).v(), code, ts);
                    final(self).v() == st.0 && r == st.1
                },
    {
        let ghost s0 = self.v();
        match code {
            Key::Up => {
                let nav = self.search_cursor_vertical(true);
                proof {
                    let st = search_page_step(s0, code, 0);
                    assert(self.v() == st.0 && nav == st.1);
                }
                nav
            },
            Key::Down => {
                let nav = self.search_cursor_vertical(false);
                proof {
                    let st = search_page_step(s0, code, 0);
                    assert(self.v() == st.0 && nav == st.1);
                }
                nav
            },
            Key::Right => {
                self.search_cursor_enter_items();
                proof {
                    let st = search_page_step(s0, code, 0);
                    assert(self.v() == st.0 && Navigation::DoNotihing == st.1);
                }
                Navigation::DoNotihing
            },
            Key::Left => {
                self.search_cursor_leave_items();
                proof {
                    let st = search_page_step(s0, code, 0);
                    assert(self.v() == st.0 && Navigation::DoNotihing == st.1);
                }
                Navigation::DoNotihing
            },
            Key::PageUp => {
                self.scroll_detail_up();
                proof {
                    let st = search_page_step(s0, code, 0);
                    assert(self.v() == st.0 && Navigation::DoNotihing == st.1);
                }
                Navigation::DoNotihing
            },
            Key::PageDown => {
                self.scroll_detail_down();
                proof {
                    let st = search_page_step(s0, code, 0);
                    assert(self.v() == st.0 && Navigation::DoNotihing == st.1);
                }
                Navigation::DoNotihing
            },
            Key::Enter => {
                proof {
                    let st = search_page_step(s0, code, 0);
                    assert(self.v() == st.0 && Navigation::InputSubmit == st.1);
                }
                Navigation::InputSubmit
            },
            Key::Char(c) => {
                if c == '+' {
                    self.save_selected_record();
                    proof {
                        let ts = choose|ts: int|
                            self.v() == #[trigger] plus_step(s0, ts);
                        let st = search_page_step(s0, code, ts);
                        assert(self.v() == st.0 && Navigation::DoNotihing == st.1);
                    }
                    Navigation::DoNotihing
                } else if c == '_' {
                    self.remove_selected_item();
                    proof {
                        let st = search_page_step(s0, code, 0);
                        assert(self.v() == st.0 && Navigation::DoNotihing == st.1);
                    }
                    Navigation::DoNotihing
                } else if c == '-' {
                    self.remove_selected_holder();
                    proof {
                        let st = search_page_step(s0, code, 0);
                        assert(self.v() == st.0 && Navigation::DoNotihing == st.1);
                    }
                    Navigation::DoNotihing
                } else if c == 'm' {
                    let nav = self.mark_selected_item(ItemEventType::Message);
                    proof {
                        let st = search_page_step(s0, code, 0);
                        assert(self.v() == st.0 && nav == st.1);
                    }
                    nav
                } else if c == 'l' {
                    let nav = self.mark_selected_item(ItemEventType::Lent);
                    proof {
                        let st = search_page_step(s0, code, 0);
                        assert(self.v() == st.0 && nav == st.1);
                    }
                    nav
                } else {
                    proof {
                        let st = search_page_step(s0, code, 0);
                        assert(self.v() =~= st.0);
                    }
                    Navigation::DoNotihing
                }
            },
            _ => {
                proof {
                    let st = search_page_step(s0, code, 0);
                    assert(self.v() =~= st.0);
                }
                Navigation::DoNotihing
            },
        }
    }

    /// Step the selection: within the selected holder's copies when one
    /// of them is selected (closing the side modal), over the holders
    /// otherwise.
    fn search_cursor_vertical(&mut self, up: bool) -> (r: Navigation)
        requires
            wf_v(old(self).v()),
        ensures
            wf_v(final(self).v()),
            final(self).pages@ == old(self).pages@,
            ({
                let st = search_page_step(
                    old(self).v(),
                    if up {
                        Key::Up
                    } else {
                        Key::Down
                    },
                    0,
                );
                final(self).v() == st.0 && r == st.1
            }),
    {
        let ghost s0 = self.v();
        let ghost code = if up { Key::Up } else { Key::Down };
        let nav = match self.search.list.state {
            Some(i) => {
                proof {
                    assert(s0.search_items[i as int]
                        == self.search.list.items@[i as int].deep_view());
                }
                if self.search.list.items[i].list.state.is_some() {
                    let mut sh = self.search.list.items.remove(i);
                    if up {
                        sh.list.previous();
                    } else {
                        sh.list.next();
                    }
                    self.search.list.items.insert(i, sh);
                    Navigation::QuitSideInput
                } else {
                    if up {
                        self.search.list.previous();
                    } else {
                        self.search.list.next();
                    }
                    Navigation::DoNotihing
                }
            },
            None => {
                if up {
                    self.search.list.previous();
                } else {
                    self.search.list.next();
                }
                Navigation::DoNotihing
            },
        };
        proof {
            let st = search_page_step(s0, code, 0);
            assert(self.v().search_items =~~= st.0.search_items);
            assert(self.v() =~= st.0);
        }
        nav
    }

    /// Select the first copy of the selected holder, or step within its
    /// copies.
    fn search_cursor_enter_items(&mut self)
        requires
            wf_v(old(self).v()),
        ensures
            wf_v(final(self).v()),
            final(self).pages@ == old(self).pages@,
            final(self).v() == search_page_step(old(self).v(), Key::Right, 0).0,
    {
        let ghost s0 = self.v();
        match self.search.list.state {
            Some(i) => {
                proof {
                    assert(s0.search_items[i as int]
                        == self.search.list.items@[i as int].deep_view());
                }
                let mut sh = self.search.list.items.remove(i);
                sh.list.next();
                self.search.list.items.insert(i, sh);
            },
            None => {
            },
        }
        proof {
            let st = search_page_step(s0, Key::Right, 0);
            assert(self.v().search_items =~~= st.0.search_items);
            assert(self.v() =~= st.0);
        }
    }

    /// Leave the selected holder's copies: nothing inside it selected.
    fn search_cursor_leave_items(&mut self)
        requires
            wf_v(old(self).v()),
        ensures
            wf_v(final(self).v()),
            final(self).pages@ == old(self).pages@,
            final(self).v() == search_page_step(old(self).v(), Key::Left, 0).0,
    {
        let ghost s0 = self.v();
        match self.search.list.state {
            Some(i) => {
                proof {
                    assert(s0.search_items[i as int]
                        == self.search.list.items@[i as int].deep_view());
                }
                let mut sh = self.search.list.items.remove(i);
                sh.list.unselect();
                self.search.list.items.insert(i, sh);
            },
            None => {
            },
        }
        proof {
            let st = search_page_step(s0, Key::Left, 0);
            assert(self.v().search_items =~~= st.0.search_items);
            assert(self.v() =~= st.0);
        }
    }

    /// Scroll the selected holder's detail text one line up.
    fn scroll_detail_up(&mut self)
        requires
            wf_v(old(self).v()),
        ensures
            wf_v(final(self).v()),
            final(self).pages@ == old(self).pages@,
            final(self).v() == search_page_step(old(self).v(), Key::PageUp, 0).0,
    {
        let ghost s0 = self.v();
        match self.search.list.state {
            Some(i) => {
                proof {
                    assert(s0.search_items[i as int]
                        == self.search.list.items@[i as int].deep_view());
                }
                if self.search.list.items[i].detail_offset > 0 {
                    let mut sh = self.search.list.items.remove(i);
                    sh.detail_offset = sh.detail_offset - 1;
                    self.search.list.items.insert(i, sh);
                }
            },
            None => {
            },
        }
        proof {
            let st = search_page_step(s0, Key::PageUp, 0);
            assert(self.v().search_items =~~= st.0.search_items);
            assert(self.v() =~= st.0);
        }
    }

    /// Scroll the selected holder's detail text one line down.
    fn scroll_detail_down(&mut self)
        requires
            wf_v(old(self).v()),
        ensures
            wf_v(final(self).v()),
            final(self).pages@ == old(self).pages@,
            final(self).v() == search_page_step(old(self).v(), Key::PageDown, 0).0,
    {
        let ghost s0 = self.v();
        match self.search.list.state {
            Some(i) => {
                proof {
                    assert(s0.search_items[i as int]
                        == self.search.list.items@[i as int].deep_view());
                }
                let total = self.search.list.items[i].record.get_lines().len();
                proof {
                    assert(total as int == record_lines_spec(
                        s0.search_items[i as int].record,
                    ).len());
                }
                if total > 0 && self.search.list.items[i].detail_offset < total - 1 {
                    let mut sh = self.search.list.items.remove(i);
                    sh.detail_offset = sh.detail_offset + 1;
                    self.search.list.items.insert(i, sh);
                }
            },
            None => {
            },
        }
        proof {
            let st = search_page_step(s0, Key::PageDown, 0);
            assert(self.v().search_items =~~= st.0.search_items);
            assert(self.v() =~= st.0);
        }
    }

    /// Save the selected holder's record: one more copy in the store,
    /// the on-screen holder rebuilt from the stored one.
    fn save_selected_record(&mut self)
        requires
            wf_v(old(self).v()),
        ensures
            wf_v(final(self).v()),
            final(self).pages@ == old(self).pages@,
            exists|ts: int| final(self).v() == #[trigger] plus_step(old(self).v(), ts),
    {
        let ghost s0 = self.v();
        match self.search.list.state {
            Some(i) => {
                proof {
                    assert(s0.search_items[i as int]
                        == self.search.list.items@[i as int].deep_view());
                }
                let rec = self.search.list.items[i].record.duplicate();
                let ghost recv = rec.deep_view();
                match self.database.add(rec) {
                    Ok(holder) => {
                        let ghost hv = holder.deep_view();
                        let ghost ts = hv.items.last().events[0].date;
                        proof {
                            let hs = s0.database;
                            if !contains_id_spec(hs, recv.id) {
                                assert(hv.items[0] =~~= crate::database::new_item_at(0, ts));
                                assert(hv.items =~~= add_holder_spec(hs, recv, ts).items);
                                assert(hv =~~= add_holder_spec(hs, recv, ts));
                                assert(self.v().database =~~= add_db_spec(hs, recv, ts));
                            } else {
                                let k = idx_of(hs, recv.id);
                                assert(hv.items.last() =~~= crate::database::new_item_at(
                                    hs[k].next_copy_id(),
                                    ts,
                                ));
                                assert(hv.items =~~= hs[k].items.push(
                                    crate::database::new_item_at(hs[k].next_copy_id(), ts),
                                ));
                                assert(hv =~~= add_holder_spec(hs, recv, ts));
                                assert(self.v().database =~~= add_db_spec(hs, recv, ts));
                            }
                        }
                        let mut updated = holder.to_stateful();
                        updated.list.previous();
                        updated.list.previous();
                        self.message_box = String::from_str("Record Saved");
                        proof {
                            assert(updated.deep_view().items =~~= hv.items.map_values(
                                |iv: ItemV| StatefulItemV { item: iv, input: None },
                            ));
                        }
                        self.search.list.update_selected(updated);
                        proof {
                            let st = plus_step(s0, ts);
                            assert(self.v().search_items =~~= st.search_items);
                            assert(self.v() =~= st);
                        }
                    },
                    Err(e) => {
                        self.message_box = e.0;
                        proof {
                            let st = plus_step(s0, 0);
                            assert(self.v() =~= st);
                        }
                    },
                }
            },
            None => {
                proof {
                    assert(self.v() =~= plus_step(s0, 0));
                }
            },
        }
    }

    /// Remove the selected copy, from the store and from the visible
    /// list.
    fn remove_selected_item(&mut self)
        requires
            wf_v(old(self).v()),
        ensures
            wf_v(final(self).v()),
            final(self).pages@ == old(self).pages@,
            final(self).v() == underscore_step(old(self).v()),
    {
        let ghost s0 = self.v();
        let selected = self.search.is_item_selected();
        if selected {
            let i = match self.search.list.state {
                Some(i) => i,
                None => 0,
            };
            proof {
                assert(s0.search_items[i as int] == self.search.list.items@[i as int].deep_view());
            }
            let mut sh = self.search.list.items.remove(i);
            let j = match sh.list.state {
                Some(j) => j,
                None => 0,
            };
            let res = self.database.remove_holder_item(&sh.record, j);
            proof {
                assert(res is Ok);
                assert(self.v().database =~~= remove_item_db_spec(
                    s0.database,
                    s0.search_items[i as int].record.id,
                    j as int,
                ));
            }
            sh.list.remove_at_index(j);
            self.search.list.items.insert(i, sh);
            self.message_box = String::from_str("Item removed");
            proof {
                let st = underscore_step(s0);
                assert(self.v().search_items =~~= st.search_items);
                assert(self.v() =~= st);
            }
        } else {
            self.message_box = String::from_str("Item not selected");
            proof {
                assert(self.v() =~= underscore_step(s0));
            }
        }
    }

    /// Remove the selected holder from the store, only when it owns no
    /// copy any more.
    fn remove_selected_holder(&mut self)
        requires
            wf_v(old(self).v()),
        ensures
            wf_v(final(self).v()),
            final(self).pages@ == old(self).pages@,
            final(self).v() == minus_step(old(self).v()),
    {
        let ghost s0 = self.v();
        match self.search.list.state {
            Some(i) => {
                proof {
                    assert(s0.search_items[i as int]
                        == self.search.list.items@[i as int].deep_view());
                }
                if self.search.list.items[i].list.items.len() == 0 {
                    let rec = self.search.list.items[i].record.duplicate();
                    let res = self.database.remove_holder(&rec);
                    self.message_box = String::from_str("Record removed");
                    proof {
                        assert(res is Ok);
                        assert(self.v() =~= minus_step(s0));
                    }
                } else {
                    self.message_box = String::from_str("Items list not empty");
                    proof {
                        assert(self.v() =~= minus_step(s0));
                    }
                }
            },
            None => {
                self.message_box = String::from_str("Record not selected");
                proof {
                    assert(self.v() =~= minus_step(s0));
                }
            },
        }
    }

    /// Record on the selected copy which kind of event the side modal
    /// will append, and open the side modal if a copy is selected.
    fn mark_selected_item(&mut self, kind: ItemEventType) -> (r: Navigation)
        requires
            wf_v(old(self).v()),
        ensures
            wf_v(final(self).v()),
            final(self).pages@ == old(self).pages@,
            final(self).v() == modal_kind_step(old(self).v(), kind),
            r == (if item_selected_v(old(self).v()) {
                Navigation::EnterSideInput
            } else {
                Navigation::DoNotihing
            }),
    {
        let ghost s0 = self.v();
        let selected = self.search.is_item_selected();
        if selected {
            let i = match self.search.list.state {
                Some(i) => i,
                None => 0,
            };
            proof {
                assert(s0.search_items[i as int] == self.search.list.items@[i as int].deep_view());
            }
            let mut sh = self.search.list.items.remove(i);
            let j = match sh.list.state {
                Some(j) => j,
                None => 0,
            };
            let it = sh.list.items.remove(j);
            let it2 = StatefulItem { item: it.item, input: Some(kind) };
            sh.list.items.insert(j, it2);
            self.search.list.items.insert(i, sh);
            proof {
                let st = modal_kind_step(s0, kind);
                assert(self.v().search_items =~~= st.search_items);
                assert(self.v() =~= st);
            }
            Navigation::EnterSideInput
        } else {
            proof {
                assert(self.v() =~= modal_kind_step(s0, kind));
            }
            Navigation::DoNotihing
        }
    }

    /// One key on the web-search page: move the result cursor, or ask
    /// for the selected release to be fetched.
    pub fn handle_web_search_input(&mut self, code: Key) -> (r: (Navigation, Option<RemoteAction>))
        requires
            wf_v(old(self).v()),
        ensures
            wf_v(final(self).v()),
            final(self).pages@ == old(self).pages@,
            final(self).v().is_main_input == old(self).v().is_main_input,
            final(self).v().is_side_input == old(self).v().is_side_input,
            ({
                let st = web_page_step(old(self).v(), code);
                final(self).v() == st.0 && r.0 == st.1 && action_matches(r.1, st.2)
            }),
    {
        let ghost s0 = self.v();
        match code {
            Key::Up => {
                self.query_results.previous();
                proof {
                    assert(self.v() =~= web_page_step(s0, code).0);
                }
                (Navigation::DoNotihing, None)
            },
            Key::Down => {
                self.query_results.next();
                proof {
                    assert(self.v() =~= web_page_step(s0, code).0);
                }
                (Navigation::DoNotihing, None)
            },
            Key::Enter => {
                match self.select_release_from_web_search() {
                    Ok(id) => {
                        let url = self.discogs_client.release_url(id);
                        proof {
                            assert(self.v() =~= web_page_step(s0, code).0);
                        }
                        (Navigation::DoNotihing, Some(RemoteAction::FetchRelease(url)))
                    },
                    Err(_) => {
                        self.message_box = String::from_str("Release couldn't be loaded!");
                        proof {
                            assert(self.v() =~= web_page_step(s0, code).0);
                        }
                        (Navigation::DoNotihing, None)
                    },
                }
            },
            _ => {
                proof {
                    assert(self.v() =~= web_page_step(s0, code).0);
                }
                (Navigation::DoNotihing, None)
            },
        }
    }

    /// One key delegated to whichever page is active.
    pub fn handle_page_specific_input(&mut self, code: Key) -> (r: (
        Navigation,
        Option<RemoteAction>,
    ))
        requires
            wf_v(old(self).v()),
        ensures
            wf_v(final(self).v()),
            final(self).pages@ == old(self).pages@,
            final(self).v().is_main_input == old(self).v().is_main_input,
            final(self).v().is_side_input == old(self).v().is_side_input,
            !(r.0 is SideInputSubmit),
            !(r.0 is Combined),
            exists|ts: int|
                #![trigger page_step(old(self).v(), code, ts)]
                {
                    let st = page_step(old(self).v(), code, ts);
                    final(self).v() == st.0 && r.0 == st.1 && action_matches(r.1, st.2)
                },
    {
        let ghost s0 = self.v();
        match self.active {
            AppPages::Home => {
                proof {
                    let st = page_step(s0, code, 0);
                    assert(self.v() == st.0);
                }
                (Navigation::DoNotihing, None)
            },
            AppPages::Search => {
                let nav = self.handle_search_input(code);
                proof {
                    let ts = choose|ts: int|
                        #![trigger search_page_step(s0, code, ts)]
                        {
                            let st = search_page_step(s0, code, ts);
                            self.v() == st.0 && nav == st.1
                        };
                    assert({
                        let st = page_step(s0, code, ts);
                        self.v() == st.0 && nav == st.1 && st.2 is None
                    });
                }
                (nav, None)
            },
            AppPages::WebSearch => {
                let r = self.handle_web_search_input(code);
                proof {
                    assert({
                        let st = page_step(s0, code, 0);
                        self.v() == st.0 && r.0 == st.1 && action_matches(r.1, st.2)
                    });
                }
                r
            },
        }
    }
}


/// Applying a two-part combination is applying its parts in order.
pub proof fn lemma_navs_step_pair(s: AppV, a: Navigation, b: Navigation, ts: int)
    ensures
        navs_step(s, seq![a, b], ts) == ({
            let r1 = nav_step(s, a, ts);
            let r2 = nav_step(r1.0, b, ts);
            (
                r2.0,
                r1.1 || r2.1,
                if r2.2 is Some {
                    r2.2
                } else {
                    r1.2
                },
            )
        }),
{
    let pair = seq![a, b];
    assert(pair[0] == a);
    assert(pair.drop_first() =~= seq![b]);
    let r1 = nav_step(s, a, ts);
    let tail = seq![b];
    assert(tail[0] == b);
    assert(tail.drop_first() =~= Seq::<Navigation>::empty());
    let r2 = nav_step(r1.0, b, ts);
    assert(navs_step(r2.0, Seq::<Navigation>::empty(), ts) == (r2.0, false, None::<ActionV>));
    assert(navs_step(r1.0, tail, ts) == (
        r2.0,
        r2.1,
        if r2.2 is Some {
            r2.2
        } else {
            None
        },
    ));
    assert(navs_step(s, pair, ts) == ({
        let x2 = navs_step(r1.0, tail, ts);
        (
            x2.0,
            r1.1 || x2.1,
            if x2.2 is Some {
                x2.2
            } else {
                r1.2
            },
        )
    }));
}

/// Applying an intent that is neither a side-modal submit nor a
/// combination does not read the clock.
pub proof fn lemma_nav_step_ts(s: AppV, nav: Navigation, t1: int, t2: int)
    requires
        !(nav is SideInputSubmit),
        !(nav is Combined),
    ensures
        nav_step(s, nav, t1) == nav_step(s, nav, t2),
{
}

impl App {
    /// Submit the side modal: append an event of the recorded kind to
    /// the selected copy's log, on screen and in the store.
    fn submit_side(&mut self)
        requires
            wf_v(old(self).v()),
        ensures
            wf_v(final(self).v()),
            final(self).pages@ == old(self).pages@,
            exists|ts: int| final(self).v() == #[trigger] side_submit_step(old(self).v(), ts),
    {
        let ghost s0 = self.v();
        let selected = self.search.is_item_selected();
        if selected {
            let i = match self.search.list.state {
                Some(i) => i,
                None => 0,
            };
            proof {
                assert(s0.search_items[i as int] == self.search.list.items@[i as int].deep_view());
            }
            let mut sh = self.search.list.items.remove(i);
            let j = match sh.list.state {
                Some(j) => j,
                None => 0,
            };
            let mut it = sh.list.items.remove(j);
            match it.input {
                None => {
                    sh.list.items.insert(j, it);
                    self.search.list.items.insert(i, sh);
                    proof {
                        assert(self.v().search_items =~~= s0.search_items);
                        assert(self.v() =~= side_submit_step(s0, 0));
                    }
                },
                Some(kind) => {
                    let ev = ItemEvent::with_message(kind, self.side_input.clone());
                    let ghost ts = ev.deep_view().date;
                    it.item.events.push(ev);
                    let item_for_db = it.item.duplicate();
                    sh.list.items.insert(j, it);
                    let res = self.database.update_item(&sh.record, item_for_db);
                    self.search.list.items.insert(i, sh);
                    match res {
                        Ok(_) => {
                        },
                        Err(e) => {
                            self.message_box = e.0;
                        },
                    }
                    proof {
                        let st = side_submit_step(s0, ts);
                        assert(self.v().search_items =~~= st.search_items);
                        assert(self.v().database =~~= st.database);
                        assert(self.v() =~= st);
                    }
                },
            }
        } else {
            proof {
                assert(self.v() =~= side_submit_step(s0, 0));
            }
        }
    }

    /// Apply one navigation intent. Every intent but `DoNotihing`
    /// clears the status line first; the results say whether to exit
    /// and which remote request to make.
    fn navigation(&mut self, nav: Navigation) -> (r: (bool, Option<RemoteAction>))
        requires
            wf_v(old(self).v()),
            wf_nav(nav),
            nav_enter_ok(old(self).v(), nav),
        ensures
            wf_v(final(self).v()),
            final(self).pages@ == old(self).pages@,
            exists|ts: int|
                #![trigger nav_step(old(self).v(), nav, ts)]
                {
                    let st = nav_step(old(self).v(), nav, ts);
                    final(self).v() == st.0 && r.0 == st.1 && action_matches(r.1, st.2)
                },
        decreases nav,
    {
        let ghost s0 = self.v();
        let ghost nav0 = nav;
        if let Navigation::DoNotihing = nav {
            proof {
                assert(nav_step(s0, nav0, 0).0 == s0);
            }
            return (false, None);
        }
        self.message_box = String::new();
        let ghost sc = self.v();
        proof {
            assert(sc =~= (AppV { message_box: Seq::<char>::empty(), ..s0 }));
        }
        match nav {
            Navigation::NavigatePage(page) => {
                self.active = page;
                proof {
                    assert(self.v() =~= nav_step(s0, nav0, 0).0);
                }
                (false, None)
            },
            Navigation::EnterInput => {
                if self.active.show_input() {
                    self.is_main_input = true;
                }
                proof {
                    assert(self.v() =~= nav_step(s0, nav0, 0).0);
                }
                (false, None)
            },
            Navigation::EnterSideInput => {
                let sel = self.search.is_item_selected();
                proof {
                    if sel {
                        let i = sc.search_state->0 as int;
                        assert(sc.search_items[i] == self.search.list.items@[i].deep_view());
                    }
                    assert(sel == item_selected_v(sc));
                }
                if sel {
                    self.is_side_input = true;
                }
                proof {
                    assert(self.v() =~= nav_step(s0, nav0, 0).0);
                }
                (false, None)
            },
            Navigation::QuitInput => {
                self.is_main_input = false;
                proof {
                    assert(self.v() =~= nav_step(s0, nav0, 0).0);
                }
                (false, None)
            },
            Navigation::QuitSideInput => {
                self.is_side_input = false;
                proof {
                    assert(self.v() =~= nav_step(s0, nav0, 0).0);
                }
                (false, None)
            },
            Navigation::Quit => {
                proof {
                    assert(self.v() =~= nav_step(s0, nav0, 0).0);
                }
                (true, None)
            },
            Navigation::InputSubmit => {
                match self.active {
                    AppPages::Search => {
                        self.search(None);
                        proof {
                            assert(self.v() == nav_step(s0, nav0, 0).0);
                        }
                        (false, None)
                    },
                    AppPages::WebSearch => {
                        let act = self.web_search();
                        proof {
                            assert(self.v() == nav_step(s0, nav0, 0).0);
                            assert(action_matches(Some(act), nav_step(s0, nav0, 0).2));
                        }
                        (false, Some(act))
                    },
                    AppPages::Home => {
                        proof {
                            assert(self.v() =~= nav_step(s0, nav0, 0).0);
                        }
                        (false, None)
                    },
                }
            },
            Navigation::SideInputSubmit => {
                match self.active {
                    AppPages::Search => {
                        self.submit_side();
                        proof {
                            let ts = choose|ts: int|
                                self.v() == #[trigger] side_submit_step(sc, ts);
                            assert(self.v() == nav_step(s0, nav0, ts).0);
                        }
                        (false, None)
                    },
                    _ => {
                        proof {
                            assert(self.v() =~= nav_step(s0, nav0, 0).0);
                        }
                        (false, None)
                    },
                }
            },
            Navigation::Combined(vector) => {
                let ghost v0 = vector;
                let mut rest = vector;
                let first = rest.remove(0);
                proof {
                    assert(first == v0@[0]);
                    assert(decreases_to!(nav0 => v0));
                    assert(decreases_to!(v0 => v0@));
                    assert(decreases_to!(v0@ => v0@[0]));
                }
                let r1 = self.navigation(first);
                let ghost s1 = self.v();
                let second = rest.remove(0);
                proof {
                    assert(second == v0@[1]);
                    assert(decreases_to!(v0@ => v0@[1]));
                }
                let r2 = self.navigation(second);
                let out = (r1.0 || r2.0, if r2.1.is_some() {
                    r2.1
                } else {
                    r1.1
                });
                proof {
                    let ts1 = choose|ts: int|
                        #![trigger nav_step(sc, first, ts)]
                        {
                            let st = nav_step(sc, first, ts);
                            s1 == st.0 && r1.0 == st.1 && action_matches(r1.1, st.2)
                        };
                    let ts2 = choose|ts: int|
                        #![trigger nav_step(s1, second, ts)]
                        {
                            let st = nav_step(s1, second, ts);
                            self.v() == st.0 && r2.0 == st.1 && action_matches(r2.1, st.2)
                        };
                    lemma_nav_step_ts(sc, first, ts1, ts2);
                    assert(v0@ =~= seq![first, second]);
                    lemma_navs_step_pair(sc, first, second, ts2);
                    let st1 = nav_step(sc, first, ts2);
                    assert(st1.0 == s1 && st1.1 == r1.0 && action_matches(r1.1, st1.2));
                    let whole = navs_step(sc, v0@, ts2);
                    assert(whole.0 == self.v());
                    assert(whole.1 == (r1.0 || r2.0));
                    assert(action_matches(out.1, whole.2));
                    assert(nav_step(s0, nav0, ts2) == whole);
                }
                out
            },
            Navigation::DoNotihing => {
                proof {
                    assert(false);
                }
                (false, None)
            },
        }
    }

    /// Interpret one input event: while a modal captures keystrokes it
    /// is edited or submitted; otherwise the global keys act and all
    /// else goes to the active page. Returns the intent to apply and
    /// any remote request the page raised.
    fn handle_input(&mut self, event: CustomEvent<Key>) -> (r: (Navigation, Option<RemoteAction>))
        requires
            wf_v(old(self).v()),
        ensures
            wf_v(final(self).v()),
            final(self).pages@ == old(self).pages@,
            wf_nav(r.0),
            nav_enter_ok(final(self).v(), r.0),
            ({
                let s = old(self).v();
                match event {
                    CustomEvent::Tick => final(self).v() == s && r.0 == Navigation::DoNotihing
                        && r.1 is None,
                    CustomEvent::Input(k) => {
                        if s.is_main_input {
                            match k {
                                Key::Esc => final(self).v() == s && r.0 == Navigation::QuitInput
                                    && r.1 is None,
                                Key::Enter => final(self).v() == s && (r.0 matches
                                    Navigation::Combined(v) && v@ == seq![
                                    Navigation::QuitInput,
                                    Navigation::InputSubmit,
                                ]) && r.1 is None,
                                Key::Char(c) => final(self).v() == (AppV {
                                    main_input: s.main_input.push(c),
                                    ..s
                                }) && r.0 == Navigation::DoNotihing && r.1 is None,
                                Key::Backspace => final(self).v() == (AppV {
                                    main_input: if s.main_input.len() == 0 {
                                        s.main_input
                                    } else {
                                        s.main_input.drop_last()
                                    },
                                    ..s
                                }) && r.0 == Navigation::DoNotihing && r.1 is None,
                                _ => final(self).v() == s && r.0 == Navigation::DoNotihing
                                    && r.1 is None,
                            }
                        } else if s.is_side_input {
                            match k {
                                Key::Esc => final(self).v() == s && r.0
                                    == Navigation::QuitSideInput && r.1 is None,
                                Key::Enter => final(self).v() == s && (r.0 matches
                                    Navigation::Combined(v) && v@ == seq![
                                    Navigation::QuitSideInput,
                                    Navigation::SideInputSubmit,
                                ]) && r.1 is None,
                                Key::Char(c) => final(self).v() == (AppV {
                                    side_input: s.side_input.push(c),
                                    ..s
                                }) && r.0 == Navigation::DoNotihing && r.1 is None,
                                Key::Backspace => final(self).v() == (AppV {
                                    side_input: if s.side_input.len() == 0 {
                                        s.side_input
                                    } else {
                                        s.side_input.drop_last()
                                    },
                                    ..s
                                }) && r.0 == Navigation::DoNotihing && r.1 is None,
                                _ => final(self).v() == s && r.0 == Navigation::DoNotihing
                                    && r.1 is None,
                            }
                        } else {
                            if k == Key::Char('h') {
                                final(self).v() == s && r.0 == Navigation::NavigatePage(
                                    AppPages::Home,
                                ) && r.1 is None
                            } else if k == Key::Char('w') {
                                final(self).v() == s && r.0 == Navigation::NavigatePage(
                                    AppPages::WebSearch,
                                ) && r.1 is None
                            } else if k == Key::Char('s') {
                                final(self).v() == s && r.0 == Navigation::NavigatePage(
                                    AppPages::Search,
                                ) && r.1 is None
                            } else if k == Key::Char('i') {
                                final(self).v() == s && r.0 == Navigation::EnterInput && r.1
                                    is None
                            } else if k == Key::Char('q') {
                                final(self).v() == s && r.0 == Navigation::Quit && r.1 is None
                            } else {
                                &&& !(r.0 is SideInputSubmit)
                                &&& !(r.0 is Combined)
                                &&& exists|ts: int|
                                    #![trigger page_step(s, k, ts)]
                                    {
                                        let st = page_step(s, k, ts);
                                        final(self).v() == st.0 && r.0 == st.1 && action_matches(
                                            r.1,
                                            st.2,
                                        )
                                    }
                            }
                        }
                    },
                }
            }),
    {
        match event {
            CustomEvent::Tick => (Navigation::DoNotihing, None),
            CustomEvent::Input(key_event) => {
                if self.is_main_input {
                    match key_event {
                        Key::Esc => (Navigation::QuitInput, None),
                        Key::Enter => {
                            let mut parts: Vec<Navigation> = Vec::new();
                            parts.push(Navigation::QuitInput);
                            parts.push(Navigation::InputSubmit);
                            proof {
                                assert(parts@ =~= seq![
                                    Navigation::QuitInput,
                                    Navigation::InputSubmit,
                                ]);
                            }
                            (Navigation::Combined(parts), None)
                        },
                        Key::Char(c) => {
                            push_char(&mut self.main_input, c);
                            (Navigation::DoNotihing, None)
                        },
                        Key::Backspace => {
                            let _ = pop_char(&mut self.main_input);
                            (Navigation::DoNotihing, None)
                        },
                        _ => (Navigation::DoNotihing, None),
                    }
                } else if self.is_side_input {
                    match key_event {
                        Key::Esc => (Navigation::QuitSideInput, None),
                        Key::Enter => {
                            let mut parts: Vec<Navigation> = Vec::new();
                            parts.push(Navigation::QuitSideInput);
                            parts.push(Navigation::SideInputSubmit);
                            proof {
                                assert(parts@ =~= seq![
                                    Navigation::QuitSideInput,
                                    Navigation::SideInputSubmit,
                                ]);
                            }
                            (Navigation::Combined(parts), None)
                        },
                        Key::Char(c) => {
                            push_char(&mut self.side_input, c);
                            (Navigation::DoNotihing, None)
                        },
                        Key::Backspace => {
                            let _ = pop_char(&mut self.side_input);
                            (Navigation::DoNotihing, None)
                        },
                        _ => (Navigation::DoNotihing, None),
                    }
                } else {
                    match key_event {
                        Key::Char(c) => {
                            if c == 'h' {
                                (Navigation::NavigatePage(AppPages::Home), None)
                            } else if c == 'w' {
                                (Navigation::NavigatePage(AppPages::WebSearch), None)
                            } else if c == 's' {
                                (Navigation::NavigatePage(AppPages::Search), None)
                            } else if c == 'i' {
                                (Navigation::EnterInput, None)
                            } else if c == 'q' {
                                (Navigation::Quit, None)
                            } else {
                                self.handle_page_specific_input(key_event)
                            }
                        },
                        _ => self.handle_page_specific_input(key_event),
                    }
                }
            },
        }
    }

    /// Process one whole input event: interpret it, apply the intent,
    /// and report whether to exit and which remote request to make.
    pub fn input(&mut self, event: CustomEvent<Key>) -> (r: (bool, Option<RemoteAction>))
        requires
            wf_v(old(self).v()),
        ensures
            wf_v(final(self).v()),
            final(self).pages@ == old(self).pages@,
            exists|ts: int|
                #![trigger input_step(old(self).v(), event, ts)]
                {
                    let st = input_step(old(self).v(), event, ts);
                    final(self).v() == st.0 && r.0 == st.1 && action_matches(r.1, st.2)
                },
    {
        let ghost s0 = self.v();
        let handled = self.handle_input(event);
        let nav = handled.0;
        let act1 = handled.1;
        let ghost nav0 = nav;
        let ghost act10 = act1;
        let ghost s1 = self.v();
        let navigated = self.navigation(nav);
        let quit = navigated.0;
        let act2 = navigated.1;
        let out = (quit, if act2.is_some() {
            act2
        } else {
            act1
        });
        proof {
            let ts2 = choose|ts: int|
                #![trigger nav_step(s1, nav0, ts)]
                {
                    let st = nav_step(s1, nav0, ts);
                    self.v() == st.0 && quit == st.1 && action_matches(act2, st.2)
                };
            match event {
                CustomEvent::Tick => {
                    assert({
                        let st = input_step(s0, event, 0);
                        self.v() == st.0 && out.0 == st.1 && action_matches(out.1, st.2)
                    });
                },
                CustomEvent::Input(k) => {
                    if s0.is_main_input {
                        match k {
                            Key::Enter => {
                                let sc = AppV { message_box: Seq::<char>::empty(), ..s0 };
                                lemma_navs_step_pair(
                                    sc,
                                    Navigation::QuitInput,
                                    Navigation::InputSubmit,
                                    ts2,
                                );
                                let q1 = nav_step(sc, Navigation::QuitInput, ts2);
                                let d1 = nav_step(s0, Navigation::QuitInput, ts2);
                                assert(q1.0 =~= d1.0);
                                assert({
                                    let st = input_step(s0, event, ts2);
                                    self.v() == st.0 && out.0 == st.1 && action_matches(
                                        out.1,
                                        st.2,
                                    )
                                });
                            },
                            _ => {
                                assert({
                                    let st = input_step(s0, event, ts2);
                                    self.v() == st.0 && out.0 == st.1 && action_matches(
                                        out.1,
                                        st.2,
                                    )
                                });
                            },
                        }
                    } else if s0.is_side_input {
                        match k {
                            Key::Enter => {
                                let sc = AppV { message_box: Seq::<char>::empty(), ..s0 };
                                lemma_navs_step_pair(
                                    sc,
                                    Navigation::QuitSideInput,
                                    Navigation::SideInputSubmit,
                                    ts2,
                                );
                                let q1 = nav_step(sc, Navigation::QuitSideInput, ts2);
                                let d1 = nav_step(s0, Navigation::QuitSideInput, ts2);
                                assert(q1.0 =~= d1.0);
                                assert({
                                    let st = input_step(s0, event, ts2);
                                    self.v() == st.0 && out.0 == st.1 && action_matches(
                                        out.1,
                                        st.2,
                                    )
                                });
                            },
                            _ => {
                                assert({
                                    let st = input_step(s0, event, ts2);
                                    self.v() == st.0 && out.0 == st.1 && action_matches(
                                        out.1,
                                        st.2,
                                    )
                                });
                            },
                        }
                    } else {
                        if k == Key::Char('h') || k == Key::Char('w') || k == Key::Char('s') || k
                            == Key::Char('i') || k == Key::Char('q') {
                            assert({
                                let st = input_step(s0, event, ts2);
                                self.v() == st.0 && out.0 == st.1 && action_matches(out.1, st.2)
                            });
                        } else {
                            let tsp = choose|ts: int|
                                #![trigger page_step(s0, k, ts)]
                                {
                                    let st = page_step(s0, k, ts);
                                    s1 == st.0 && nav0 == st.1 && action_matches(act10, st.2)
                                };
                            lemma_nav_step_ts(s1, nav0, ts2, tsp);
                            assert({
                                let st = input_step(s0, event, tsp);
                                self.v() == st.0 && out.0 == st.1 && action_matches(out.1, st.2)
                            });
                        }
                    }
                },
            }
        }
        out
    }
}

/// Submitting the side modal appends exactly one event to the selected
/// copy's log: of the kind recorded when the modal was opened, carrying
/// the modal's text, dated with the transition's clock reading. The
/// prior events stand unchanged in their order, every other copy and
/// every other holder are untouched, and whenever the holder and copy
/// are still stored the store's copy receives the same appended log.
/// Applied as an intent on the search page, the transition never asks
/// the application to exit. How the new date orders against earlier
/// ones is a property of the clock, which the library does not
/// constrain.
pub proof fn lemma_side_submit_appends(s: AppV, ts: int)
    requires
        item_selected_v(s),
        ({
            let i = s.search_state->0 as int;
            let sh = s.search_items[i];
            sh.items[sh.state->0 as int].input is Some
        }),
    ensures
        ({
            let i = s.search_state->0 as int;
            let sh = s.search_items[i];
            let j = sh.state->0 as int;
            let it = sh.items[j];
            let ev = ItemEventV {
                date: ts,
                event_type: it.input->0,
                message: Some(s.side_input),
            };
            let s2 = side_submit_step(s, ts);
            &&& s2.search_items.len() == s.search_items.len()
            &&& s2.search_items[i].items[j].item.id == it.item.id
            &&& s2.search_items[i].items[j].item.events == it.item.events.push(ev)
            &&& forall|b: int|
                0 <= b < sh.items.len() && b != j ==> s2.search_items[i].items[b] == sh.items[b]
            &&& forall|a: int|
                0 <= a < s.search_items.len() && a != i ==> s2.search_items[a]
                    == s.search_items[a]
            &&& update_item_ok_spec(s.database, sh.record.id, it.item.id) ==> ({
                let k = idx_of(s.database, sh.record.id);
                let jj = item_idx_of(s.database[k].items, it.item.id);
                &&& s2.database[k].items[jj].id == it.item.id
                &&& s2.database[k].items[jj].events == it.item.events.push(ev)
                &&& forall|b: int|
                    0 <= b < s.database[k].items.len() && b != jj ==> s2.database[k].items[b]
                        == s.database[k].items[b]
                &&& forall|a: int|
                    0 <= a < s.database.len() && a != k ==> s2.database[a] == s.database[a]
            })
            &&& !update_item_ok_spec(s.database, sh.record.id, it.item.id) ==> s2.database
                == s.database
        }),
        s.active is Search ==> nav_step(s, Navigation::SideInputSubmit, ts).1 == false,
        s.active is Search ==> nav_step(s, Navigation::SideInputSubmit, ts).2 is None,
{
    let i = s.search_state->0 as int;
    let sh = s.search_items[i];
    let j = sh.state->0 as int;
    let it = sh.items[j];
    if update_item_ok_spec(s.database, sh.record.id, it.item.id) {
        let k = idx_of(s.database, sh.record.id);
        assert(0 <= k < s.database.len() && s.database[k].record.id == sh.record.id);
        let jj = item_idx_of(s.database[k].items, it.item.id);
        assert(0 <= jj < s.database[k].items.len() && s.database[k].items[jj].id == it.item.id);
    }
}

} // verus!
