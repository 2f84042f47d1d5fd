use sender::keys::{KeyCode, KeyEvent, KeyModifiers};
use sender::tui::line::{Color, Line};
use sender::tui::search::SearchState;

fn press(code: KeyCode) -> KeyEvent {
    KeyEvent::new(code, KeyModifiers::none())
}

fn key(c: char) -> KeyEvent {
    press(KeyCode::Char(c))
}

#[test]
fn begin_clears_query_and_enables_insert_mode() {
    let mut state = SearchState::default();
    state.begin();
    assert!(state.is_inserting());
    assert!(state.is_empty_query());

    state.input(key('a'));
    state.input(key('b'));
    assert_eq!(state.query_text(), "ab");

    state.clear();
    assert!(!state.is_inserting());
    assert!(state.is_empty_query());
    assert!(!state.is_active());
}

#[test]
fn commit_keeps_filter_and_exits_insert_mode() {
    let mut state = SearchState::default();
    state.begin();
    state.input(key('h'));
    state.commit();

    assert!(!state.is_inserting());
    assert!(state.is_filtered());
    assert!(state.is_active());
}

#[test]
fn backspace_edits_the_query() {
    let mut state = SearchState::default();
    state.begin();
    state.input(key('h'));
    state.input(key('i'));
    state.input(press(KeyCode::Backspace));

    assert_eq!(state.query_text(), "h");

    while !state.is_empty_query() {
        state.input(press(KeyCode::Backspace));
    }
    assert!(!state.is_filtered());
}

#[test]
fn map_to_source_is_identity_when_unfiltered() {
    let state = SearchState::default();
    assert_eq!(state.map_to_source(0), Some(0));
    assert_eq!(state.map_to_source(7), Some(7));
    assert_eq!(state.indices().len(), 0);
}

#[test]
fn map_to_source_uses_visible_indices_when_filtered() {
    let mut state = SearchState::default();
    state.begin();
    state.input(key('x'));
    state.set_visible(vec![4, 9]);
    assert_eq!(state.indices().len(), 2);
    assert_eq!(state.map_to_source(0), Some(4));
    assert_eq!(state.map_to_source(1), Some(9));
    assert_eq!(state.map_to_source(2), None);
}

#[test]
fn cursor_col_tracks_the_insert_position() {
    let mut state = SearchState::default();
    state.begin();
    assert_eq!(state.cursor_col(), 0);

    state.input(key('a'));
    state.input(key('b'));
    state.input(key('c'));
    assert_eq!(state.cursor_col(), 3);

    state.input(press(KeyCode::Left));
    state.input(key('X'));
    assert_eq!(state.query_text(), "abXc");
    assert_eq!(state.cursor_col(), 3);
}

#[test]
fn title_line_is_empty_when_inactive() {
    let state = SearchState::default();
    assert_eq!(state.title_line(), Line::empty());
}

#[test]
fn title_line_shows_query_while_inserting() {
    let mut state = SearchState::default();
    state.begin();
    state.input(key('a'));
    state.input(key('b'));
    let line = state.title_line();
    let text: String = line.spans.iter().map(|s| s.text.clone()).collect();
    assert!(text.contains("Search:"));
    assert!(text.contains("ab"));
}

#[test]
fn title_line_shows_committed_query_without_cursor() {
    let mut state = SearchState::default();
    state.begin();
    state.input(key('a'));
    state.input(key('b'));
    state.commit();
    let line = state.title_line();
    let text: String = line.spans.iter().map(|s| s.text.clone()).collect();
    assert!(text.contains("ab"));
    assert!(
        line.spans
            .iter()
            .all(|s| s.style.bg != Some(Color::Yellow)),
        "no cursor cell while not typing"
    );
}
