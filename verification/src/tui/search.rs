//! A search field over a list.
use vstd::prelude::*;
use ratatui_textarea::{Input, Key, TextArea};

use crate::keys::{KeyCode, KeyEvent, KeyModifiers};
use crate::text::{from_range, to_chars};
use crate::tui::line::{fg_style, Color, Line, Span, SpanV, Style};

verus! {

/// The text field that a query is typed into: a `TextArea`, whose lines are
/// named by `area_lines` and whose cursor column by `area_column`.
#[verifier::external_body]
pub struct QueryField {
    area: TextArea<'static>,
}

/// The lines that a text field holds, from first to last.
pub uninterp spec fn area_lines(area: QueryField) -> Seq<Seq<char>>;

/// The column of the cursor of a text field, in characters.
pub uninterp spec fn area_column(area: QueryField) -> usize;

/// The lines and the cursor column of a text field after a key press.
pub uninterp spec fn area_after(area: QueryField, key: KeyEvent) -> (Seq<Seq<char>>, usize);

/// `TextArea::default`: a field with one empty line and the cursor at its
/// start.
#[verifier::external_body]
fn new_area() -> (r: QueryField)
    ensures
        area_lines(r) == seq![Seq::<char>::empty()],
        area_column(r) == 0,
{
    QueryField { area: TextArea::default() }
}

/// `TextArea::lines`: the lines of the field, of which there is always at
/// least one.
#[verifier::external_body]
fn lines_of(field: &QueryField) -> (r: Vec<String>)
    ensures
        crate::text::views(r@) == area_lines(*field),
        r@.len() >= 1,
{
    field.area.lines().to_vec()
}

/// `TextArea::cursor`: the second component is the column.
#[verifier::external_body]
fn column_of(field: &QueryField) -> (r: usize)
    ensures
        r == area_column(*field),
{
    field.area.cursor().1
}

/// `TextArea::input`: the field handles a key press. The lines and the column
/// it has then depend on the field and the press alone.
#[verifier::external_body]
fn press(field: &mut QueryField, key: KeyEvent)
    ensures
        (area_lines(*final(field)), area_column(*final(field))) == area_after(*old(field), key),
{
    let code = match key.code {
        KeyCode::Char(c) => Key::Char(c), KeyCode::F(n) => Key::F(n), KeyCode::Enter => Key::Enter,
        KeyCode::Backspace => Key::Backspace, KeyCode::Delete => Key::Delete,
        KeyCode::Left => Key::Left, KeyCode::Right => Key::Right, KeyCode::Up => Key::Up,
        KeyCode::Down => Key::Down, KeyCode::Tab => Key::Tab,
        KeyCode::Home => Key::Home, KeyCode::End => Key::End, KeyCode::PageUp => Key::PageUp,
        KeyCode::PageDown => Key::PageDown, KeyCode::Esc => Key::Esc, _ => Key::Null,
    };
    let m = key.modifiers;
    field.area.input(Input { key: code, ctrl: m.control, alt: m.alt, shift: m.shift });
}

/// A press as a text field knows it: a terminal reports shift and tab as one
/// key.
pub open spec fn field_press(key: KeyEvent) -> KeyEvent {
    if key.code == KeyCode::BackTab {
        KeyEvent {
            code: KeyCode::Tab,
            modifiers: KeyModifiers { shift: true, ..key.modifiers },
        }
    } else {
        key
    }
}

fn to_field_press(key: KeyEvent) -> (r: KeyEvent)
    ensures
        r == field_press(key),
{
    if matches!(key.code, KeyCode::BackTab) {
        KeyEvent {
            code: KeyCode::Tab,
            modifiers: KeyModifiers {
                shift: true,
                control: key.modifiers.control,
                alt: key.modifiers.alt,
                other: key.modifiers.other,
            },
        }
    } else {
        key
    }
}

/// A query with its mode, the rows that match it, and the row to come back to.
pub struct SearchState {
    query: QueryField,
    /// Whether the user is typing.
    inserting: bool,
    /// Positions in the searched list that match; meaningful with a query.
    visible_indices: Vec<usize>,
    /// The row to select again when the search is cancelled.
    anchor_source: Option<usize>,
}

/// Model of `SearchState`.
pub ghost struct SearchV {
    pub query: Seq<char>,
    pub column: usize,
    pub inserting: bool,
    pub visible: Seq<usize>,
    pub anchor: Option<usize>,
}

/// A search field in which nothing was typed.
pub open spec fn no_search() -> SearchV {
    SearchV {
        query: Seq::empty(),
        column: 0,
        inserting: false,
        visible: Seq::empty(),
        anchor: None,
    }
}

/// The row of the searched list that a visible row stands for: itself without
/// a query.
pub open spec fn source_row(s: SearchV, idx: int) -> Option<usize> {
    if s.query.len() > 0 {
        if 0 <= idx < s.visible.len() {
            Some(s.visible[idx])
        } else {
            None
        }
    } else {
        Some(idx as usize)
    }
}

/// Whether the search field is shown.
pub open spec fn search_active(s: SearchV) -> bool {
    s.inserting || s.query.len() > 0
}

/// What the search field shows: the label, and the query; while typing, the
/// query up to the cursor and the character under it in a highlighted cell.
pub open spec fn search_title(s: SearchV) -> Seq<SpanV> {
    let label = SpanV { text: " Search: "@, style: fg_style(Color::DarkGray) };
    if !search_active(s) {
        Seq::empty()
    } else if s.inserting {
        let col = if s.column < s.query.len() { s.column as int } else { s.query.len() as int };
        seq![
            label,
            SpanV { text: s.query.take(col), style: fg_style(Color::Gray) },
            SpanV {
                text: seq![if col < s.query.len() { s.query[col] } else { ' ' }],
                style: Style {
                    fg: Some(Color::Black),
                    bg: Some(Color::Yellow),
                    bold: true,
                    italic: false,
                    reversed: false,
                },
            },
        ]
    } else {
        seq![label, SpanV { text: s.query, style: fg_style(Color::Gray) }]
    }
}

impl View for SearchState {
    type V = SearchV;

    closed spec fn view(&self) -> SearchV {
        SearchV {
            query: area_lines(self.query)[0],
            column: area_column(self.query),
            inserting: self.inserting,
            visible: self.visible_indices@,
            anchor: self.anchor_source,
        }
    }
}

impl SearchState {
    /// The text field itself, of which the view shows the first line and the
    /// column of the cursor.
    pub closed spec fn field(&self) -> QueryField {
        self.query
    }

    /// What the query field becomes when a key is pressed in it.
    pub open spec fn typed(&self, key: KeyEvent) -> (Seq<char>, usize) {
        let (lines, column) = area_after(self.field(), field_press(key));
        (lines[0], column)
    }

    /// A search field in which nothing was typed.
    pub fn new() -> (r: Self)
        ensures
            r@ == no_search(),
            area_lines(r.field()) == seq![Seq::<char>::empty()],
    {
        let r = SearchState {
            query: new_area(),
            inserting: false,
            visible_indices: Vec::new(),
            anchor_source: None,
        };
        assert(r@.visible =~= Seq::<usize>::empty());
        r
    }

    /// Starts a new search: no query, typing.
    pub fn begin(&mut self)
        ensures
            final(self)@ == (SearchV { inserting: true, ..no_search() }),
            area_lines(final(self).field()) == seq![Seq::<char>::empty()],
    {
        self.query = new_area();
        self.inserting = true;
        self.visible_indices = Vec::new();
        self.anchor_source = None;
        assert(self@.visible =~= Seq::<usize>::empty());
    }

    /// Ends typing and keeps the query.
    pub fn commit(&mut self)
        ensures
            final(self)@ == (SearchV { inserting: false, ..old(self)@ }),
            final(self).field() == old(self).field(),
    {
        self.inserting = false;
    }

    /// Drops the query and keeps the row to come back to.
    pub fn clear(&mut self)
        ensures
            final(self)@ == (SearchV { anchor: old(self)@.anchor, ..no_search() }),
            area_lines(final(self).field()) == seq![Seq::<char>::empty()],
    {
        self.query = new_area();
        self.inserting = false;
        self.visible_indices = Vec::new();
        assert(self@.visible =~= Seq::<usize>::empty());
    }

    /// Whether the user is typing.
    pub fn is_inserting(&self) -> (r: bool)
        ensures
            r == self@.inserting,
    {
        self.inserting
    }

    /// Whether there is a query.
    pub fn is_filtered(&self) -> (r: bool)
        ensures
            r == (self@.query.len() > 0),
    {
        !self.is_empty_query()
    }

    /// Whether the search field is shown.
    pub fn is_active(&self) -> (r: bool)
        ensures
            r == search_active(self@),
    {
        self.inserting || self.is_filtered()
    }

    /// Whether there is no query.
    pub fn is_empty_query(&self) -> (r: bool)
        ensures
            r == (self@.query.len() == 0),
    {
        to_chars(self.query_text().as_str()).len() == 0
    }

    /// The query.
    pub fn query_text(&self) -> (r: String)
        ensures
            r@ == self@.query,
    {
        let lines: Vec<String> = lines_of(&self.query);
        assert(crate::text::views(lines@)[0] == lines@[0]@);
        lines[0].clone()
    }

    /// Column of the cursor in the query, in characters.
    pub fn cursor_col(&self) -> (r: usize)
        ensures
            r == self@.column,
    {
        column_of(&self.query)
    }

    /// Hands a key press to the query field.
    pub fn input(&mut self, key: KeyEvent)
        ensures
            final(self)@ == (SearchV {
                query: old(self).typed(key).0,
                column: old(self).typed(key).1,
                ..old(self)@
            }),
            area_lines(final(self).field()) == area_after(old(self).field(), field_press(key)).0,
    {
        press(&mut self.query, to_field_press(key));
    }

    /// Sets the rows that match.
    pub fn set_visible(&mut self, indices: Vec<usize>)
        ensures
            final(self)@ == (SearchV { visible: indices@, ..old(self)@ }),
            final(self).field() == old(self).field(),
    {
        self.visible_indices = indices;
    }

    /// The rows that match, in display order.
    pub fn indices(&self) -> (r: &Vec<usize>)
        ensures
            r@ == self@.visible,
    {
        &self.visible_indices
    }

    /// The row to select again when the search is cancelled.
    pub fn anchor_source(&self) -> (r: Option<usize>)
        ensures
            r == self@.anchor,
    {
        self.anchor_source
    }

    /// Sets the row to select again when the search is cancelled.
    pub fn set_anchor(&mut self, source: Option<usize>)
        ensures
            final(self)@ == (SearchV { anchor: source, ..old(self)@ }),
            final(self).field() == old(self).field(),
    {
        self.anchor_source = source;
    }

    /// The row of the searched list that a visible row stands for.
    pub fn map_to_source(&self, idx: usize) -> (r: Option<usize>)
        ensures
            r == source_row(self@, idx as int),
    {
        if self.is_filtered() {
            if idx < self.visible_indices.len() {
                Some(self.visible_indices[idx])
            } else {
                None
            }
        } else {
            Some(idx)
        }
    }

    /// What the search field shows.
    pub fn title_line(&self) -> (r: Line)
        ensures
            r@ == search_title(self@),
    {
        let mut line: Line = Line::empty();
        if !self.is_active() {
            return line;
        }
        line.add(Span::new(" Search: ", Style::fg(Color::DarkGray)));
        let query: String = self.query_text();
        if self.inserting {
            let chars: Vec<char> = to_chars(query.as_str());
            let column: usize = self.cursor_col();
            let col: usize = if column < chars.len() { column } else { chars.len() };
            line.add(Span { text: from_range(&chars, 0, col), style: Style::fg(Color::Gray) });
            let under: char = if col < chars.len() { chars[col] } else { ' ' };
            let mut cell: String = String::new();
            cell.push(under);
            assert(cell@ =~= seq![under]);
            assert(chars@.subrange(0, col as int) =~= chars@.take(col as int));
            line.add(Span { text: cell, style: Style::fg(Color::Black).on(Color::Yellow).bold() });
        } else {
            line.add(Span { text: query, style: Style::fg(Color::Gray) });
        }
        assert(line@ =~= search_title(self@));
        line
    }
}

impl Default for SearchState {
    fn default() -> (r: Self)
        ensures
            r@ == no_search(),
            area_lines(r.field()) == seq![Seq::<char>::empty()],
    {
        SearchState::new()
    }
}

}
