//! Settings: key bindings, enabled providers, limits and intervals.
use vstd::prelude::*;

use crate::keys::{ascii_lower, is_ascii_upper, to_ascii_lower, KeyCode, KeyEvent, KeyModifiers};
use crate::text::{
    all_digits, digits_value, is_digit, joined, joined3, owned, parse_i64, pieces, same, split,
    to_chars, trim, trimmed, views,
};

verus! {

/// Everything the user can configure.
#[derive(Clone, Debug)]
pub struct Config {
    pub keys: KeymapConfig,
    pub providers: ProvidersConfig,
    pub max_write_lines: usize,
    /// Seconds between two polls of the open chat.
    pub chat_poll_interval_secs: u64,
    /// Seconds between two saves of the Telegram update state.
    pub sync_update_state_secs: u64,
    /// Seconds between two refreshes of the chat list.
    pub chat_list_sync_secs: u64,
}

/// Which providers are switched on, and what they need to connect.
#[derive(Clone, Debug)]
pub struct ProvidersConfig {
    pub telegram: TelegramConfig,
    pub whatsapp: bool,
}

/// Telegram switch and credentials.
#[derive(Clone, Debug)]
pub struct TelegramConfig {
    pub enabled: bool,
    pub api_id: u32,
    pub api_hash: String,
}

/// Key bindings as the user writes them: `key` or `modifier+key`.
#[derive(Clone, Debug)]
pub struct KeymapConfig {
    pub search_text: String,
    pub scroll_up: String,
    pub scroll_down: String,
    pub select: String,
    pub pane_prev: String,
    pub pane_next: String,
    pub dismiss: String,
    pub quit: String,
    pub open_settings: String,
    pub focus_write: String,
    pub scroll_to_top: String,
    pub scroll_to_bottom: String,
    pub send: String,
    pub newline: String,
    pub retry_connection: String,
    pub play_pause: String,
    pub seek_back: String,
    pub seek_forward: String,
}

/// Key bindings ready to be compared with key presses.
#[derive(Clone, Copy, Debug, PartialEq, Eq)]
pub struct Keymap {
    pub scroll_up: KeyEvent,
    pub search_text: KeyEvent,
    pub scroll_down: KeyEvent,
    pub select: KeyEvent,
    pub pane_next: KeyEvent,
    pub pane_prev: KeyEvent,
    pub dismiss: KeyEvent,
    pub quit: KeyEvent,
    pub open_settings: KeyEvent,
    pub focus_write: KeyEvent,
    pub scroll_to_top: KeyEvent,
    pub scroll_to_bottom: KeyEvent,
    pub send: KeyEvent,
    /// Inserts a line break while writing, where the terminal reports it.
    pub newline: KeyEvent,
    /// Reconnects a provider whose connection was lost.
    pub retry_connection: KeyEvent,
    /// Toggles play and pause on the audio popup.
    pub play_pause: KeyEvent,
    pub seek_back: KeyEvent,
    pub seek_forward: KeyEvent,
}

/// Why a key binding was refused.
#[derive(Debug, PartialEq, Eq)]
pub enum KeyError {
    /// The binding, or one of its parts, is empty.
    Empty { spec: String },
    UnsupportedModifier { modifier: String, spec: String },
    UnsupportedKey { key: String, spec: String },
}

/// Model of `KeyError`.
pub ghost enum KeyErrorV {
    Empty { spec: Seq<char> },
    UnsupportedModifier { modifier: Seq<char>, spec: Seq<char> },
    UnsupportedKey { key: Seq<char>, spec: Seq<char> },
}

impl View for KeyError {
    type V = KeyErrorV;

    open spec fn view(&self) -> KeyErrorV {
        match *self {
            KeyError::Empty { spec } => KeyErrorV::Empty { spec: spec@ },
            KeyError::UnsupportedModifier { modifier, spec } => KeyErrorV::UnsupportedModifier {
                modifier: modifier@,
                spec: spec@,
            },
            KeyError::UnsupportedKey { key, spec } => KeyErrorV::UnsupportedKey {
                key: key@,
                spec: spec@,
            },
        }
    }
}

impl KeyError {
    /// The refusal in words.
    pub fn message(&self) -> (r: String)
        ensures
            match self@ {
                KeyErrorV::Empty { spec } => r@ == "empty key spec '"@ + spec + "'"@,
                KeyErrorV::UnsupportedModifier { modifier, spec } => r@ == "unsupported modifier '"@
                    + modifier + "' in '"@ + spec + "'"@,
                KeyErrorV::UnsupportedKey { key, spec } => r@ == "unsupported key '"@ + key
                    + "' in '"@ + spec + "'"@,
            },
    {
        match self {
            KeyError::Empty { spec } => joined3("empty key spec '", spec.as_str(), "'"),
            KeyError::UnsupportedModifier { modifier, spec } => joined3(
                joined3("unsupported modifier '", modifier.as_str(), "' in '").as_str(),
                spec.as_str(),
                "'",
            ),
            KeyError::UnsupportedKey { key, spec } => joined3(
                joined3("unsupported key '", key.as_str(), "' in '").as_str(),
                spec.as_str(),
                "'",
            ),
        }
    }
}

/// The `+`-separated parts of a binding, each trimmed.
pub open spec fn key_parts(spec: Seq<char>) -> Seq<Seq<char>> {
    pieces(trimmed(spec), '+').map_values(|p: Seq<char>| trimmed(p))
}

pub open spec fn is_control_word(p: Seq<char>) -> bool {
    p == "ctrl"@ || p == "control"@
}

pub open spec fn is_alt_word(p: Seq<char>) -> bool {
    p == "alt"@ || p == "option"@
}

pub open spec fn is_shift_word(p: Seq<char>) -> bool {
    p == "shift"@
}

/// Modifiers that are accepted and have no effect.
pub open spec fn is_ignored_word(p: Seq<char>) -> bool {
    p == "super"@ || p == "meta"@ || p == "cmd"@ || p == "cmdorctrl"@
}

pub open spec fn is_modifier_word(p: Seq<char>) -> bool {
    is_control_word(p) || is_alt_word(p) || is_shift_word(p) || is_ignored_word(p)
}

/// The key that a word names.
pub open spec fn named_key(p: Seq<char>) -> Option<KeyCode> {
    if p == "enter"@ || p == "return"@ {
        Some(KeyCode::Enter)
    } else if p == "esc"@ || p == "escape"@ {
        Some(KeyCode::Esc)
    } else if p == "tab"@ {
        Some(KeyCode::Tab)
    } else if p == "backspace"@ {
        Some(KeyCode::Backspace)
    } else if p == "space"@ {
        Some(KeyCode::Char(' '))
    } else if p == "delete"@ {
        Some(KeyCode::Delete)
    } else if p == "insert"@ {
        Some(KeyCode::Insert)
    } else if p == "home"@ {
        Some(KeyCode::Home)
    } else if p == "end"@ {
        Some(KeyCode::End)
    } else if p == "up"@ {
        Some(KeyCode::Up)
    } else if p == "down"@ {
        Some(KeyCode::Down)
    } else if p == "left"@ {
        Some(KeyCode::Left)
    } else if p == "right"@ {
        Some(KeyCode::Right)
    } else if p == "pgup"@ || p == "pageup"@ {
        Some(KeyCode::PageUp)
    } else if p == "pgdn"@ || p == "pagedown"@ {
        Some(KeyCode::PageDown)
    } else {
        None
    }
}

/// Whether a word is `f` followed by decimal digits.
pub open spec fn is_function_word(p: Seq<char>) -> bool {
    p.len() > 1 && p[0] == 'f' && all_digits(p.skip(1))
}

/// The key that the last part of a binding stands for.
pub open spec fn base_key(p: Seq<char>) -> Option<KeyCode> {
    if named_key(p) is Some {
        named_key(p)
    } else if is_function_word(p) {
        if 1 <= digits_value(p.skip(1)) <= 12 {
            Some(KeyCode::F(digits_value(p.skip(1)) as u8))
        } else {
            None
        }
    } else if p.len() == 1 && (p[0] as u32) < 0x80 {
        Some(KeyCode::Char(ascii_lower(p[0])))
    } else {
        None
    }
}

/// Whether the last part of a binding is a single uppercase letter.
pub open spec fn base_shifts(p: Seq<char>) -> bool {
    p.len() == 1 && is_ascii_upper(p[0])
}

/// The key press that a binding describes.
pub open spec fn key_of(spec: Seq<char>) -> Result<KeyEvent, KeyErrorV> {
    let parts = key_parts(spec);
    let mods = parts.drop_last();
    let base = parts.last();
    if exists|i: int| 0 <= i < parts.len() && (#[trigger] parts[i]).len() == 0 {
        Err(KeyErrorV::Empty { spec })
    } else if exists|i: int| 0 <= i < mods.len() && !is_modifier_word(#[trigger] mods[i]) {
        Err(KeyErrorV::UnsupportedModifier { modifier: first_odd_modifier(mods), spec })
    } else {
        match base_key(base) {
            None => Err(KeyErrorV::UnsupportedKey { key: base, spec }),
            Some(code) => Ok(
                KeyEvent {
                    code,
                    modifiers: KeyModifiers {
                        shift: base_shifts(base) || has_word(mods, |p: Seq<char>| is_shift_word(p)),
                        control: has_word(mods, |p: Seq<char>| is_control_word(p)),
                        alt: has_word(mods, |p: Seq<char>| is_alt_word(p)),
                        other: false,
                    },
                },
            ),
        }
    }
}

pub open spec fn has_word(mods: Seq<Seq<char>>, word: spec_fn(Seq<char>) -> bool) -> bool {
    exists|i: int| 0 <= i < mods.len() && word(#[trigger] mods[i])
}

/// The first part that is no modifier word.
pub open spec fn first_odd_modifier(mods: Seq<Seq<char>>) -> Seq<char>
    decreases mods.len(),
{
    if mods.len() == 0 {
        Seq::empty()
    } else if !is_modifier_word(mods[0]) {
        mods[0]
    } else {
        first_odd_modifier(mods.skip(1))
    }
}

/// Whether no part of a binding is empty and all but the last are modifiers.
pub open spec fn well_formed(spec: Seq<char>) -> bool {
    let parts = key_parts(spec);
    &&& forall|i: int| 0 <= i < parts.len() ==> (#[trigger] parts[i]).len() > 0
    &&& forall|i: int|
        0 <= i < parts.drop_last().len() ==> is_modifier_word(#[trigger] parts.drop_last()[i])
}

fn named(p: &str) -> (r: Option<KeyCode>)
    ensures
        r == named_key(p@),
{
    if same(p, "enter") || same(p, "return") {
        Some(KeyCode::Enter)
    } else if same(p, "esc") || same(p, "escape") {
        Some(KeyCode::Esc)
    } else if same(p, "tab") {
        Some(KeyCode::Tab)
    } else if same(p, "backspace") {
        Some(KeyCode::Backspace)
    } else if same(p, "space") {
        Some(KeyCode::Char(' '))
    } else if same(p, "delete") {
        Some(KeyCode::Delete)
    } else if same(p, "insert") {
        Some(KeyCode::Insert)
    } else if same(p, "home") {
        Some(KeyCode::Home)
    } else if same(p, "end") {
        Some(KeyCode::End)
    } else if same(p, "up") {
        Some(KeyCode::Up)
    } else if same(p, "down") {
        Some(KeyCode::Down)
    } else if same(p, "left") {
        Some(KeyCode::Left)
    } else if same(p, "right") {
        Some(KeyCode::Right)
    } else if same(p, "pgup") || same(p, "pageup") {
        Some(KeyCode::PageUp)
    } else if same(p, "pgdn") || same(p, "pagedown") {
        Some(KeyCode::PageDown)
    } else {
        None
    }
}

/// The function key that a word names, where it is `f` and a number; none
/// where there is no such key.
fn function_key(p: &str) -> (r: Option<Option<KeyCode>>)
    ensures
        match r {
            Some(code) => is_function_word(p@) && code == if 1 <= digits_value(p@.skip(1)) <= 12 {
                Some(KeyCode::F(digits_value(p@.skip(1)) as u8))
            } else {
                None
            },
            None => !is_function_word(p@),
        },
{
    let x: Vec<char> = to_chars(p);
    if x.len() < 2 || x[0] != 'f' {
        return None;
    }
    let mut i: usize = 1;
    while i < x.len()
        invariant
            x@ == p@,
            1 <= i <= x@.len(),
            forall|k: int| 1 <= k < i ==> is_digit(#[trigger] p@[k]),
        decreases x@.len() - i,
    {
        if (x[i] as u32) < 0x30 || (x[i] as u32) > 0x39 {
            assert(p@.skip(1)[i - 1] == p@[i as int]);
            return None;
        }
        i += 1;
    }
    let rest: String = crate::text::from_range(&x, 1, x.len());
    assert(rest@ =~= p@.skip(1));
    assert forall|k: int| 0 <= k < rest@.len() implies is_digit(#[trigger] rest@[k]) by {
        assert(rest@[k] == p@[k + 1]);
    }
    match parse_i64(rest.as_str()) {
        Some(n) => Some(if 1 <= n && n <= 12 { Some(KeyCode::F(n as u8)) } else { None }),
        None => Some(None),
    }
}

fn base(p: &str) -> (r: Option<KeyCode>)
    ensures
        r == base_key(p@),
{
    if let Some(code) = named(p) {
        return Some(code);
    }
    if let Some(code) = function_key(p) {
        return code;
    }
    let x: Vec<char> = to_chars(p);
    if x.len() == 1 && (x[0] as u32) < 0x80 {
        Some(KeyCode::Char(to_ascii_lower(x[0])))
    } else {
        None
    }
}

proof fn first_odd_is(mods: Seq<Seq<char>>, i: int)
    requires
        0 <= i < mods.len(),
        !is_modifier_word(mods[i]),
        forall|k: int| 0 <= k < i ==> is_modifier_word(#[trigger] mods[k]),
    ensures
        first_odd_modifier(mods) == mods[i],
    decreases i,
{
    if i > 0 {
        assert(is_modifier_word(mods[0]));
        assert forall|k: int| 0 <= k < i - 1 implies is_modifier_word(#[trigger] mods.skip(1)[k]) by {
            assert(mods.skip(1)[k] == mods[k + 1]);
        }
        first_odd_is(mods.skip(1), i - 1);
    }
}

proof fn pieces_not_empty(s: Seq<char>, c: char)
    ensures
        pieces(s, c).len() > 0,
{
}

/// The modifiers of a binding and its last part.
fn modifiers_and_base(spec: &str) -> (r: Result<(KeyModifiers, String), KeyError>)
    ensures
        match r {
            Ok((m, base)) => well_formed(spec@) && base@ == key_parts(spec@).last() && m == (
            KeyModifiers {
                shift: has_word(key_parts(spec@).drop_last(), |p: Seq<char>| is_shift_word(p)),
                control: has_word(
                    key_parts(spec@).drop_last(),
                    |p: Seq<char>| is_control_word(p),
                ),
                alt: has_word(key_parts(spec@).drop_last(), |p: Seq<char>| is_alt_word(p)),
                other: false,
            }),
            Err(e) => !well_formed(spec@) && key_of(spec@) == Err::<KeyEvent, KeyErrorV>(e@),
        },
{
    let whole: String = trim(spec);
    let raw: Vec<String> = split(whole.as_str(), '+');
    let ghost parts = key_parts(spec@);
    proof {
        pieces_not_empty(whole@, '+');
        assert(raw@.len() == views(raw@).len());
    }
    let mut trimmed_parts: Vec<String> = Vec::new();
    let mut i: usize = 0;
    while i < raw.len()
        invariant
            i <= raw@.len(),
            views(raw@) == pieces(trimmed(spec@), '+'),
            parts == key_parts(spec@),
            parts.len() == raw@.len(),
            trimmed_parts@.len() == i,
            forall|k: int| 0 <= k < i ==> (#[trigger] trimmed_parts@[k])@ == parts[k],
            forall|k: int| 0 <= k < i ==> (#[trigger] parts[k]).len() > 0,
        decreases raw@.len() - i,
    {
        let p: String = trim(raw[i].as_str());
        assert(views(raw@)[i as int] == raw@[i as int]@);
        assert(parts[i as int] == p@);
        let n: usize = to_chars(p.as_str()).len();
        if n == 0 {
            return Err(KeyError::Empty { spec: owned(spec) });
        }
        trimmed_parts.push(p);
        i += 1;
    }
    let last: usize = trimmed_parts.len() - 1;
    let ghost mods = parts.drop_last();
    let mut control: bool = false;
    let mut alt: bool = false;
    let mut shift: bool = false;
    let mut m: usize = 0;
    while m < last
        invariant
            m <= last,
            last + 1 == trimmed_parts@.len(),
            parts == key_parts(spec@),
            parts.len() == trimmed_parts@.len(),
            mods == parts.drop_last(),
            forall|k: int| 0 <= k < parts.len() ==> (#[trigger] trimmed_parts@[k])@ == parts[k],
            forall|k: int| 0 <= k < parts.len() ==> (#[trigger] parts[k]).len() > 0,
            forall|k: int| 0 <= k < m ==> is_modifier_word(#[trigger] mods[k]),
            control == (exists|k: int| 0 <= k < m && is_control_word(#[trigger] mods[k])),
            alt == (exists|k: int| 0 <= k < m && is_alt_word(#[trigger] mods[k])),
            shift == (exists|k: int| 0 <= k < m && is_shift_word(#[trigger] mods[k])),
        decreases last - m,
    {
        let p: &str = trimmed_parts[m].as_str();
        assert(mods[m as int] == p@);
        if same(p, "ctrl") || same(p, "control") {
            control = true;
        } else if same(p, "alt") || same(p, "option") {
            alt = true;
        } else if same(p, "shift") {
            shift = true;
        } else if same(p, "super") || same(p, "meta") || same(p, "cmd") || same(p, "cmdorctrl") {
        } else {
            proof {
                first_odd_is(mods, m as int);
            }
            return Err(KeyError::UnsupportedModifier { modifier: owned(p), spec: owned(spec) });
        }
        proof {
            reveal_strlit("ctrl");
            reveal_strlit("control");
            reveal_strlit("alt");
            reveal_strlit("option");
            reveal_strlit("shift");
            reveal_strlit("super");
            reveal_strlit("meta");
            reveal_strlit("cmd");
            reveal_strlit("cmdorctrl");
            let w = p@;
            assert(is_control_word(w) ==> w[0] == 'c' && (w.len() == 4 || w.len() == 7));
            assert(is_alt_word(w) ==> w[0] == 'a' || w[0] == 'o');
            assert(is_shift_word(w) ==> w[0] == 's' && w[1] == 'h');
            assert(is_ignored_word(w) ==> w[0] == 's' && w[1] == 'u' || w[0] == 'm' || (w[0] == 'c'
                && (w.len() == 3 || w.len() == 9)));
        }
        m += 1;
    }
    let base_part: String = owned(trimmed_parts[last].as_str());
    assert(base_part@ == parts.last());
    Ok((KeyModifiers { shift, control, alt, other: false }, base_part))
}

/// Reads a binding: modifiers and a key, joined by `+`.
pub fn parse_key(spec: &str) -> (r: Result<KeyEvent, KeyError>)
    ensures
        match r {
            Ok(k) => key_of(spec@) == Ok::<KeyEvent, KeyErrorV>(k),
            Err(e) => key_of(spec@) == Err::<KeyEvent, KeyErrorV>(e@),
        },
{
    let (modifiers, last): (KeyModifiers, String) = match modifiers_and_base(spec) {
        Ok(x) => x,
        Err(e) => {
            return Err(e);
        },
    };
    match base(last.as_str()) {
        None => Err(KeyError::UnsupportedKey { key: last, spec: owned(spec) }),
        Some(code) => {
            let x: Vec<char> = to_chars(last.as_str());
            let upper: bool = x.len() == 1 && 0x41 <= x[0] as u32 && x[0] as u32 <= 0x5a;
            Ok(
                KeyEvent::new(
                    code,
                    KeyModifiers {
                        shift: upper || modifiers.shift,
                        control: modifiers.control,
                        alt: modifiers.alt,
                        other: false,
                    },
                ),
            )
        },
    }
}

impl TelegramConfig {
    /// Whether the application id and hash needed to connect are set.
    pub open spec fn credentialed(&self) -> bool {
        self.api_id != 0 && self.api_hash@.len() > 0
    }

    /// Whether the application id and hash needed to connect are set.
    pub fn has_credentials(&self) -> (r: bool)
        ensures
            r == self.credentialed(),
    {
        self.api_id != 0 && to_chars(self.api_hash.as_str()).len() > 0
    }
}

impl KeymapConfig {
    /// The bindings in the order in which they are read.
    pub open spec fn bindings(&self) -> Seq<Seq<char>> {
        seq![
            self.scroll_up@,
            self.scroll_to_top@,
            self.search_text@,
            self.scroll_down@,
            self.select@,
            self.pane_prev@,
            self.pane_next@,
            self.dismiss@,
            self.quit@,
            self.open_settings@,
            self.focus_write@,
            self.scroll_to_bottom@,
            self.send@,
            self.newline@,
            self.retry_connection@,
            self.play_pause@,
            self.seek_back@,
            self.seek_forward@,
        ]
    }

    #[verifier::rlimit(60)]
    fn listed(&self) -> (r: Vec<&String>)
        ensures
            r@.len() == 18,
            self.bindings().len() == 18,
            forall|k: int| 0 <= k < 18 ==> (#[trigger] r@[k])@ == self.bindings()[k],
    {
        let specs: Vec<&String> = vec![
            &self.scroll_up,
            &self.scroll_to_top,
            &self.search_text,
            &self.scroll_down,
            &self.select,
            &self.pane_prev,
            &self.pane_next,
            &self.dismiss,
            &self.quit,
            &self.open_settings,
            &self.focus_write,
            &self.scroll_to_bottom,
            &self.send,
            &self.newline,
            &self.retry_connection,
            &self.play_pause,
            &self.seek_back,
            &self.seek_forward,
        ];
        assert(specs@.map_values(|s: &String| s@) =~= self.bindings());
        assert forall|k: int| 0 <= k < 18 implies (#[trigger] specs@[k])@ == self.bindings()[k] by {
            assert(specs@.map_values(|s: &String| s@)[k] == specs@[k]@);
        }
        specs
    }

    /// Reads every binding; the first that cannot be read is the error.
    pub fn parse(&self) -> (r: Result<Keymap, KeyError>)
        ensures
            match r {
                Ok(map) => forall|i: int|
                    0 <= i < self.bindings().len() ==> key_of(#[trigger] self.bindings()[i]) == Ok::<
                        KeyEvent,
                        KeyErrorV,
                    >(map.presses()[i]),
                Err(e) => exists|i: int|
                    0 <= i < self.bindings().len() && key_of(#[trigger] self.bindings()[i]) == Err::<
                        KeyEvent,
                        KeyErrorV,
                    >(e@) && forall|j: int|
                        0 <= j < i ==> key_of(#[trigger] self.bindings()[j]) is Ok,
            },
    {
        let ghost b = self.bindings();
        let specs: Vec<&String> = self.listed();
        let mut keys: Vec<KeyEvent> = Vec::new();
        let mut i: usize = 0;
        while i < specs.len()
            invariant
                b == self.bindings(),
                specs@.len() == 18,
                b.len() == 18,
                forall|k: int| 0 <= k < 18 ==> (#[trigger] specs@[k])@ == b[k],
                i <= 18,
                keys@.len() == i,
                forall|k: int|
                    0 <= k < i ==> key_of(#[trigger] b[k]) == Ok::<KeyEvent, KeyErrorV>(keys@[k]),
            decreases 18 - i,
        {
            assert(specs@[i as int]@ == b[i as int]);
            match parse_key(specs[i].as_str()) {
                Ok(k) => keys.push(k),
                Err(e) => {
                    assert(key_of(b[i as int]) == Err::<KeyEvent, KeyErrorV>(e@));
                    return Err(e);
                },
            }
            i += 1;
        }
        let map: Keymap = Keymap::of_presses(&keys);
        Ok(map)
    }
}

impl Keymap {
    #[verifier::rlimit(60)]
    fn of_presses(keys: &Vec<KeyEvent>) -> (r: Keymap)
        requires
            keys@.len() == 18,
        ensures
            r.presses() == keys@,
    {
        let map = Keymap {
            scroll_up: keys[0],
            scroll_to_top: keys[1],
            search_text: keys[2],
            scroll_down: keys[3],
            select: keys[4],
            pane_prev: keys[5],
            pane_next: keys[6],
            dismiss: keys[7],
            quit: keys[8],
            open_settings: keys[9],
            focus_write: keys[10],
            scroll_to_bottom: keys[11],
            send: keys[12],
            newline: keys[13],
            retry_connection: keys[14],
            play_pause: keys[15],
            seek_back: keys[16],
            seek_forward: keys[17],
        };
        assert(map.presses() =~= keys@);
        map
    }

    /// The presses in the order of `KeymapConfig::bindings`.
    pub open spec fn presses(&self) -> Seq<KeyEvent> {
        seq![
            self.scroll_up,
            self.scroll_to_top,
            self.search_text,
            self.scroll_down,
            self.select,
            self.pane_prev,
            self.pane_next,
            self.dismiss,
            self.quit,
            self.open_settings,
            self.focus_write,
            self.scroll_to_bottom,
            self.send,
            self.newline,
            self.retry_connection,
            self.play_pause,
            self.seek_back,
            self.seek_forward,
        ]
    }
}

impl Default for KeymapConfig {
    fn default() -> (r: Self)
        ensures
            r.bindings() == seq![
                "k"@, "g"@, "/"@, "j"@, "enter"@, "shift+tab"@, "tab"@, "esc"@, "ctrl+c"@, "s"@,
                "i"@, "G"@, "enter"@, "shift+enter"@, "r"@, "space"@, "<"@, ">"@,
            ],
    {
        KeymapConfig {
            scroll_up: owned("k"),
            scroll_to_top: owned("g"),
            search_text: owned("/"),
            scroll_down: owned("j"),
            select: owned("enter"),
            pane_prev: owned("shift+tab"),
            pane_next: owned("tab"),
            dismiss: owned("esc"),
            quit: owned("ctrl+c"),
            open_settings: owned("s"),
            focus_write: owned("i"),
            scroll_to_bottom: owned("G"),
            send: owned("enter"),
            newline: owned("shift+enter"),
            retry_connection: owned("r"),
            play_pause: owned("space"),
            seek_back: owned("<"),
            seek_forward: owned(">"),
        }
    }
}

impl Default for TelegramConfig {
    fn default() -> (r: Self)
        ensures
            !r.enabled,
            r.api_id == 0,
            r.api_hash@ == Seq::<char>::empty(),
    {
        TelegramConfig { enabled: false, api_id: 0, api_hash: String::new() }
    }
}

impl Default for ProvidersConfig {
    fn default() -> (r: Self)
        ensures
            !r.telegram.enabled,
            r.telegram.api_id == 0,
            r.telegram.api_hash@ == Seq::<char>::empty(),
            !r.whatsapp,
    {
        ProvidersConfig { telegram: TelegramConfig::default(), whatsapp: false }
    }
}

impl Default for Config {
    fn default() -> (r: Self)
        ensures
            r.max_write_lines == 5,
            r.chat_poll_interval_secs == 10,
            r.sync_update_state_secs == 120,
            r.chat_list_sync_secs == 10,
            !r.providers.telegram.enabled,
            r.providers.telegram.api_id == 0,
            r.providers.telegram.api_hash@ == Seq::<char>::empty(),
            !r.providers.whatsapp,
            call_ensures(KeymapConfig::default, (), r.keys),
    {
        Config {
            keys: KeymapConfig::default(),
            providers: ProvidersConfig::default(),
            max_write_lines: 5,
            chat_poll_interval_secs: 10,
            sync_update_state_secs: 120,
            chat_list_sync_secs: 10,
        }
    }
}

/// A relative name below a directory.
pub open spec fn below(dir: Seq<char>, name: Seq<char>) -> Seq<char> {
    if dir.len() == 0 {
        name
    } else if dir.last() == '/' {
        dir + name
    } else {
        dir + "/"@ + name
    }
}

/// A relative name below a directory.
pub fn path_below(dir: &str, name: &str) -> (r: String)
    ensures
        r@ == below(dir@, name@),
{
    let x: Vec<char> = to_chars(dir);
    if x.len() == 0 {
        owned(name)
    } else if x[x.len() - 1] == '/' {
        joined(dir, name)
    } else {
        joined3(dir, "/", name)
    }
}

/// Where the settings live: `senders` below the configuration directory, or
/// below the home directory where there is none.
pub open spec fn settings_dir(
    config_dir: Option<Seq<char>>,
    home_dir: Option<Seq<char>>,
) -> Option<Seq<char>> {
    match config_dir {
        Some(d) => Some(below(d, "senders"@)),
        None => match home_dir {
            Some(h) => Some(below(h, "senders"@)),
            None => None,
        },
    }
}

/// The view of an optional text.
pub open spec fn text_of(s: Option<&str>) -> Option<Seq<char>> {
    match s {
        Some(t) => Some(t@),
        None => None,
    }
}

impl Config {
    /// The directory that holds the settings, given the configuration and
    /// home directories of the user.
    pub fn user_config_dir(config_dir: Option<&str>, home_dir: Option<&str>) -> (r: Result<
        String,
        String,
    >)
        ensures
            match r {
                Ok(d) => settings_dir(text_of(config_dir), text_of(home_dir)) == Some(d@),
                Err(e) => settings_dir(text_of(config_dir), text_of(home_dir)) is None && e@
                    == "could not determine a config directory"@,
            },
    {
        match config_dir {
            Some(d) => Ok(path_below(d, "senders")),
            None => match home_dir {
                Some(h) => Ok(path_below(h, "senders")),
                None => Err(owned("could not determine a config directory")),
            },
        }
    }

    /// The settings file, given the configuration and home directories.
    pub fn config_file_path(config_dir: Option<&str>, home_dir: Option<&str>) -> (r: Result<
        String,
        String,
    >)
        ensures
            match r {
                Ok(p) => match settings_dir(text_of(config_dir), text_of(home_dir)) {
                    Some(d) => p@ == below(d, "config.toml"@),
                    None => false,
                },
                Err(e) => settings_dir(text_of(config_dir), text_of(home_dir)) is None && e@
                    == "could not determine a config directory"@,
            },
    {
        match Self::user_config_dir(config_dir, home_dir) {
            Ok(d) => Ok(path_below(d.as_str(), "config.toml")),
            Err(e) => Err(e),
        }
    }

    /// The chat list cache, given the configuration and home directories.
    pub fn chats_file_path(config_dir: Option<&str>, home_dir: Option<&str>) -> (r: Result<
        String,
        String,
    >)
        ensures
            match r {
                Ok(p) => match settings_dir(text_of(config_dir), text_of(home_dir)) {
                    Some(d) => p@ == below(d, "chats.json"@),
                    None => false,
                },
                Err(e) => settings_dir(text_of(config_dir), text_of(home_dir)) is None && e@
                    == "could not determine a config directory"@,
            },
    {
        match Self::user_config_dir(config_dir, home_dir) {
            Ok(d) => Ok(path_below(d.as_str(), "chats.json")),
            Err(e) => Err(e),
        }
    }

    /// Whether there is a settings file, given whether its path, where one is
    /// known, is present on disk.
    pub fn is_present(present: Option<bool>) -> (r: bool)
        ensures
            r == (present == Some(true)),
    {
        match present {
            Some(p) => p,
            None => false,
        }
    }
}

}
