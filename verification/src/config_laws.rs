//! Laws of the settings: where they live, and what a binding means.
use vstd::prelude::*;

use crate::config::{
    base_key, below, is_modifier_word, key_of, key_parts, named_key, settings_dir, KeyErrorV,
    Keymap, KeymapConfig,
};
use crate::keys::{ascii_lower, KeyCode, KeyEvent};
use crate::text::{all_digits, digits_value};

verus! {

/// The settings live in a directory of their own below the configuration
/// directory, and below the home directory only where there is none.
pub proof fn settings_live_below_the_configuration(
    config_dir: Option<Seq<char>>,
    home_dir: Option<Seq<char>>,
)
    ensures
        config_dir is Some ==> settings_dir(config_dir, home_dir) == Some(
            below(config_dir.unwrap(), "senders"@),
        ),
        config_dir is None && home_dir is Some ==> settings_dir(config_dir, home_dir) == Some(
            below(home_dir.unwrap(), "senders"@),
        ),
        config_dir is None && home_dir is None ==> settings_dir(config_dir, home_dir) is None,
{
}

/// A path below a directory ends in the name, begins with the directory, and
/// has one slash between them.
pub proof fn paths_have_one_slash(dir: Seq<char>, name: Seq<char>)
    requires
        dir.len() > 0,
    ensures
        below(dir, name).take(dir.len() as int) == dir,
        below(dir, name).skip(below(dir, name).len() - name.len()) == name,
        below(dir, name)[below(dir, name).len() - name.len() - 1] == '/',
        dir.last() == '/' ==> below(dir, name).len() == dir.len() + name.len(),
        dir.last() != '/' ==> below(dir, name).len() == dir.len() + name.len() + 1,
        below(Seq::empty(), name) == name,
{
    reveal_strlit("/");
    let p = below(dir, name);
    assert(p.take(dir.len() as int) =~= dir);
    assert(p.skip(p.len() - name.len()) =~= name);
}

/// The words of the named keys mean their keys.
pub proof fn named_keys_mean_their_keys()
    ensures
        named_key("enter"@) == Some(KeyCode::Enter),
        named_key("return"@) == Some(KeyCode::Enter),
        named_key("esc"@) == Some(KeyCode::Esc),
        named_key("escape"@) == Some(KeyCode::Esc),
        named_key("tab"@) == Some(KeyCode::Tab),
        named_key("backspace"@) == Some(KeyCode::Backspace),
        named_key("space"@) == Some(KeyCode::Char(' ')),
        named_key("delete"@) == Some(KeyCode::Delete),
        named_key("insert"@) == Some(KeyCode::Insert),
        named_key("home"@) == Some(KeyCode::Home),
        named_key("end"@) == Some(KeyCode::End),
        named_key("up"@) == Some(KeyCode::Up),
        named_key("down"@) == Some(KeyCode::Down),
        named_key("left"@) == Some(KeyCode::Left),
        named_key("right"@) == Some(KeyCode::Right),
        named_key("pgup"@) == Some(KeyCode::PageUp),
        named_key("pageup"@) == Some(KeyCode::PageUp),
        named_key("pgdn"@) == Some(KeyCode::PageDown),
        named_key("pagedown"@) == Some(KeyCode::PageDown),
{
    reveal_strlit("enter");
    reveal_strlit("return");
    reveal_strlit("esc");
    reveal_strlit("escape");
    reveal_strlit("tab");
    reveal_strlit("backspace");
    reveal_strlit("space");
    reveal_strlit("delete");
    reveal_strlit("insert");
    reveal_strlit("home");
    reveal_strlit("end");
    reveal_strlit("up");
    reveal_strlit("down");
    reveal_strlit("left");
    reveal_strlit("right");
    reveal_strlit("pgup");
    reveal_strlit("pageup");
    reveal_strlit("pgdn");
    reveal_strlit("pagedown");
    assert("enter"@[0] == 'e' && "enter"@[1] == 'n' && "enter"@.len() == 5);
    assert("return"@[0] == 'r' && "return"@.len() == 6 && "return"@[1] == 'e');
    assert("esc"@[1] == 's' && "esc"@.len() == 3);
    assert("escape"@[1] == 's' && "escape"@.len() == 6);
    assert("tab"@[0] == 't');
    assert("backspace"@[0] == 'b');
    assert("space"@[0] == 's');
    assert("delete"@[0] == 'd' && "delete"@[1] == 'e');
    assert("insert"@[0] == 'i');
    assert("home"@[0] == 'h');
    assert("end"@[1] == 'n' && "end"@.len() == 3);
    assert("up"@[0] == 'u');
    assert("down"@[1] == 'o' && "down"@.len() == 4);
    assert("left"@[0] == 'l');
    assert("right"@[1] == 'i');
    assert("pgup"@[0] == 'p' && "pgup"@[2] == 'u' && "pgup"@.len() == 4);
    assert("pageup"@[0] == 'p' && "pageup"@.len() == 6);
    assert("pgdn"@[0] == 'p' && "pgdn"@[2] == 'd' && "pgdn"@.len() == 4);
    assert("pagedown"@[0] == 'p' && "pagedown"@.len() == 8);
}

/// An uppercase letter and its lowercase form are 0x20 apart.
proof fn letters_are_apart(c: char)
    requires
        0x41 <= c as u32 <= 0x5a,
    ensures
        ascii_lower(c) as u32 == c as u32 + 0x20,
{
    let n: u8 = c as u8;
    assert(n as u32 == c as u32);
    let lower: u8 = (n + 0x20) as u8;
    assert(lower as char as u32 == lower as u32);
}

/// A single ASCII character means its own key, a letter in lower case; `f` and a
/// number from one to twelve a function key; any other word none.
pub proof fn words_mean_keys(p: Seq<char>)
    requires
        named_key(p) is None,
    ensures
        p.len() == 1 && (p[0] as u32) < 0x80 && !(0x41 <= p[0] as u32 <= 0x5a) ==> base_key(p)
            == Some(KeyCode::Char(p[0])),
        p.len() == 1 && 0x41 <= p[0] as u32 <= 0x5a ==> (base_key(p) matches Some(KeyCode::Char(c))
            && c as u32 == p[0] as u32 + 0x20),
        p.len() == 1 && (p[0] as u32) >= 0x80 ==> base_key(p) is None,
        p.len() > 1 && p[0] == 'f' && all_digits(p.skip(1)) && 1 <= digits_value(p.skip(1)) <= 12
            ==> (base_key(p) matches Some(KeyCode::F(n)) && n == digits_value(p.skip(1))),
        p.len() > 1 && !(p[0] == 'f' && all_digits(p.skip(1)) && 1 <= digits_value(p.skip(1))
            <= 12) ==> base_key(p) is None,
        p.len() == 0 ==> base_key(p) is None,
{
    if p.len() == 1 && 0x41 <= p[0] as u32 <= 0x5a {
        letters_are_apart(p[0]);
    }
}

/// What a binding says holds down what its words name: control, alt and shift,
/// and shift with an uppercase letter; no other modifier is ever asked for. Its
/// last part is the key.
pub proof fn bindings_hold_the_named_modifiers(spec: Seq<char>)
    requires
        key_of(spec) is Ok,
    ensures
        ({
            let parts = key_parts(spec);
            let n = parts.len() - 1;
            let key = key_of(spec)->Ok_0;
            let base = parts.last();
            &&& base_key(base) == Some(key.code)
            &&& !key.modifiers.other
            &&& key.modifiers.control <==> exists|i: int|
                0 <= i < n && (#[trigger] parts[i] == "ctrl"@ || parts[i] == "control"@)
            &&& key.modifiers.alt <==> exists|i: int|
                0 <= i < n && (#[trigger] parts[i] == "alt"@ || parts[i] == "option"@)
            &&& key.modifiers.shift <==> (base.len() == 1 && 0x41 <= base[0] as u32 <= 0x5a) || (
            exists|i: int| 0 <= i < n && #[trigger] parts[i] == "shift"@)
        }),
{
    let parts = key_parts(spec);
    let mods = parts.drop_last();
    let n = parts.len() - 1;
    let key = key_of(spec)->Ok_0;
    if exists|i: int| 0 <= i < n && (#[trigger] parts[i] == "ctrl"@ || parts[i] == "control"@) {
        let i = choose|i: int|
            0 <= i < n && (#[trigger] parts[i] == "ctrl"@ || parts[i] == "control"@);
        assert(mods[i] == parts[i]);
    }
    if exists|i: int| 0 <= i < n && (#[trigger] parts[i] == "alt"@ || parts[i] == "option"@) {
        let i = choose|i: int| 0 <= i < n && (#[trigger] parts[i] == "alt"@ || parts[i] == "option"@);
        assert(mods[i] == parts[i]);
    }
    if exists|i: int| 0 <= i < n && #[trigger] parts[i] == "shift"@ {
        let i = choose|i: int| 0 <= i < n && #[trigger] parts[i] == "shift"@;
        assert(mods[i] == parts[i]);
    }
    if key.modifiers.control {
        let i = choose|i: int|
            0 <= i < mods.len() && crate::config::is_control_word(#[trigger] mods[i]);
        assert(mods[i] == parts[i]);
    }
    if key.modifiers.alt {
        let i = choose|i: int| 0 <= i < mods.len() && crate::config::is_alt_word(#[trigger] mods[i]);
        assert(mods[i] == parts[i]);
    }
    if key.modifiers.shift && !(parts.last().len() == 1 && 0x41 <= parts.last()[0] as u32 <= 0x5a) {
        let i = choose|i: int|
            0 <= i < mods.len() && crate::config::is_shift_word(#[trigger] mods[i]);
        assert(mods[i] == parts[i]);
    }
}

/// A binding is refused for an empty part, else for the first word before the
/// key that is no modifier, else for a key that is none; each refusal repeats
/// the binding.
pub proof fn bindings_are_refused_for_a_reason(spec: Seq<char>)
    ensures
        ({
            let parts = key_parts(spec);
            let hollow = exists|i: int| 0 <= i < parts.len() && (#[trigger] parts[i]).len() == 0;
            let odd = exists|i: int|
                0 <= i < parts.len() - 1 && !is_modifier_word(#[trigger] parts[i]);
            &&& hollow ==> key_of(spec) == Err::<KeyEvent, KeyErrorV>(KeyErrorV::Empty { spec })
            &&& !hollow && odd ==> (key_of(spec) matches Err(KeyErrorV::UnsupportedModifier {
                modifier,
                spec: s,
            }) && s == spec)
            &&& !hollow && !odd && base_key(parts.last()) is None ==> key_of(spec) == Err::<
                KeyEvent,
                KeyErrorV,
            >(KeyErrorV::UnsupportedKey { key: parts.last(), spec })
            &&& !hollow && !odd && base_key(parts.last()) is Some ==> key_of(spec) is Ok
        }),
{
    let parts = key_parts(spec);
    let mods = parts.drop_last();
    if exists|i: int| 0 <= i < parts.len() - 1 && !is_modifier_word(#[trigger] parts[i]) {
        let i = choose|i: int| 0 <= i < parts.len() - 1 && !is_modifier_word(#[trigger] parts[i]);
        assert(mods[i] == parts[i]);
    }
    if exists|i: int| 0 <= i < mods.len() && !is_modifier_word(#[trigger] mods[i]) {
        let i = choose|i: int| 0 <= i < mods.len() && !is_modifier_word(#[trigger] mods[i]);
        assert(mods[i] == parts[i]);
    }
}

/// The words that hold a modifier down are accepted, and so are those of keys
/// that a terminal does not report.
pub proof fn modifier_words_are_accepted(p: Seq<char>)
    ensures
        is_modifier_word(p) <==> p == "ctrl"@ || p == "control"@ || p == "alt"@ || p == "option"@
            || p == "shift"@ || p == "super"@ || p == "meta"@ || p == "cmd"@ || p == "cmdorctrl"@,
{
}

/// Every binding of the settings is the press of the action it is written for.
pub proof fn bindings_are_for_their_action(c: KeymapConfig, km: Keymap)
    requires
        forall|i: int|
            0 <= i < c.bindings().len() ==> key_of(#[trigger] c.bindings()[i]) == Ok::<
                KeyEvent,
                KeyErrorV,
            >(km.presses()[i]),
    ensures
        key_of(c.scroll_up@) == Ok::<KeyEvent, KeyErrorV>(km.scroll_up),
        key_of(c.scroll_down@) == Ok::<KeyEvent, KeyErrorV>(km.scroll_down),
        key_of(c.scroll_to_top@) == Ok::<KeyEvent, KeyErrorV>(km.scroll_to_top),
        key_of(c.scroll_to_bottom@) == Ok::<KeyEvent, KeyErrorV>(km.scroll_to_bottom),
        key_of(c.search_text@) == Ok::<KeyEvent, KeyErrorV>(km.search_text),
        key_of(c.select@) == Ok::<KeyEvent, KeyErrorV>(km.select),
        key_of(c.pane_prev@) == Ok::<KeyEvent, KeyErrorV>(km.pane_prev),
        key_of(c.pane_next@) == Ok::<KeyEvent, KeyErrorV>(km.pane_next),
        key_of(c.dismiss@) == Ok::<KeyEvent, KeyErrorV>(km.dismiss),
        key_of(c.quit@) == Ok::<KeyEvent, KeyErrorV>(km.quit),
        key_of(c.open_settings@) == Ok::<KeyEvent, KeyErrorV>(km.open_settings),
        key_of(c.focus_write@) == Ok::<KeyEvent, KeyErrorV>(km.focus_write),
        key_of(c.send@) == Ok::<KeyEvent, KeyErrorV>(km.send),
        key_of(c.newline@) == Ok::<KeyEvent, KeyErrorV>(km.newline),
        key_of(c.retry_connection@) == Ok::<KeyEvent, KeyErrorV>(km.retry_connection),
        key_of(c.play_pause@) == Ok::<KeyEvent, KeyErrorV>(km.play_pause),
        key_of(c.seek_back@) == Ok::<KeyEvent, KeyErrorV>(km.seek_back),
        key_of(c.seek_forward@) == Ok::<KeyEvent, KeyErrorV>(km.seek_forward),
{
    let b = c.bindings();
    assert(b.len() == 18);
    assert(key_of(b[0]) == Ok::<KeyEvent, KeyErrorV>(km.presses()[0]));
    assert(key_of(b[1]) == Ok::<KeyEvent, KeyErrorV>(km.presses()[1]));
    assert(key_of(b[2]) == Ok::<KeyEvent, KeyErrorV>(km.presses()[2]));
    assert(key_of(b[3]) == Ok::<KeyEvent, KeyErrorV>(km.presses()[3]));
    assert(key_of(b[4]) == Ok::<KeyEvent, KeyErrorV>(km.presses()[4]));
    assert(key_of(b[5]) == Ok::<KeyEvent, KeyErrorV>(km.presses()[5]));
    assert(key_of(b[6]) == Ok::<KeyEvent, KeyErrorV>(km.presses()[6]));
    assert(key_of(b[7]) == Ok::<KeyEvent, KeyErrorV>(km.presses()[7]));
    assert(key_of(b[8]) == Ok::<KeyEvent, KeyErrorV>(km.presses()[8]));
    assert(key_of(b[9]) == Ok::<KeyEvent, KeyErrorV>(km.presses()[9]));
    assert(key_of(b[10]) == Ok::<KeyEvent, KeyErrorV>(km.presses()[10]));
    assert(key_of(b[11]) == Ok::<KeyEvent, KeyErrorV>(km.presses()[11]));
    assert(key_of(b[12]) == Ok::<KeyEvent, KeyErrorV>(km.presses()[12]));
    assert(key_of(b[13]) == Ok::<KeyEvent, KeyErrorV>(km.presses()[13]));
    assert(key_of(b[14]) == Ok::<KeyEvent, KeyErrorV>(km.presses()[14]));
    assert(key_of(b[15]) == Ok::<KeyEvent, KeyErrorV>(km.presses()[15]));
    assert(key_of(b[16]) == Ok::<KeyEvent, KeyErrorV>(km.presses()[16]));
    assert(key_of(b[17]) == Ok::<KeyEvent, KeyErrorV>(km.presses()[17]));
}

}
