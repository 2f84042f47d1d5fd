//! Laws of what a key press does, whatever the bindings are.
use vstd::prelude::*;

use crate::backend::{ChatIdV, MessageAction, MessageV, Provider, ReplyContextV};
use crate::config::Keymap;
use crate::keys::{KeyCode, KeyEvent};
use crate::tui::chat_model::{message_search_dropped, search_cleared, ChatStateV};
use crate::tui::chat_widget::Focus;
use crate::tui::list_state::ListState;
use crate::tui::ui::{
    awaits_media, chat_step, list_step, main_step, popup_of_message, popup_step, route_of,
    settings_step, shared_step, AudioAction, MainActionV, MainContext, PopupActionV, PopupKindV,
    PopupV, Screen, SettingsAction,
};

verus! {

/// Whether a press is that of a character with no modifier held.
pub open spec fn is_plain(key: KeyEvent, c: char) -> bool {
    &&& key.code == KeyCode::Char(c)
    &&& !key.modifiers.shift
    &&& !key.modifiers.control
    &&& !key.modifiers.alt
    &&& !key.modifiers.other
}

/// Presses of different keys are never the same; of one key they are where the
/// same modifiers are held. Shift counts as held with an uppercase letter.
pub proof fn presses_are_told_apart(a: KeyEvent, b: KeyEvent)
    ensures
        a == b ==> a.same_as(b),
        a.same_as(b) ==> b.same_as(a),
        a.same_as(b) ==> a.modifiers.control == b.modifiers.control && a.modifiers.alt
            == b.modifiers.alt && a.modifiers.other == b.modifiers.other,
        !(a.code is Char) ==> (a.same_as(b) <==> a == b),
        (a.code matches KeyCode::Char(c) && (0x30 <= c as u32 <= 0x39 || c as u32 <= 0x20)) ==> (
        a.same_as(b) ==> a == b),
        (a.code matches KeyCode::Char(c) && b.code matches KeyCode::Char(d) && !a.modifiers.shift
            && !b.modifiers.shift && 0x61 <= c as u32 <= 0x7a && c != d) ==> !a.same_as(b),
        (a.code matches KeyCode::Char(c) && b.code matches KeyCode::Char(d) && 0x61 <= c as u32
            <= 0x7a && c == d && a.modifiers.shift != b.modifiers.shift) ==> !a.same_as(b),
{
}

/// The quit key ends the program from anywhere, and no other key does; an open
/// popup has the keyboard before the screen.
pub proof fn keys_go_where_the_keyboard_is(km: Keymap, key: KeyEvent, popup: bool, screen: Screen)
    ensures
        route_of(km, key, popup, screen) is Quit <==> key.same_as(km.quit),
        !key.same_as(km.quit) ==> (route_of(km, key, popup, screen) is Popup <==> popup),
        !key.same_as(km.quit) && !popup ==> (route_of(km, key, popup, screen) is Settings
            <==> screen is Settings),
        !key.same_as(km.quit) && !popup ==> (route_of(km, key, popup, screen) is Main
            <==> screen is Main),
        !key.same_as(km.quit) && !popup ==> (route_of(km, key, popup, screen) is Login
            <==> screen is Login),
{
}

/// The settings close on dismiss and on their own key; up and down move between
/// the two providers without leaving them; the select key alone switches one,
/// the first row Telegram and the second WhatsApp.
pub proof fn settings_keys_switch_the_selected_provider(km: Keymap, key: KeyEvent, s: ListState)
    ensures
        ({
            let (s2, a) = settings_step(km, key, s);
            let closes = key.same_as(km.dismiss) || key.same_as(km.open_settings);
            let up = !closes && key.same_as(km.scroll_up);
            let down = !closes && !up && key.same_as(km.scroll_down);
            let picks = !closes && !up && !down && key.same_as(km.select);
            let row = if s.selected is Some { s.selected.unwrap() as int } else { 0 };
            &&& a is Close <==> closes
            &&& a is Toggle ==> picks
            &&& picks && row == 0 ==> a == SettingsAction::Toggle(Provider::Telegram)
            &&& picks && row == 1 ==> a == SettingsAction::Toggle(Provider::WhatsApp)
            &&& !up && !down ==> s2 == s
            &&& up && row > 0 ==> s2.selected == Some((row - 1) as usize)
            &&& up && row == 0 ==> s2.selected == Some(0usize)
            &&& down && row == 0 ==> s2.selected == Some(1usize)
            &&& down && row == 1 ==> s2 == s
        }),
{
}

/// In the write box the send key sends, and nothing else does; the newline key
/// and every other press of enter break the line.
pub proof fn only_the_send_key_sends(
    st: ChatStateV,
    list_typed: ChatStateV,
    message_typed: ChatStateV,
    cx: MainContext,
    km: Keymap,
    key: KeyEvent,
)
    requires
        cx.focus == Focus::Write,
        cx.insert,
        !key.same_as(km.pane_next),
        !key.same_as(km.dismiss),
    ensures
        ({
            let (st2, a) = main_step(st, list_typed, message_typed, cx, km, key);
            &&& a is Send <==> key.same_as(km.send)
            &&& a is Newline <==> !key.same_as(km.send) && (key.same_as(km.newline) || key.code
                == KeyCode::Enter)
            &&& a is Type <==> !key.same_as(km.send) && !key.same_as(km.newline) && key.code
                != KeyCode::Enter
            &&& st2 == st
        }),
{
}

/// Only the write box ever asks to send, to break a line or to type, and from it
/// dismiss and the key to the next pane leave.
pub proof fn only_the_write_box_writes(
    st: ChatStateV,
    list_typed: ChatStateV,
    message_typed: ChatStateV,
    cx: MainContext,
    km: Keymap,
    key: KeyEvent,
)
    ensures
        ({
            let a = main_step(st, list_typed, message_typed, cx, km, key).1;
            &&& a is Send || a is Newline || a is Type ==> cx.focus == Focus::Write
            &&& cx.focus == Focus::Write && cx.insert && (key.same_as(km.dismiss) || key.same_as(
                km.pane_next,
            )) ==> a is CycleFocus
            &&& cx.focus == Focus::Write ==> main_step(
                st,
                list_typed,
                message_typed,
                cx,
                km,
                key,
            ).0 == st
            &&& cx.focus == Focus::Popup ==> main_step(
                st,
                list_typed,
                message_typed,
                cx,
                km,
                key,
            ).0 == st
        }),
{
}

/// What the keys that work in every pane ask for. Dismiss gives up a wait that a
/// provider asked for, else a chat that is still loading, else goes to the next
/// pane; a search comes before all of these.
pub proof fn shared_keys_ask_for_their_action(
    st: ChatStateV,
    list_typed: ChatStateV,
    message_typed: ChatStateV,
    cx: MainContext,
    km: Keymap,
    key: KeyEvent,
)
    requires
        !cx.insert,
    ensures
        ({
            let (st2, a) = main_step(st, list_typed, message_typed, cx, km, key);
            let searching = cx.list_search_active || cx.message_search_active;
            let leaves = key.same_as(km.dismiss) && !searching;
            let retries = key.same_as(km.retry_connection);
            let settings = key.same_as(km.open_settings);
            let next = key.same_as(km.pane_next);
            let writes = key.same_as(km.focus_write);
            &&& leaves && cx.rate_limited ==> a is CancelRateLimitWait
            &&& a is CancelRateLimitWait ==> leaves && cx.rate_limited
            &&& retries && !(leaves && cx.rate_limited) ==> a is Reconnect
            &&& a is Reconnect ==> retries
            &&& leaves && !cx.rate_limited && !retries && cx.focus == Focus::Chat
                && st.open_chat is None ==> a is AbandonLoad
            &&& a is AbandonLoad ==> leaves && cx.focus == Focus::Chat && st.open_chat is None
            &&& leaves && !cx.rate_limited && !retries && !(cx.focus == Focus::Chat
                && st.open_chat is None) ==> a is CycleFocus
            &&& settings && !leaves && !retries ==> a is OpenSettings
            &&& a is OpenSettings ==> settings
            &&& next && !leaves && !retries && !settings ==> a is CycleFocus
            &&& writes && !next && !leaves && !retries && !settings && st.open_chat is Some
                ==> a is FocusWrite
            &&& a is FocusWrite ==> writes && st.open_chat is Some
            &&& writes && !next && !leaves && !retries && !settings && st.open_chat is None
                && cx.selected_chat is Some ==> a == MainActionV::LoadAndWrite(
                cx.selected_chat.unwrap(),
            )
            &&& a is LoadAndWrite ==> writes && st.open_chat is None
            &&& leaves || retries || settings || next || writes ==> st2 == st
        }),
{
}

/// In the chat list up and down move the selection by one row, top and bottom
/// to the ends, and the select key opens the selected chat; nothing else does.
pub proof fn list_keys_move_and_open(
    st: ChatStateV,
    typed: ChatStateV,
    cx: MainContext,
    km: Keymap,
    key: KeyEvent,
)
    requires
        !cx.list_search_typing,
        !(key.same_as(km.dismiss) && (cx.list_search_active || cx.message_search_active)),
        !key.same_as(km.search_text),
    ensures
        ({
            let (st2, a) = list_step(st, typed, cx, km, key);
            let row = st.chat_list_state.selected;
            let up = key.same_as(km.scroll_up);
            let bottom = !up && key.same_as(km.scroll_to_bottom);
            let top = !up && !bottom && key.same_as(km.scroll_to_top);
            let down = !up && !bottom && !top && key.same_as(km.scroll_down);
            let picks = !up && !bottom && !top && !down && key.same_as(km.select)
                && st.chats.len() > 0 && row is Some;
            &&& up && row is Some && row.unwrap() > 0 ==> st2.chat_list_state.selected == Some(
                (row.unwrap() - 1) as usize,
            )
            &&& up && row == Some(0usize) ==> st2.chat_list_state.selected == Some(0usize)
            &&& down && row is Some && row.unwrap() < usize::MAX ==> st2.chat_list_state.selected
                == Some((row.unwrap() + 1) as usize)
            &&& down && row is None ==> st2.chat_list_state.selected == Some(0usize)
            &&& top ==> st2.chat_list_state.selected == Some(0usize)
            &&& bottom ==> st2.chat_list_state.selected == Some(usize::MAX)
            &&& picks && cx.selected_chat is Some ==> a == MainActionV::LoadChat(
                cx.selected_chat.unwrap(),
            )
            &&& picks && cx.selected_chat is None ==> a is NoChatSelected
            &&& a is LoadChat || a is NoChatSelected ==> picks
            &&& !picks ==> a is Done
            &&& !up && !down && !top && !bottom ==> st2 == st
            &&& st2.chats == st.chats
            &&& st2.open_chat == st.open_chat
            &&& st2.message_list_state == st.message_list_state
        }),
{
}

/// While the user types a search of the chat list every key goes to the search:
/// dismiss drops it, select keeps what was found, and all others are typed.
pub proof fn list_search_has_the_keyboard(
    st: ChatStateV,
    typed: ChatStateV,
    cx: MainContext,
    km: Keymap,
    key: KeyEvent,
)
    ensures
        ({
            let (st2, a) = list_step(st, typed, cx, km, key);
            &&& cx.list_search_typing ==> a is Done
            &&& cx.list_search_typing && key.same_as(km.dismiss) ==> st2 == search_cleared(st)
            &&& cx.list_search_typing && !key.same_as(km.dismiss) && key.same_as(km.select)
                ==> !st2.search.inserting && st2.search.query == st.search.query
            &&& cx.list_search_typing && !key.same_as(km.dismiss) && !key.same_as(km.select) ==> st2
                == typed
            &&& !cx.list_search_typing && key.same_as(km.dismiss) && cx.list_search_active ==> st2
                == search_cleared(st) && a is Done
            &&& !cx.list_search_typing && key.same_as(km.search_text) && !key.same_as(km.dismiss)
                ==> st2.search.inserting && st2.search.query.len() == 0 && a is Done
        }),
{
}

/// In the open chat up and down move by one message and a page key by a page,
/// within the history; up and page up at the top ask for older messages, and
/// nothing else does. The select key opens the selected message.
pub proof fn chat_keys_move_and_open(
    st: ChatStateV,
    typed: ChatStateV,
    cx: MainContext,
    km: Keymap,
    key: KeyEvent,
)
    requires
        !cx.message_search_typing,
        !(key.same_as(km.dismiss) && cx.message_search_active),
        !key.same_as(km.search_text),
        st.open_chat is Some ==> st.open_chat.unwrap().history.len() <= usize::MAX,
    ensures
        ({
            let (st2, a) = chat_step(st, typed, cx, km, key);
            let row = st.message_list_state.selected;
            let n = if st.open_chat is Some { st.open_chat.unwrap().history.len() as int } else {
                0
            };
            let new = st2.message_list_state.selected;
            let up = key.same_as(km.scroll_up);
            let down = !up && key.same_as(km.scroll_down);
            let top = !up && !down && key.same_as(km.scroll_to_top);
            let bottom = !up && !down && !top && key.same_as(km.scroll_to_bottom);
            let back = !up && !down && !top && !bottom && key.code == KeyCode::PageUp;
            let on = !up && !down && !top && !bottom && key.code == KeyCode::PageDown;
            let picks = !up && !down && !top && !bottom && !back && !on && key.same_as(km.select);
            &&& a is LoadMoreHistory <==> (up && row == Some(0usize)) || (back && (row is None
                || row == Some(0usize)))
            &&& a is LoadMoreHistory ==> st2 == st
            &&& up && row is Some && row.unwrap() > 0 ==> new == Some((row.unwrap() - 1) as usize)
            &&& down && row is Some && row.unwrap() < usize::MAX ==> new == Some(
                (row.unwrap() + 1) as usize,
            )
            &&& down && row is None ==> new == Some(0usize)
            &&& top ==> new == Some(0usize)
            &&& bottom && n > 0 ==> new == Some((n - 1) as usize)
            &&& bottom && st.open_chat is None ==> new is None
            &&& back && row is Some && row.unwrap() > st.visible_page ==> new == Some(
                (row.unwrap() - st.visible_page) as usize,
            )
            &&& back && row is Some && 0 < row.unwrap() <= st.visible_page ==> new == Some(0usize)
            &&& on && row is Some && row.unwrap() + st.visible_page < n ==> new == Some(
                (row.unwrap() + st.visible_page) as usize,
            )
            &&& on && row is Some && row.unwrap() + st.visible_page >= n && n > 0 ==> new == Some(
                (n - 1) as usize,
            )
            &&& a is OpenMessage ==> picks
            &&& picks && row is Some && row.unwrap() < n ==> ({
                let m = st.open_chat.unwrap().history[row.unwrap() as int];
                &&& a == (MainActionV::OpenMessage {
                    message: m,
                    fetch_quote: m.reply_to_id is Some && m.reply_ctx is None,
                })
            })
            &&& picks && (row is None || row.unwrap() >= n) ==> a is Done
            &&& !up && !down && !top && !bottom && !back && !on ==> st2 == st
            &&& !(a is LoadMoreHistory) && !(a is OpenMessage) ==> a is Done
            &&& st2.chats == st.chats
            &&& st2.open_chat == st.open_chat
            &&& st2.chat_list_state == st.chat_list_state
        }),
{
}

/// While the user types a message search every key goes to it: dismiss drops
/// it, select accepts it, and all others are typed.
pub proof fn message_search_has_the_keyboard(
    st: ChatStateV,
    typed: ChatStateV,
    cx: MainContext,
    km: Keymap,
    key: KeyEvent,
)
    ensures
        ({
            let (st2, a) = chat_step(st, typed, cx, km, key);
            let ends = key.same_as(km.dismiss);
            &&& cx.message_search_typing ==> a is Done
            &&& cx.message_search_typing && ends ==> st2 == message_search_dropped(st)
            &&& cx.message_search_typing && !ends && key.same_as(km.select)
                ==> !st2.message_search.inserting && st2.message_search.query
                == st.message_search.query
            &&& cx.message_search_typing && !ends && !key.same_as(km.select) ==> st2 == typed
            &&& !cx.message_search_typing && ends && cx.message_search_active ==> st2
                == message_search_dropped(st) && a is Done
            &&& !cx.message_search_typing && !ends && key.same_as(km.search_text)
                && st.open_chat is Some ==> st2.message_search.inserting
                && st2.message_search.query.len() == 0 && st2.message_search_anchor
                == st.message_list_state.selected
        }),
{
}

/// Which pane a key is for: the list's keys change the list, the chat's the open
/// chat.
pub proof fn panes_handle_their_own_keys(
    st: ChatStateV,
    list_typed: ChatStateV,
    message_typed: ChatStateV,
    cx: MainContext,
    km: Keymap,
    key: KeyEvent,
)
    requires
        shared_step(st, cx, km, key) is None,
    ensures
        cx.focus == Focus::ChatList ==> main_step(st, list_typed, message_typed, cx, km, key)
            == list_step(st, list_typed, cx, km, key),
        cx.focus == Focus::Chat ==> main_step(st, list_typed, message_typed, cx, km, key)
            == chat_step(st, message_typed, cx, km, key),
{
}

// Popups.

/// On the question whether to delete, a plain 1 deletes the selected message and
/// closes the popup, a plain 2 closes it and deletes nothing, and no other key
/// deletes.
pub proof fn only_yes_deletes(
    text: Seq<char>,
    scroll_idx: usize,
    id: Seq<char>,
    retry: bool,
    km: Keymap,
    key: KeyEvent,
)
    requires
        !key.same_as(km.dismiss),
    ensures
        ({
            let p = PopupV { popup_type: PopupKindV::Question(text), scroll_idx };
            let (p2, a) = popup_step(p, Some(id), retry, km, key);
            &&& is_plain(key, '1') ==> p2 is None && a == (PopupActionV::Delete {
                id,
                was_audio: false,
            })
            &&& is_plain(key, '2') ==> p2 is None && a == (PopupActionV::Dismissed {
                was_audio: false,
            })
            &&& a is Delete ==> is_plain(key, '1')
        }),
{
}

/// Nothing is deleted without the user's yes: a deletion is only ever asked for
/// by a plain 1, of the message that is shown or selected, and it closes the
/// popup. Without a selected message a question deletes nothing.
pub proof fn deletions_are_always_confirmed(
    p: PopupV,
    selected: Option<Seq<char>>,
    retry: bool,
    km: Keymap,
    key: KeyEvent,
)
    ensures
        ({
            let (p2, a) = popup_step(p, selected, retry, km, key);
            &&& a is Delete ==> is_plain(key, '1') && !key.same_as(km.dismiss) && p2 is None
            &&& a is Delete && p.popup_type is Question ==> selected is Some && a == (
            PopupActionV::Delete { id: selected.unwrap(), was_audio: false })
            &&& p.popup_type is Question && selected is None ==> !(a is Delete)
            &&& p.popup_type is Info || p.popup_type is Warn || p.popup_type is Error ==> !(
            a is Delete)
        }),
{
}

/// The dismiss key closes every popup and asks for nothing else; what plays is
/// to be stopped exactly where the popup was an audio message's.
pub proof fn dismiss_closes_every_popup(
    p: PopupV,
    selected: Option<Seq<char>>,
    retry: bool,
    km: Keymap,
    key: KeyEvent,
)
    requires
        key.same_as(km.dismiss),
    ensures
        popup_step(p, selected, retry, km, key) == (
            None::<PopupV>,
            PopupActionV::Dismissed { was_audio: p.popup_type is Audio },
        ),
{
}

/// The keys of the player work on an audio popup alone, leave it open, and ask
/// for what they are bound to.
pub proof fn player_keys_play(
    p: PopupV,
    selected: Option<Seq<char>>,
    retry: bool,
    km: Keymap,
    key: KeyEvent,
)
    requires
        !key.same_as(km.dismiss),
    ensures
        ({
            let (p2, a) = popup_step(p, selected, retry, km, key);
            let audio = p.popup_type is Audio;
            let plays = key.same_as(km.play_pause);
            let back = key.same_as(km.seek_back);
            let on = key.same_as(km.seek_forward);
            &&& audio && plays ==> a == PopupActionV::Audio(AudioAction::PlayPause)
            &&& audio && !plays && back ==> a == PopupActionV::Audio(AudioAction::SeekBack)
            &&& audio && !plays && !back && on ==> a == PopupActionV::Audio(
                AudioAction::SeekForward,
            )
            &&& a is Audio ==> audio && (plays || back || on) && p2 is Some
                && p2.unwrap().popup_type == p.popup_type
        }),
{
}

/// A digit on a message picks the action of that number: reply and edit close
/// the popup and name the message, and delete asks first where its number is
/// beyond two. A number without an action does nothing.
pub proof fn digits_pick_the_numbered_action(
    p: PopupV,
    m: MessageV,
    selected: Option<Seq<char>>,
    retry: bool,
    km: Keymap,
    key: KeyEvent,
    c: char,
)
    requires
        p.popup_type == PopupKindV::Message(m) || p.popup_type == PopupKindV::Image(m),
        key.code == KeyCode::Char(c),
        0x31 <= c as u32 <= 0x39,
        !key.same_as(km.dismiss),
    ensures
        ({
            let (p2, a) = popup_step(p, selected, retry, km, key);
            let n = c as u32 - 0x31;
            let there = n < m.msg_actions.len();
            let action = m.msg_actions[n];
            &&& there && action is Reply ==> p2 is None && a == (PopupActionV::Reply {
                id: m.message_id,
                was_audio: false,
            })
            &&& there && action is Edit ==> p2 is None && a == (PopupActionV::Edit {
                id: m.message_id,
                was_audio: false,
            })
            &&& there && action is Delete && n >= 2 ==> a == (PopupActionV::AskDelete {
                was_audio: false,
            }) && p2 is Some && p2.unwrap().popup_type == PopupKindV::Question(
                "Do you really want to delete this message?"@,
            )
            &&& there && action is Retry ==> p2 is None && a == (PopupActionV::Dismissed {
                was_audio: false,
            })
            &&& !there ==> a is Nothing && p2 is Some && p2.unwrap().popup_type == p.popup_type
            &&& a is Reply ==> there && action is Reply
            &&& a is Edit ==> there && action is Edit
            &&& a is AskDelete ==> there && action is Delete
        }),
{
}

/// The same holds of an audio message, but for the keys of its player.
pub proof fn digits_pick_the_action_of_audio(
    p: PopupV,
    m: MessageV,
    note: Option<Seq<char>>,
    selected: Option<Seq<char>>,
    retry: bool,
    km: Keymap,
    key: KeyEvent,
    c: char,
)
    requires
        p.popup_type == (PopupKindV::Audio { msg: m, error_note: note }),
        key.code == KeyCode::Char(c),
        0x31 <= c as u32 <= 0x39,
        !key.same_as(km.dismiss),
        !key.same_as(km.play_pause),
        !key.same_as(km.seek_back),
        !key.same_as(km.seek_forward),
    ensures
        ({
            let (p2, a) = popup_step(p, selected, retry, km, key);
            let n = c as u32 - 0x31;
            let there = n < m.msg_actions.len();
            let action = m.msg_actions[n];
            &&& there && action is Reply ==> p2 is None && a == (PopupActionV::Reply {
                id: m.message_id,
                was_audio: true,
            })
            &&& there && action is Edit ==> p2 is None && a == (PopupActionV::Edit {
                id: m.message_id,
                was_audio: true,
            })
            &&& there && action is Delete && n >= 2 ==> a == (PopupActionV::AskDelete {
                was_audio: true,
            }) && p2 is Some && p2.unwrap().popup_type is Question
            &&& !there ==> a is Nothing && p2 is Some
        }),
{
}

/// Keys that are neither bound nor digits leave a popup as it is, but for its
/// scrolling: up and down by one line, and to the top.
pub proof fn popups_scroll_by_lines(
    p: PopupV,
    selected: Option<Seq<char>>,
    retry: bool,
    km: Keymap,
    key: KeyEvent,
)
    requires
        !key.same_as(km.dismiss),
        !(key.code matches KeyCode::Char(c) && 0x30 <= c as u32 <= 0x39),
    ensures
        ({
            let (p2, a) = popup_step(p, selected, retry, km, key);
            let q = p2.unwrap();
            let up = key.same_as(km.scroll_up);
            let top = !up && key.same_as(km.scroll_to_top);
            let down = !up && !top && key.same_as(km.scroll_down);
            &&& p2 is Some && q.popup_type == p.popup_type
            &&& a is Nothing || a is Audio
            &&& up && p.scroll_idx > 0 ==> q.scroll_idx == p.scroll_idx - 1
            &&& up && p.scroll_idx == 0 ==> q.scroll_idx == 0
            &&& top ==> q.scroll_idx == 0
            &&& down && p.scroll_idx < usize::MAX ==> q.scroll_idx == p.scroll_idx + 1
            &&& !up && !top && !down ==> q.scroll_idx == p.scroll_idx
        }),
{
}

/// A failed draft is sent again by a plain 1 on the error alone, which closes
/// it.
pub proof fn drafts_are_retried_from_the_error(
    p: PopupV,
    selected: Option<Seq<char>>,
    retry: bool,
    km: Keymap,
    key: KeyEvent,
)
    requires
        !key.same_as(km.dismiss),
    ensures
        popup_step(p, selected, retry, km, key).1 is RetryDraft <==> p.popup_type is Error && retry
            && is_plain(key, '1'),
        popup_step(p, selected, retry, km, key).1 is RetryDraft ==> popup_step(
            p,
            selected,
            retry,
            km,
            key,
        ).0 is None,
{
}

/// A message opens as a picture, as audio or as text, by what it carries; with
/// the quote that was fetched, else the one it had; and with the actions that it
/// allows: none while it is on its way or failed, editing and deleting only the
/// user's own.
pub proof fn messages_open_by_their_media(m: MessageV, quote: Option<ReplyContextV>)
    ensures
        ({
            let kind = popup_of_message(m, quote);
            let shown = match kind {
                PopupKindV::Message(x) => x,
                PopupKindV::Image(x) => x,
                PopupKindV::Audio { msg, .. } => msg,
                _ => m,
            };
            let unsettled = m.pending || m.failed;
            &&& kind is Image <==> m.media is Some && m.media.unwrap().kind is Image
            &&& kind is Audio <==> m.media is Some && m.media.unwrap().kind is Audio
            &&& kind is Message <==> !(kind is Image) && !(kind is Audio)
            &&& shown.message_id == m.message_id
            &&& shown.chat == m.chat
            &&& shown.text == m.text
            &&& shown.sender == m.sender
            &&& quote is Some ==> shown.reply_ctx == quote
            &&& quote is None ==> shown.reply_ctx == m.reply_ctx
            &&& unsettled ==> shown.msg_actions.len() == 0
            &&& !unsettled ==> shown.msg_actions.len() > 0 && shown.msg_actions[0]
                == MessageAction::Reply
            &&& !unsettled && m.from_me ==> shown.msg_actions == seq![
                MessageAction::Reply,
                MessageAction::Edit,
                MessageAction::Delete,
            ]
            &&& !unsettled && !m.from_me ==> shown.msg_actions == seq![MessageAction::Reply]
        }),
{
}

/// Fetched media are shown only in the popup of their own message and kind.
pub proof fn media_reach_only_their_popup(
    kind: PopupKindV,
    audio: bool,
    chat: ChatIdV,
    id: Seq<char>,
)
    ensures
        awaits_media(kind, audio, chat, id) ==> kind is Image || kind is Audio,
        awaits_media(kind, audio, chat, id) ==> (audio <==> kind is Audio),
        kind matches PopupKindV::Image(m) ==> (awaits_media(kind, audio, chat, id) <==> !audio
            && m.chat == chat && m.message_id == id),
        kind matches PopupKindV::Audio { msg, .. } ==> (awaits_media(kind, audio, chat, id)
            <==> audio && msg.chat == chat && msg.message_id == id),
{
}

}
