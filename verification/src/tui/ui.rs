//! What key presses do: which action each one asks for on each screen.
use vstd::prelude::*;

use crate::backend::{
    opt_view, BackendError, ChatId, ChatIdV, MediaKind, MediaKindV, Message, MessageAction,
    MessageId, MessageV, Provider, ReplyContext, ReplyContextV,
};
use crate::config::Keymap;
use crate::helpers::{actions_of, available_message_actions};
use crate::keys::{KeyCode, KeyEvent, KeyModifiers};
use crate::text::{joined, owned};
use crate::tui::chat::{selected_message_of, ChatState};
use crate::tui::chat_model::{
    message_query_typed, message_search_accepted, message_search_begun, message_search_dropped,
    search_cleared, search_refreshed, ChatStateV,
};
use crate::tui::chat_widget::Focus;
use crate::tui::list_state::{row_above, row_below, with_selected, ListState};
use crate::tui::search::{no_search, SearchV};

verus! {

/// The screen that is shown.
#[derive(Clone, Copy, Debug, PartialEq, Eq, Structural)]
pub enum Screen {
    Main,
    Settings,
    Login,
}

/// Who handles a key press.
#[derive(Clone, Copy, Debug, PartialEq, Eq, Structural)]
pub enum KeyRoute {
    Quit,
    Popup,
    Settings,
    Main,
    Login,
}

/// Who handles a key press: the quit key ends the program from anywhere, then
/// an open popup has the keyboard, then the screen.
pub open spec fn route_of(km: Keymap, key: KeyEvent, popup: bool, screen: Screen) -> KeyRoute {
    if key.same_as(km.quit) {
        KeyRoute::Quit
    } else if popup {
        KeyRoute::Popup
    } else {
        match screen {
            Screen::Settings => KeyRoute::Settings,
            Screen::Main => KeyRoute::Main,
            Screen::Login => KeyRoute::Login,
        }
    }
}

/// Who handles a key press.
pub fn handle_key(km: &Keymap, key: KeyEvent, popup: bool, screen: Screen) -> (r: KeyRoute)
    ensures
        r == route_of(*km, key, popup, screen),
{
    if key == km.quit {
        KeyRoute::Quit
    } else if popup {
        KeyRoute::Popup
    } else {
        match screen {
            Screen::Settings => KeyRoute::Settings,
            Screen::Main => KeyRoute::Main,
            Screen::Login => KeyRoute::Login,
        }
    }
}

// Settings.

/// What a key press asks for on the settings screen.
#[derive(Clone, Copy, Debug, PartialEq, Eq, Structural)]
pub enum SettingsAction {
    Nothing,
    Close,
    Toggle(Provider),
}

/// The settings list after a key press, and the action asked for.
pub open spec fn settings_step(km: Keymap, key: KeyEvent, s: ListState) -> (
    ListState,
    SettingsAction,
) {
    let row = match s.selected {
        Some(i) => i as int,
        None => 0,
    };
    if key.same_as(km.dismiss) || key.same_as(km.open_settings) {
        (s, SettingsAction::Close)
    } else if key.same_as(km.scroll_up) {
        (
            with_selected(s, Some(if row > 0 { (row - 1) as usize } else { 0 })),
            SettingsAction::Nothing,
        )
    } else if key.same_as(km.scroll_down) {
        (
            if row + 1 < 2 {
                with_selected(s, Some((row + 1) as usize))
            } else {
                s
            },
            SettingsAction::Nothing,
        )
    } else if key.same_as(km.select) {
        (
            s,
            if row == 0 {
                SettingsAction::Toggle(Provider::Telegram)
            } else if row == 1 {
                SettingsAction::Toggle(Provider::WhatsApp)
            } else {
                SettingsAction::Nothing
            },
        )
    } else {
        (s, SettingsAction::Nothing)
    }
}

/// Handles a key press on the settings screen.
pub fn handle_settings_key(km: &Keymap, key: KeyEvent, state: &mut ListState) -> (r: SettingsAction)
    ensures
        (*final(state), r) == settings_step(*km, key, *old(state)),
{
    let row: usize = match state.selected() {
        Some(i) => i,
        None => 0,
    };
    if key == km.dismiss || key == km.open_settings {
        SettingsAction::Close
    } else if key == km.scroll_up {
        state.select(Some(if row > 0 { row - 1 } else { 0 }));
        SettingsAction::Nothing
    } else if key == km.scroll_down {
        let all: Vec<Provider> = Provider::all();
        if row < all.len() - 1 {
            state.select(Some(row + 1));
        }
        SettingsAction::Nothing
    } else if key == km.select {
        let all: Vec<Provider> = Provider::all();
        if row < all.len() {
            SettingsAction::Toggle(all[row])
        } else {
            SettingsAction::Nothing
        }
    } else {
        SettingsAction::Nothing
    }
}

// Login.

/// What a key press asks for on the login screen.
#[derive(Clone, Copy, Debug, PartialEq, Eq, Structural)]
pub enum LoginAction {
    Cancel,
    Submit,
    /// The key goes to the text field.
    Type,
}

/// Handles a key press on the login screen.
pub fn handle_login_key(km: &Keymap, key: KeyEvent) -> (r: LoginAction)
    ensures
        r == if key.same_as(km.dismiss) {
            LoginAction::Cancel
        } else if key.same_as(km.send) {
            LoginAction::Submit
        } else {
            LoginAction::Type
        },
{
    if key == km.dismiss {
        LoginAction::Cancel
    } else if key == km.send {
        LoginAction::Submit
    } else {
        LoginAction::Type
    }
}

// Main screen.

/// What the main screen knows besides the chats when a key is pressed.
#[derive(Clone, Copy, Debug, PartialEq, Eq, Structural)]
pub struct MainContext {
    /// Whether a text field has the keyboard.
    pub insert: bool,
    pub focus: Focus,
    pub list_search_active: bool,
    pub list_search_typing: bool,
    pub message_search_active: bool,
    pub message_search_typing: bool,
    /// Whether a provider asked to wait.
    pub rate_limited: bool,
    /// The row of the chat list to open.
    pub selected_chat: Option<usize>,
}

/// What a key press on the main screen leaves to be done.
#[derive(Debug)]
pub enum MainAction {
    /// The chats took care of it, or there is nothing to do.
    Done,
    /// Give up the wait a provider asked for; where there was none to give up,
    /// the key is handled again as if none were pending.
    CancelRateLimitWait,
    Reconnect,
    /// Stop loading a chat and go back to the list.
    AbandonLoad,
    CycleFocus,
    OpenSettings,
    FocusWrite,
    /// Load a chat and go to its write box.
    LoadAndWrite(usize),
    LoadChat(usize),
    NoChatSelected,
    LoadMoreHistory,
    /// Show a message; its quote is still to be fetched where said so.
    OpenMessage { message: Message, fetch_quote: bool },
    Send,
    Newline,
    /// The key goes to the write box.
    Type,
}

/// Model of `MainAction`.
pub ghost enum MainActionV {
    Done,
    CancelRateLimitWait,
    Reconnect,
    AbandonLoad,
    CycleFocus,
    OpenSettings,
    FocusWrite,
    LoadAndWrite(usize),
    LoadChat(usize),
    NoChatSelected,
    LoadMoreHistory,
    OpenMessage { message: MessageV, fetch_quote: bool },
    Send,
    Newline,
    Type,
}

impl View for MainAction {
    type V = MainActionV;

    open spec fn view(&self) -> MainActionV {
        match *self {
            MainAction::Done => MainActionV::Done,
            MainAction::CancelRateLimitWait => MainActionV::CancelRateLimitWait,
            MainAction::Reconnect => MainActionV::Reconnect,
            MainAction::AbandonLoad => MainActionV::AbandonLoad,
            MainAction::CycleFocus => MainActionV::CycleFocus,
            MainAction::OpenSettings => MainActionV::OpenSettings,
            MainAction::FocusWrite => MainActionV::FocusWrite,
            MainAction::LoadAndWrite(i) => MainActionV::LoadAndWrite(i),
            MainAction::LoadChat(i) => MainActionV::LoadChat(i),
            MainAction::NoChatSelected => MainActionV::NoChatSelected,
            MainAction::LoadMoreHistory => MainActionV::LoadMoreHistory,
            MainAction::OpenMessage { message, fetch_quote } => MainActionV::OpenMessage {
                message: message@,
                fetch_quote,
            },
            MainAction::Send => MainActionV::Send,
            MainAction::Newline => MainActionV::Newline,
            MainAction::Type => MainActionV::Type,
        }
    }
}

/// The last row of the open chat, where one is open.
pub open spec fn last_row(st: ChatStateV) -> Option<usize> {
    match st.open_chat {
        Some(o) => Some(if o.history.len() > 0 { (o.history.len() - 1) as usize } else { 0 }),
        None => None,
    }
}

/// The chats with another row of the chat list selected.
pub open spec fn list_at(st: ChatStateV, row: usize) -> ChatStateV {
    ChatStateV { chat_list_state: with_selected(st.chat_list_state, Some(row)), ..st }
}

/// The chats with another message selected.
pub open spec fn messages_at(st: ChatStateV, row: Option<usize>) -> ChatStateV {
    ChatStateV { message_list_state: with_selected(st.message_list_state, row), ..st }
}

/// What a press of `key` does in the chat list. `typed` is the chats after the
/// key went to the search field.
pub open spec fn list_step(
    st: ChatStateV,
    typed: ChatStateV,
    cx: MainContext,
    km: Keymap,
    key: KeyEvent,
) -> (ChatStateV, MainActionV) {
    if cx.list_search_typing {
        (
            if key.same_as(km.dismiss) {
                search_cleared(st)
            } else if key.same_as(km.select) {
                search_refreshed(
                    ChatStateV { search: SearchV { inserting: false, ..st.search }, ..st },
                )
            } else {
                typed
            },
            MainActionV::Done,
        )
    } else if key.same_as(km.dismiss) && (cx.list_search_active || cx.message_search_active) {
        (search_cleared(st), MainActionV::Done)
    } else if key.same_as(km.search_text) {
        (
            search_refreshed(
                ChatStateV { search: SearchV { inserting: true, ..no_search() }, ..st },
            ),
            MainActionV::Done,
        )
    } else if key.same_as(km.scroll_up) {
        (list_at(st, row_above(st.chat_list_state.selected)), MainActionV::Done)
    } else if key.same_as(km.scroll_to_bottom) {
        (list_at(st, usize::MAX), MainActionV::Done)
    } else if key.same_as(km.scroll_to_top) {
        (list_at(st, 0), MainActionV::Done)
    } else if key.same_as(km.scroll_down) {
        (list_at(st, row_below(st.chat_list_state.selected)), MainActionV::Done)
    } else if key.same_as(km.select) && st.chats.len() > 0 && st.chat_list_state.selected is Some {
        (
            st,
            match cx.selected_chat {
                Some(i) => MainActionV::LoadChat(i),
                None => MainActionV::NoChatSelected,
            },
        )
    } else {
        (st, MainActionV::Done)
    }
}

/// What a press of `key` does in the open chat. `typed` is the chats after the
/// key went to the message search field.
pub open spec fn chat_step(
    st: ChatStateV,
    typed: ChatStateV,
    cx: MainContext,
    km: Keymap,
    key: KeyEvent,
) -> (ChatStateV, MainActionV) {
    let selected = st.message_list_state.selected;
    if cx.message_search_typing {
        (
            if key.same_as(km.dismiss) {
                message_search_dropped(st)
            } else if key.same_as(km.select) {
                message_search_accepted(st)
            } else {
                typed
            },
            MainActionV::Done,
        )
    } else if key.same_as(km.dismiss) && cx.message_search_active {
        (message_search_dropped(st), MainActionV::Done)
    } else if key.same_as(km.search_text) {
        (message_search_begun(st), MainActionV::Done)
    } else if key.same_as(km.scroll_up) {
        if selected == Some(0usize) {
            (st, MainActionV::LoadMoreHistory)
        } else {
            (messages_at(st, Some(row_above(selected))), MainActionV::Done)
        }
    } else if key.same_as(km.scroll_down) {
        (messages_at(st, Some(row_below(selected))), MainActionV::Done)
    } else if key.same_as(km.scroll_to_top) {
        (messages_at(st, Some(0)), MainActionV::Done)
    } else if key.same_as(km.scroll_to_bottom) {
        (messages_at(st, last_row(st)), MainActionV::Done)
    } else if key.code == KeyCode::PageUp {
        match selected {
            Some(i) => if i > 0 {
                (
                    messages_at(
                        st,
                        Some(if i > st.visible_page { (i - st.visible_page) as usize } else { 0 }),
                    ),
                    MainActionV::Done,
                )
            } else {
                (st, MainActionV::LoadMoreHistory)
            },
            None => (st, MainActionV::LoadMoreHistory),
        }
    } else if key.code == KeyCode::PageDown {
        let at = match selected {
            Some(i) => i as int,
            None => 0,
        } + st.visible_page;
        let max = match last_row(st) {
            Some(i) => i as int,
            None => 0,
        };
        (messages_at(st, Some((if at < max { at } else { max }) as usize)), MainActionV::Done)
    } else if key.same_as(km.select) {
        match selected_message_of(st) {
            Some(m) => (
                st,
                MainActionV::OpenMessage {
                    message: m,
                    fetch_quote: m.reply_ctx is None && m.reply_to_id is Some,
                },
            ),
            None => (st, MainActionV::Done),
        }
    } else {
        (st, MainActionV::Done)
    }
}

/// What a press of `key` asks for in the write box.
pub open spec fn write_step(km: Keymap, key: KeyEvent) -> MainActionV {
    if key.same_as(km.dismiss) {
        MainActionV::CycleFocus
    } else if key.same_as(km.send) {
        MainActionV::Send
    } else if key.same_as(km.newline) || key.code == KeyCode::Enter {
        MainActionV::Newline
    } else {
        MainActionV::Type
    }
}

/// The bindings that work whichever pane has the keyboard, unless a text field
/// has it; none where the pane itself handles the key.
pub open spec fn shared_step(
    st: ChatStateV,
    cx: MainContext,
    km: Keymap,
    key: KeyEvent,
) -> Option<MainActionV> {
    let searching = cx.list_search_active || cx.message_search_active;
    if !cx.insert && key.same_as(km.dismiss) && !searching && cx.rate_limited {
        Some(MainActionV::CancelRateLimitWait)
    } else if !cx.insert && key.same_as(km.retry_connection) {
        Some(MainActionV::Reconnect)
    } else if !cx.insert && key.same_as(km.dismiss) && !searching {
        if cx.focus == Focus::Chat && st.open_chat is None {
            Some(MainActionV::AbandonLoad)
        } else {
            Some(MainActionV::CycleFocus)
        }
    } else if !cx.insert && key.same_as(km.open_settings) {
        Some(MainActionV::OpenSettings)
    } else if key.same_as(km.pane_next) && (!cx.insert || cx.focus == Focus::Write) {
        Some(MainActionV::CycleFocus)
    } else if !cx.insert && key.same_as(km.focus_write) {
        Some(
            if st.open_chat is Some {
                MainActionV::FocusWrite
            } else {
                match cx.selected_chat {
                    Some(i) => MainActionV::LoadAndWrite(i),
                    None => MainActionV::Done,
                }
            },
        )
    } else {
        None
    }
}

/// What a press of `key` does on the main screen. `list_typed` and
/// `message_typed` are the chats after the key went to a search field.
pub open spec fn main_step(
    st: ChatStateV,
    list_typed: ChatStateV,
    message_typed: ChatStateV,
    cx: MainContext,
    km: Keymap,
    key: KeyEvent,
) -> (ChatStateV, MainActionV) {
    match shared_step(st, cx, km, key) {
        Some(action) => (st, action),
        None => match cx.focus {
            Focus::ChatList => list_step(st, list_typed, cx, km, key),
            Focus::Chat => chat_step(st, message_typed, cx, km, key),
            Focus::Write => (st, write_step(km, key)),
            Focus::Popup => (st, MainActionV::Done),
        },
    }
}

fn shared_key(state: &ChatState, cx: MainContext, km: &Keymap, key: KeyEvent) -> (r: Option<
    MainAction,
>)
    ensures
        opt_view(r) == shared_step(state@, cx, *km, key),
{
    let searching: bool = cx.list_search_active || cx.message_search_active;
    if !cx.insert && key == km.dismiss && !searching && cx.rate_limited {
        return Some(MainAction::CancelRateLimitWait);
    }
    if !cx.insert && key == km.retry_connection {
        return Some(MainAction::Reconnect);
    }
    if !cx.insert && key == km.dismiss && !searching {
        if cx.focus == Focus::Chat && state.open_chat.is_none() {
            return Some(MainAction::AbandonLoad);
        }
        return Some(MainAction::CycleFocus);
    }
    if !cx.insert && key == km.open_settings {
        return Some(MainAction::OpenSettings);
    }
    if key == km.pane_next && (!cx.insert || cx.focus == Focus::Write) {
        return Some(MainAction::CycleFocus);
    }
    if !cx.insert && key == km.focus_write {
        if state.open_chat.is_some() {
            return Some(MainAction::FocusWrite);
        }
        return Some(
            match cx.selected_chat {
                Some(i) => MainAction::LoadAndWrite(i),
                None => MainAction::Done,
            },
        );
    }
    None
}

fn list_key(state: &mut ChatState, cx: MainContext, km: &Keymap, key: KeyEvent) -> (r: MainAction)
    ensures
        (final(state)@, r@) == list_step(
            old(state)@,
            typed_in_list(*old(state), key),
            cx,
            *km,
            key,
        ),
{
    if cx.list_search_typing {
        if key == km.dismiss {
            state.clear_search();
        } else if key == km.select {
            state.commit_search();
        } else {
            state.search_input(key);
        }
        return MainAction::Done;
    }
    if key == km.dismiss && (cx.list_search_active || cx.message_search_active) {
        state.clear_search();
    } else if key == km.search_text {
        state.begin_search();
    } else if key == km.scroll_up {
        state.chat_list_state.select_previous();
    } else if key == km.scroll_to_bottom {
        state.chat_list_state.select_last();
    } else if key == km.scroll_to_top {
        state.chat_list_state.select_first();
    } else if key == km.scroll_down {
        state.chat_list_state.select_next();
    } else if key == km.select && state.chats.len() > 0
        && state.chat_list_state.selected().is_some() {
        assert(state@.chats.len() == state.chats@.len());
        return match cx.selected_chat {
            Some(i) => MainAction::LoadChat(i),
            None => MainAction::NoChatSelected,
        };
    } else {
        assert(state@.chats.len() == state.chats@.len());
    }
    MainAction::Done
}

fn last_message_row(state: &ChatState) -> (r: Option<usize>)
    ensures
        r == last_row(state@),
{
    match &state.open_chat {
        Some(o) => {
            let n: usize = o.history.len();
            Some(if n > 0 { n - 1 } else { 0 })
        },
        None => None,
    }
}

fn chat_key(state: &mut ChatState, cx: MainContext, km: &Keymap, key: KeyEvent) -> (r: MainAction)
    ensures
        (final(state)@, r@) == chat_step(
            old(state)@,
            typed_in_messages(*old(state), key),
            cx,
            *km,
            key,
        ),
{
    if cx.message_search_typing {
        if key == km.dismiss {
            state.clear_message_search();
        } else if key == km.select {
            state.commit_message_search();
        } else {
            state.message_search_input(key);
        }
        return MainAction::Done;
    }
    if key == km.dismiss && cx.message_search_active {
        state.clear_message_search();
        return MainAction::Done;
    }
    if key == km.search_text {
        state.begin_message_search();
        return MainAction::Done;
    }
    let selected: Option<usize> = state.message_list_state.selected();
    if key == km.scroll_up {
        let at_top: bool = match selected {
            Some(i) => i == 0,
            None => false,
        };
        if at_top {
            return MainAction::LoadMoreHistory;
        }
        state.message_list_state.select_previous();
    } else if key == km.scroll_down {
        state.message_list_state.select_next();
    } else if key == km.scroll_to_top {
        state.message_list_state.select_first();
    } else if key == km.scroll_to_bottom {
        let last: Option<usize> = last_message_row(state);
        state.message_list_state.select(last);
    } else if key.code == KeyCode::PageUp {
        let page: usize = state.visible_page;
        match selected {
            Some(i) => {
                if i > 0 {
                    state.message_list_state.select(Some(if i > page { i - page } else { 0 }));
                } else {
                    return MainAction::LoadMoreHistory;
                }
            },
            None => {
                return MainAction::LoadMoreHistory;
            },
        }
    } else if key.code == KeyCode::PageDown {
        let page: usize = state.visible_page;
        let at: usize = match selected {
            Some(i) => i,
            None => 0,
        };
        let max: usize = match last_message_row(state) {
            Some(i) => i,
            None => 0,
        };
        let row: usize = if at > max || page > max - at { max } else { at + page };
        state.message_list_state.select(Some(row));
    } else if key == km.select {
        if let Some(m) = state.selected_message() {
            let message: Message = m.clone();
            let fetch_quote: bool = message.reply_ctx.is_none() && message.reply_to_id.is_some();
            return MainAction::OpenMessage { message, fetch_quote };
        }
    }
    MainAction::Done
}

/// The chats after a key went to the search field of the list.
pub open spec fn typed_in_list(state: ChatState, key: KeyEvent) -> ChatStateV {
    search_refreshed(
        ChatStateV {
            search: SearchV {
                query: state.search.typed(key).0,
                column: state.search.typed(key).1,
                ..state@.search
            },
            ..state@
        },
    )
}

/// The chats after a key went to the message search field.
pub open spec fn typed_in_messages(state: ChatState, key: KeyEvent) -> ChatStateV {
    message_query_typed(
        state@,
        state.message_search.typed(key).0,
        state.message_search.typed(key).1,
    )
}

/// Handles a key press on the main screen: changes the chats, and says what is
/// left to be done.
pub fn handle_main_key(
    state: &mut ChatState,
    cx: MainContext,
    km: &Keymap,
    key: KeyEvent,
) -> (r: MainAction)
    ensures
        (final(state)@, r@) == main_step(
            old(state)@,
            typed_in_list(*old(state), key),
            typed_in_messages(*old(state), key),
            cx,
            *km,
            key,
        ),
{
    if let Some(action) = shared_key(state, cx, km, key) {
        return action;
    }
    match cx.focus {
        Focus::ChatList => list_key(state, cx, km, key),
        Focus::Chat => chat_key(state, cx, km, key),
        Focus::Write => {
            if key == km.dismiss {
                MainAction::CycleFocus
            } else if key == km.send {
                MainAction::Send
            } else if key == km.newline || key.code == KeyCode::Enter {
                MainAction::Newline
            } else {
                MainAction::Type
            }
        },
        Focus::Popup => MainAction::Done,
    }
}

/// While a text field has the keyboard, the shared bindings are inert, but for
/// leaving the write box.
pub proof fn typing_is_never_a_shortcut(
    st: ChatStateV,
    cx: MainContext,
    km: Keymap,
    key: KeyEvent,
)
    requires
        cx.insert,
    ensures
        match shared_step(st, cx, km, key) {
            Some(action) => action == MainActionV::CycleFocus && cx.focus == Focus::Write
                && key.same_as(km.pane_next),
            None => true,
        },
{
}

// Popups.

/// What a popup shows.
#[derive(Debug)]
pub enum PopupKind {
    Info(String),
    Error(String),
    Warn(String),
    Message(Message),
    Image(Message),
    /// A message with audio, and why it cannot be played where it cannot.
    Audio { msg: Message, error_note: Option<String> },
    Question(String),
}

/// Model of `PopupKind`.
pub ghost enum PopupKindV {
    Info(Seq<char>),
    Error(Seq<char>),
    Warn(Seq<char>),
    Message(MessageV),
    Image(MessageV),
    Audio { msg: MessageV, error_note: Option<Seq<char>> },
    Question(Seq<char>),
}

impl View for PopupKind {
    type V = PopupKindV;

    open spec fn view(&self) -> PopupKindV {
        match *self {
            PopupKind::Info(s) => PopupKindV::Info(s@),
            PopupKind::Error(s) => PopupKindV::Error(s@),
            PopupKind::Warn(s) => PopupKindV::Warn(s@),
            PopupKind::Message(m) => PopupKindV::Message(m@),
            PopupKind::Image(m) => PopupKindV::Image(m@),
            PopupKind::Audio { msg, error_note } => PopupKindV::Audio {
                msg: msg@,
                error_note: crate::backend::opt_text(error_note),
            },
            PopupKind::Question(s) => PopupKindV::Question(s@),
        }
    }
}

impl Default for PopupKind {
    fn default() -> (r: Self)
        ensures
            r@ == PopupKindV::Info(Seq::empty()),
    {
        PopupKind::Info(String::new())
    }
}

/// An open popup and how far it is scrolled.
#[derive(Debug)]
pub struct PopupState {
    pub popup_type: PopupKind,
    pub scroll_idx: usize,
}

/// Model of `PopupState`.
pub ghost struct PopupV {
    pub popup_type: PopupKindV,
    pub scroll_idx: usize,
}

impl View for PopupState {
    type V = PopupV;

    open spec fn view(&self) -> PopupV {
        PopupV { popup_type: self.popup_type@, scroll_idx: self.scroll_idx }
    }
}

/// The popup for a message: by its media, with the actions it allows.
pub open spec fn popup_of_message(m: MessageV, quote: Option<ReplyContextV>) -> PopupKindV {
    let m1 = MessageV {
        reply_ctx: match quote {
            Some(q) => Some(q),
            None => m.reply_ctx,
        },
        ..m
    };
    let msg = MessageV { msg_actions: actions_of(m1), ..m1 };
    match msg.media {
        Some(media) => match media.kind {
            MediaKindV::Image => PopupKindV::Image(msg),
            MediaKindV::Audio { .. } => PopupKindV::Audio { msg, error_note: None },
            _ => PopupKindV::Message(msg),
        },
        None => PopupKindV::Message(msg),
    }
}

/// The popup for a message, with the quote that was fetched for it.
pub fn message_popup(message: Message, quote: Option<ReplyContext>) -> (r: PopupKind)
    ensures
        r@ == popup_of_message(message@, opt_view(quote)),
{
    let mut msg: Message = message;
    if let Some(q) = quote {
        msg.reply_ctx = Some(q);
    }
    let actions: Vec<MessageAction> = available_message_actions(&msg);
    msg.msg_actions = actions;
    let image: bool = match &msg.media {
        Some(media) => match media.kind {
            MediaKind::Image => true,
            _ => false,
        },
        None => false,
    };
    let audio: bool = match &msg.media {
        Some(media) => match media.kind {
            MediaKind::Audio { .. } => true,
            _ => false,
        },
        None => false,
    };
    if image {
        PopupKind::Image(msg)
    } else if audio {
        PopupKind::Audio { msg, error_note: None }
    } else {
        PopupKind::Message(msg)
    }
}

/// What a key press asks of the player.
#[derive(Clone, Copy, Debug, PartialEq, Eq, Structural)]
pub enum AudioAction {
    PlayPause,
    SeekBack,
    SeekForward,
}

/// What a key press in a popup leaves to be done.
#[derive(Debug)]
pub enum PopupAction {
    Nothing,
    /// The popup was closed; what plays is to be stopped where it was audio.
    Dismissed { was_audio: bool },
    Audio(AudioAction),
    /// The popup was closed; the failed draft is to be sent again.
    RetryDraft,
    /// The popup was closed; the write box is to reply to this message.
    Reply { id: MessageId, was_audio: bool },
    /// The popup was closed; the write box is to edit this message.
    Edit { id: MessageId, was_audio: bool },
    /// The user is asked whether to delete.
    AskDelete { was_audio: bool },
    /// The popup was closed; this message is to be deleted.
    Delete { id: MessageId, was_audio: bool },
}

/// Model of `PopupAction`.
#[allow(inconsistent_fields)]
pub ghost enum PopupActionV {
    Nothing,
    Dismissed { was_audio: bool },
    Audio(AudioAction),
    RetryDraft,
    Reply { id: Seq<char>, was_audio: bool },
    Edit { id: Seq<char>, was_audio: bool },
    AskDelete { was_audio: bool },
    Delete { id: Seq<char>, was_audio: bool },
}

impl View for PopupAction {
    type V = PopupActionV;

    open spec fn view(&self) -> PopupActionV {
        match *self {
            PopupAction::Nothing => PopupActionV::Nothing,
            PopupAction::Dismissed { was_audio } => PopupActionV::Dismissed { was_audio },
            PopupAction::Audio(a) => PopupActionV::Audio(a),
            PopupAction::RetryDraft => PopupActionV::RetryDraft,
            PopupAction::Reply { id, was_audio } => PopupActionV::Reply { id: id@, was_audio },
            PopupAction::Edit { id, was_audio } => PopupActionV::Edit { id: id@, was_audio },
            PopupAction::AskDelete { was_audio } => PopupActionV::AskDelete { was_audio },
            PopupAction::Delete { id, was_audio } => PopupActionV::Delete { id: id@, was_audio },
        }
    }
}

/// What the keys of the player ask for; they work on an audio popup alone.
pub open spec fn audio_of(kind: PopupKindV, km: Keymap, key: KeyEvent) -> Option<AudioAction> {
    if !(kind is Audio) {
        None
    } else if key.same_as(km.play_pause) {
        Some(AudioAction::PlayPause)
    } else if key.same_as(km.seek_back) {
        Some(AudioAction::SeekBack)
    } else if key.same_as(km.seek_forward) {
        Some(AudioAction::SeekForward)
    } else {
        None
    }
}

/// The plain press of a character.
pub open spec fn plain_char(c: char) -> KeyEvent {
    KeyEvent {
        code: KeyCode::Char(c),
        modifiers: KeyModifiers { shift: false, control: false, alt: false, other: false },
    }
}

/// The number on a digit key.
pub open spec fn digit_of(key: KeyEvent) -> Option<int> {
    match key.code {
        KeyCode::Char(c) => if 0x30 <= c as u32 <= 0x39 {
            Some(c as u32 - 0x30)
        } else {
            None
        },
        _ => None,
    }
}

/// The message a popup shows.
pub open spec fn popup_message(kind: PopupKindV) -> Option<MessageV> {
    match kind {
        PopupKindV::Message(m) => Some(m),
        PopupKindV::Image(m) => Some(m),
        PopupKindV::Audio { msg, .. } => Some(msg),
        _ => None,
    }
}

/// The message action that a digit key picks: on a message, the one with that
/// number; on a question, the deletion of the selected message.
pub open spec fn picked_action(
    kind: PopupKindV,
    selected: Option<Seq<char>>,
    key: KeyEvent,
) -> Option<(MessageAction, Seq<char>)> {
    match digit_of(key) {
        None => None,
        Some(d) => {
            let idx = if d > 0 { d - 1 } else { 0 };
            match popup_message(kind) {
                Some(m) => if idx < m.msg_actions.len() {
                    Some((m.msg_actions[idx], m.message_id))
                } else {
                    None
                },
                None => if kind is Question && selected is Some && idx <= 2 {
                    Some((MessageAction::Delete, selected.unwrap()))
                } else {
                    None
                },
            }
        },
    }
}

/// The question asked before a message is deleted.
pub open spec fn delete_question() -> PopupV {
    PopupV {
        popup_type: PopupKindV::Question("Do you really want to delete this message?"@),
        scroll_idx: 0,
    }
}

/// What a key press does to a popup, and what it leaves to be done.
/// `selected` is the selected message, and `retry` says whether there is a
/// failed draft.
pub open spec fn popup_step(
    p: PopupV,
    selected: Option<Seq<char>>,
    retry: bool,
    km: Keymap,
    key: KeyEvent,
) -> (Option<PopupV>, PopupActionV) {
    let was_audio = p.popup_type is Audio;
    let scrolled = PopupV {
        scroll_idx: if key.same_as(km.scroll_up) {
            if p.scroll_idx > 0 { (p.scroll_idx - 1) as usize } else { 0 }
        } else if key.same_as(km.scroll_to_top) {
            0
        } else if key.same_as(km.scroll_down) {
            if p.scroll_idx < usize::MAX { (p.scroll_idx + 1) as usize } else { p.scroll_idx }
        } else {
            p.scroll_idx
        },
        ..p
    };
    if key.same_as(km.dismiss) {
        (None, PopupActionV::Dismissed { was_audio })
    } else if audio_of(p.popup_type, km, key) is Some {
        (Some(scrolled), PopupActionV::Audio(audio_of(p.popup_type, km, key).unwrap()))
    } else if p.popup_type is Error && retry && key.same_as(plain_char('1')) {
        (None, PopupActionV::RetryDraft)
    } else {
        match picked_action(p.popup_type, selected, key) {
            None => (Some(scrolled), PopupActionV::Nothing),
            Some((action, id)) => match action {
                MessageAction::Reply => (None, PopupActionV::Reply { id, was_audio }),
                MessageAction::Edit => (None, PopupActionV::Edit { id, was_audio }),
                MessageAction::Delete => if key.same_as(plain_char('1')) {
                    (None, PopupActionV::Delete { id, was_audio })
                } else if key.same_as(plain_char('2')) {
                    (None, PopupActionV::Dismissed { was_audio })
                } else {
                    (Some(delete_question()), PopupActionV::AskDelete { was_audio })
                },
                MessageAction::Retry => (None, PopupActionV::Dismissed { was_audio }),
            },
        }
    }
}

fn digit(key: KeyEvent) -> (r: Option<usize>)
    ensures
        match r {
            Some(d) => digit_of(key) == Some(d as int),
            None => digit_of(key) is None,
        },
{
    match key.code {
        KeyCode::Char(c) => {
            let n: u32 = c as u32;
            if 0x30 <= n && n <= 0x39 {
                Some((n - 0x30) as usize)
            } else {
                None
            }
        },
        _ => None,
    }
}

fn picked(kind: &PopupKind, selected: Option<&MessageId>, key: KeyEvent) -> (r: Option<
    (MessageAction, MessageId),
>)
    ensures
        match r {
            Some((a, id)) => picked_action(
                kind@,
                match selected {
                    Some(s) => Some(s@),
                    None => None,
                },
                key,
            ) == Some((a, id@)),
            None => picked_action(
                kind@,
                match selected {
                    Some(s) => Some(s@),
                    None => None,
                },
                key,
            ) is None,
        },
{
    let d: usize = match digit(key) {
        Some(d) => d,
        None => {
            return None;
        },
    };
    let idx: usize = if d > 0 { d - 1 } else { 0 };
    match kind {
        PopupKind::Message(m) | PopupKind::Image(m) | PopupKind::Audio { msg: m, .. } => {
            if idx < m.msg_actions.len() {
                Some((m.msg_actions[idx], m.message_id.clone()))
            } else {
                None
            }
        },
        PopupKind::Question(_) => match selected {
            Some(id) => if idx <= 2 {
                Some((MessageAction::Delete, id.clone()))
            } else {
                None
            },
            None => None,
        },
        _ => None,
    }
}

/// Handles a key press in a popup.
pub fn handle_popup_key(
    popup: PopupState,
    selected: Option<&MessageId>,
    retry: bool,
    km: &Keymap,
    key: KeyEvent,
) -> (r: (Option<PopupState>, PopupAction))
    ensures
        (opt_view(r.0), r.1@) == popup_step(
            popup@,
            match selected {
                Some(s) => Some(s@),
                None => None,
            },
            retry,
            *km,
            key,
        ),
{
    let was_audio: bool = match &popup.popup_type {
        PopupKind::Audio { .. } => true,
        _ => false,
    };
    if key == km.dismiss {
        return (None, PopupAction::Dismissed { was_audio });
    }
    let mut popup: PopupState = popup;
    if key == km.scroll_up {
        popup.scroll_idx = if popup.scroll_idx > 0 { popup.scroll_idx - 1 } else { 0 };
    } else if key == km.scroll_to_top {
        popup.scroll_idx = 0;
    } else if key == km.scroll_down {
        popup.scroll_idx = if popup.scroll_idx < usize::MAX { popup.scroll_idx + 1 } else {
            popup.scroll_idx
        };
    }
    if was_audio {
        if key == km.play_pause {
            return (Some(popup), PopupAction::Audio(AudioAction::PlayPause));
        }
        if key == km.seek_back {
            return (Some(popup), PopupAction::Audio(AudioAction::SeekBack));
        }
        if key == km.seek_forward {
            return (Some(popup), PopupAction::Audio(AudioAction::SeekForward));
        }
    }
    let one: KeyEvent = KeyEvent::new(KeyCode::Char('1'), KeyModifiers::none());
    let two: KeyEvent = KeyEvent::new(KeyCode::Char('2'), KeyModifiers::none());
    let error: bool = match &popup.popup_type {
        PopupKind::Error(_) => true,
        _ => false,
    };
    if error && retry && key == one {
        return (None, PopupAction::RetryDraft);
    }
    match picked(&popup.popup_type, selected, key) {
        None => (Some(popup), PopupAction::Nothing),
        Some((action, id)) => match action {
            MessageAction::Reply => (None, PopupAction::Reply { id, was_audio }),
            MessageAction::Edit => (None, PopupAction::Edit { id, was_audio }),
            MessageAction::Delete => {
                if key == one {
                    (None, PopupAction::Delete { id, was_audio })
                } else if key == two {
                    (None, PopupAction::Dismissed { was_audio })
                } else {
                    (
                        Some(
                            PopupState {
                                popup_type: PopupKind::Question(
                                    owned("Do you really want to delete this message?"),
                                ),
                                scroll_idx: 0,
                            },
                        ),
                        PopupAction::AskDelete { was_audio },
                    )
                }
            },
            MessageAction::Retry => (None, PopupAction::Dismissed { was_audio }),
        },
    }
}

/// Whether a popup still shows the media that was fetched.
pub open spec fn awaits_media(kind: PopupKindV, audio: bool, chat: ChatIdV, id: Seq<char>) -> bool {
    match kind {
        PopupKindV::Image(m) => !audio && m.chat == chat && m.message_id == id,
        PopupKindV::Audio { msg, .. } => audio && msg.chat == chat && msg.message_id == id,
        _ => false,
    }
}

/// Whether a popup still shows the media that was fetched.
pub fn popup_awaits(popup: &Option<PopupState>, audio: bool, chat: &ChatId, id: &MessageId) -> (r:
    bool)
    ensures
        r == (popup is Some && awaits_media(popup.unwrap().popup_type@, audio, chat@, id@)),
{
    match popup {
        Some(p) => match &p.popup_type {
            PopupKind::Image(m) => !audio && m.chat == *chat && m.message_id == *id,
            PopupKind::Audio { msg, .. } => audio && msg.chat == *chat && msg.message_id == *id,
            _ => false,
        },
        None => false,
    }
}

/// Why fetched audio cannot be played, in words; none where it can.
pub fn audio_note(result: &Result<Option<Vec<u8>>, BackendError>) -> (r: Option<String>)
    ensures
        match *result {
            Ok(Some(_)) => r is None,
            Ok(None) => r is Some && r.unwrap()@
                == "audio not available yet — waiting on WhatsApp history re-sync"@,
            Err(e) => r is Some && r.unwrap()@ == "download failed: "@
                + crate::backend::error_text(e@),
        },
{
    match result {
        Ok(Some(_)) => None,
        Ok(None) => Some(owned("audio not available yet — waiting on WhatsApp history re-sync")),
        Err(e) => Some(joined("download failed: ", e.message().as_str())),
    }
}

}
