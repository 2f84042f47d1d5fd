//! Model of the chat list and the open chat: what every operation does, as
//! functions on mathematical values.
use vstd::prelude::*;

use crate::backend::{Chat, ChatIdV, ChatV, Message, MessageAction, MessageV, Provider};
use crate::order::ordered;
use crate::text::{blank, includes, lowercase, trimmed};
use crate::tui::list_state::{with_selected, ListState};
use crate::tui::search::{no_search, search_active, source_row, SearchV};

verus! {

/// Model of `OpenChat`.
pub ghost struct OpenV {
    pub chat: ChatV,
    pub history: Seq<MessageV>,
    pub has_more_history: bool,
}

/// Model of `ChatState`.
pub ghost struct ChatStateV {
    pub chat_list_state: ListState,
    pub chats: Seq<ChatV>,
    pub search: SearchV,
    pub message_search: SearchV,
    pub message_search_anchor: Option<usize>,
    pub visible_page: usize,
    pub open_chat: Option<OpenV>,
    pub pending_reply: Option<MessageV>,
    pub pending_edit: Option<MessageV>,
    pub drafts: Map<ChatIdV, Seq<char>>,
    pub message_list_state: ListState,
    pub selected_messages: Map<ChatIdV, usize>,
}

/// Position of the first `x` in a list.
pub open spec fn first_of<A>(s: Seq<A>, x: A) -> Option<int>
    decreases s.len(),
{
    if s.len() == 0 {
        None
    } else {
        match first_of(s.drop_last(), x) {
            Some(i) => Some(i),
            None => if s.last() == x {
                Some(s.len() - 1)
            } else {
                None
            },
        }
    }
}

/// `first_of` finds the least position, and finds one whenever there is one.
pub proof fn first_of_is_least<A>(s: Seq<A>, x: A)
    ensures
        match first_of(s, x) {
            Some(i) => 0 <= i < s.len() && s[i] == x && forall|k: int| 0 <= k < i ==> s[k] != x,
            None => forall|k: int| 0 <= k < s.len() ==> s[k] != x,
        },
    decreases s.len(),
{
    if s.len() > 0 {
        first_of_is_least(s.drop_last(), x);
        assert forall|k: int| 0 <= k < s.len() - 1 implies s.drop_last()[k] == s[k] by {}
    }
}

pub proof fn first_of_at<A>(s: Seq<A>, x: A, at: int)
    requires
        0 <= at < s.len(),
        s[at] == x,
        forall|k: int| 0 <= k < at ==> s[k] != x,
    ensures
        first_of(s, x) == Some(at),
{
    first_of_is_least(s, x);
    match first_of(s, x) {
        Some(i) => {
            if i < at {
                assert(s[i] != x);
            } else if i > at {
                assert(s[at] != x);
            }
        },
        None => {
            assert(s[at] != x);
        },
    }
}

pub proof fn first_of_none<A>(s: Seq<A>, x: A)
    requires
        forall|k: int| 0 <= k < s.len() ==> s[k] != x,
    ensures
        first_of(s, x) is None,
{
    first_of_is_least(s, x);
}

/// The ids of a list of chats.
pub open spec fn chat_ids(s: Seq<ChatV>) -> Seq<ChatIdV> {
    s.map_values(|c: ChatV| c.id)
}

/// The ids of a list of messages.
pub open spec fn message_ids(s: Seq<MessageV>) -> Seq<Seq<char>> {
    s.map_values(|m: MessageV| m.message_id)
}

/// The names of a list of chats.
pub open spec fn names(s: Seq<ChatV>) -> Seq<Seq<char>> {
    s.map_values(|c: ChatV| c.contact_name)
}

/// The texts of a list of messages.
pub open spec fn texts(s: Seq<MessageV>) -> Seq<Seq<char>> {
    s.map_values(|m: MessageV| m.text)
}

/// Whether no two chats of a list have one id.
pub open spec fn distinct_ids(s: Seq<ChatV>) -> bool {
    forall|i: int, j: int| 0 <= i < j < s.len() ==> (#[trigger] s[i]).id != (#[trigger] s[j]).id
}

/// A list of chats with only the first chat of each id.
pub open spec fn deduped(s: Seq<ChatV>) -> Seq<ChatV>
    decreases s.len(),
{
    if s.len() == 0 {
        s
    } else {
        let rest = deduped(s.drop_last());
        if chat_ids(rest).contains(s.last().id) {
            rest
        } else {
            rest.push(s.last())
        }
    }
}

/// The rows of a list of texts that contain `needle`, ignoring case.
pub open spec fn matching(s: Seq<Seq<char>>, needle: Seq<char>) -> Seq<usize>
    decreases s.len(),
{
    if s.len() == 0 {
        Seq::empty()
    } else {
        let rest = matching(s.drop_last(), needle);
        if includes(lowercase(s.last()), needle) {
            rest.push((s.len() - 1) as usize)
        } else {
            rest
        }
    }
}

/// What a query looks for: its text without surrounding space, ignoring case.
pub open spec fn needle_of(query: Seq<char>) -> Seq<char> {
    lowercase(trimmed(query))
}

/// The chat that a selected row of the (filtered) chat list stands for.
pub open spec fn selected_chat_of(st: ChatStateV) -> Option<ChatV> {
    match st.chat_list_state.selected {
        None => None,
        Some(sel) => match source_row(st.search, sel as int) {
            Some(src) => if src < st.chats.len() {
                Some(st.chats[src as int])
            } else {
                None
            },
            None => None,
        },
    }
}

/// The id of the selected chat.
pub open spec fn selected_id_of(st: ChatStateV) -> Option<ChatIdV> {
    match selected_chat_of(st) {
        Some(c) => Some(c.id),
        None => None,
    }
}

/// The id of the chat to come back to when a search ends.
pub open spec fn anchor_id_of(st: ChatStateV) -> Option<ChatIdV> {
    match st.search.anchor {
        Some(src) => if src < st.chats.len() {
            Some(st.chats[src as int].id)
        } else {
            None
        },
        None => None,
    }
}

pub open spec fn or_else<A>(a: Option<A>, b: Option<A>) -> Option<A> {
    match a {
        Some(x) => Some(x),
        None => b,
    }
}

/// The position of a chat in a list, by id.
pub open spec fn row_of(chats: Seq<ChatV>, id: Option<ChatIdV>) -> Option<usize> {
    match id {
        Some(x) => match first_of(chat_ids(chats), x) {
            Some(i) => Some(i as usize),
            None => None,
        },
        None => None,
    }
}

/// The visible row to select among the rows `rows` that match: the chat to
/// keep where it matches, else the first row.
pub open spec fn kept_row(
    chats: Seq<ChatV>,
    rows: Seq<usize>,
    keep: Option<ChatIdV>,
) -> Option<usize> {
    let row_ids = rows.map_values(|i: usize| chats[i as int].id);
    match keep {
        Some(id) => match first_of(row_ids, id) {
            Some(p) => Some(p as usize),
            None => if rows.len() > 0 {
                Some(0usize)
            } else {
                None
            },
        },
        None => if rows.len() > 0 {
            Some(0usize)
        } else {
            None
        },
    }
}

/// The state with the filter of the chat list worked out anew. Without a
/// query the chat `keep`, or else the remembered one, is selected, and nothing
/// where there is none. With one, `keep` stays selected where it matches, else
/// the first match is selected.
pub open spec fn searched(st: ChatStateV, keep: Option<ChatIdV>) -> ChatStateV {
    let needle = needle_of(st.search.query);
    if trimmed(st.search.query).len() == 0 {
        let row = row_of(st.chats, or_else(keep, anchor_id_of(st)));
        ChatStateV {
            search: SearchV { visible: Seq::empty(), anchor: row, ..st.search },
            chat_list_state: with_selected(st.chat_list_state, row),
            ..st
        }
    } else {
        let rows = matching(names(st.chats), needle);
        let row = kept_row(st.chats, rows, keep);
        ChatStateV {
            search: SearchV {
                visible: rows,
                anchor: match row {
                    Some(p) => Some(rows[p as int]),
                    None => st.search.anchor,
                },
                ..st.search
            },
            chat_list_state: with_selected(st.chat_list_state, row),
            ..st
        }
    }
}

/// The state with the filter worked out anew around the selected chat.
pub open spec fn search_refreshed(st: ChatStateV) -> ChatStateV {
    searched(st, or_else(selected_id_of(st), anchor_id_of(st)))
}

/// The state with the filter dropped and the selected chat still selected.
pub open spec fn search_cleared(st: ChatStateV) -> ChatStateV {
    searched(
        ChatStateV { search: SearchV { anchor: st.search.anchor, ..no_search() }, ..st },
        or_else(selected_id_of(st), anchor_id_of(st)),
    )
}

/// The rows of the open chat's history that match.
pub open spec fn message_rows(st: ChatStateV, query: Seq<char>) -> Seq<usize> {
    if trimmed(query).len() == 0 {
        Seq::empty()
    } else {
        match st.open_chat {
            Some(open) => matching(texts(open.history), needle_of(query)),
            None => Seq::empty(),
        }
    }
}

/// How many messages the open chat holds.
pub open spec fn history_len(st: ChatStateV) -> int {
    match st.open_chat {
        Some(open) => open.history.len() as int,
        None => 0,
    }
}

/// The state with the message search worked out anew after the user typed:
/// without a query the selection of before the search, or the last message;
/// with one, the selected message where it matches, else the first match.
pub open spec fn message_searched(st: ChatStateV) -> ChatStateV {
    let rows = message_rows(st, st.message_search.query);
    if trimmed(st.message_search.query).len() == 0 {
        let last = if history_len(st) > 0 {
            Some((history_len(st) - 1) as usize)
        } else {
            None
        };
        ChatStateV {
            message_search: SearchV { visible: Seq::empty(), ..st.message_search },
            message_list_state: with_selected(
                st.message_list_state,
                or_else(st.message_search_anchor, last),
            ),
            ..st
        }
    } else {
        let current = st.message_list_state.selected;
        let row = if current is Some && rows.contains(current.unwrap()) {
            current
        } else if rows.len() > 0 {
            Some(rows[0])
        } else {
            None
        };
        ChatStateV {
            message_search: SearchV { visible: rows, ..st.message_search },
            message_list_state: with_selected(st.message_list_state, row),
            ..st
        }
    }
}

/// The state after a message search began; there is nothing to search without
/// an open chat.
pub open spec fn message_search_begun(st: ChatStateV) -> ChatStateV {
    if st.open_chat is None {
        st
    } else {
        message_searched(
            ChatStateV {
                message_search_anchor: st.message_list_state.selected,
                message_search: SearchV { inserting: true, ..no_search() },
                ..st
            },
        )
    }
}

/// The state after the query became another one, with the cursor at a column.
pub open spec fn message_query_typed(
    st: ChatStateV,
    query: Seq<char>,
    column: usize,
) -> ChatStateV {
    message_searched(
        ChatStateV { message_search: SearchV { query, column, ..st.message_search }, ..st },
    )
}

/// The state after the user accepted the query.
pub open spec fn message_search_accepted(st: ChatStateV) -> ChatStateV {
    message_searched(
        ChatStateV { message_search: SearchV { inserting: false, ..st.message_search }, ..st },
    )
}

/// The state without a message search. While typing, the selection goes back
/// to where it was when the search began, or to the last message.
pub open spec fn message_search_dropped(st: ChatStateV) -> ChatStateV {
    let last = match st.open_chat {
        Some(o) => Some(
            if o.history.len() > 0 {
                (o.history.len() - 1) as usize
            } else {
                0
            },
        ),
        None => None,
    };
    ChatStateV {
        message_search: SearchV { anchor: st.message_search.anchor, ..no_search() },
        message_search_anchor: None,
        message_list_state: if st.message_search.inserting {
            with_selected(st.message_list_state, or_else(st.message_search_anchor, last))
        } else {
            st.message_list_state
        },
        ..st
    }
}

/// The state with unsent text kept for a chat; blank text is not kept.
pub open spec fn draft_saved(st: ChatStateV, id: ChatIdV, text: Seq<char>) -> ChatStateV {
    ChatStateV {
        drafts: if blank(text) {
            st.drafts.remove(id)
        } else {
            st.drafts.insert(id, text)
        },
        ..st
    }
}

/// The unsent text of a chat.
pub open spec fn draft_of(st: ChatStateV, id: ChatIdV) -> Option<Seq<char>> {
    if st.drafts.dom().contains(id) {
        Some(st.drafts[id])
    } else {
        None
    }
}

/// The state with the selected message of the open chat remembered.
pub open spec fn selection_saved(st: ChatStateV) -> ChatStateV {
    match (st.open_chat, st.message_list_state.selected) {
        (Some(open), Some(i)) => ChatStateV {
            selected_messages: st.selected_messages.insert(open.chat.id, i),
            ..st
        },
        _ => st,
    }
}

/// The state with the message remembered for the open chat selected, or the
/// last one of as many as there are.
pub open spec fn selection_restored(st: ChatStateV, len: int) -> ChatStateV {
    if len == 0 {
        ChatStateV { message_list_state: with_selected(st.message_list_state, None), ..st }
    } else {
        match st.open_chat {
            Some(open) => {
                let kept = st.selected_messages;
                let row = if kept.dom().contains(open.chat.id) && kept[open.chat.id] < len {
                    kept[open.chat.id]
                } else {
                    (len - 1) as usize
                };
                ChatStateV {
                    message_list_state: with_selected(st.message_list_state, Some(row)),
                    ..st
                }
            },
            None => st,
        }
    }
}

/// The state after the history changed by itself: the matches are worked out
/// anew and the selection stays.
pub open spec fn message_rows_refreshed(st: ChatStateV) -> ChatStateV {
    if search_active(st.message_search) {
        ChatStateV {
            message_search: SearchV {
                visible: message_rows(st, st.message_search.query),
                ..st.message_search
            },
            ..st
        }
    } else {
        st
    }
}

/// The state with another history in the open chat.
pub open spec fn with_history(st: ChatStateV, history: Seq<MessageV>) -> ChatStateV {
    ChatStateV { open_chat: Some(OpenV { history, ..st.open_chat.unwrap() }), ..st }
}

/// Whether the chat `id` is open.
pub open spec fn opened(st: ChatStateV, id: ChatIdV) -> bool {
    st.open_chat is Some && st.open_chat.unwrap().chat.id == id
}

/// A list of messages without those with the id `id`.
pub open spec fn without_message(s: Seq<MessageV>, id: Seq<char>) -> Seq<MessageV>
    decreases s.len(),
{
    if s.len() == 0 {
        s
    } else {
        let rest = without_message(s.drop_last(), id);
        if s.last().message_id == id {
            rest
        } else {
            rest.push(s.last())
        }
    }
}

/// The state after a message came in, and whether it belongs to the open chat:
/// one that does and is not known yet is appended.
pub open spec fn incoming_pushed(st: ChatStateV, m: MessageV) -> (ChatStateV, bool) {
    if !opened(st, m.chat) {
        (st, false)
    } else if message_ids(st.open_chat.unwrap().history).contains(m.message_id) {
        (st, true)
    } else {
        (
            message_rows_refreshed(with_history(st, st.open_chat.unwrap().history.push(m))),
            true,
        )
    }
}

/// The state with a message in the place of the one with the id `old_id`, and
/// whether there was one; any other message with the new id goes.
pub open spec fn message_replaced(st: ChatStateV, old_id: Seq<char>, new: MessageV) -> (
    ChatStateV,
    bool,
) {
    match st.open_chat {
        None => (st, false),
        Some(open) => {
            let kept = if old_id != new.message_id {
                without_message(open.history, new.message_id)
            } else {
                open.history
            };
            match first_of(message_ids(kept), old_id) {
                Some(i) => (message_rows_refreshed(with_history(st, kept.update(i, new))), true),
                None => (with_history(st, kept), false),
            }
        },
    }
}

/// The state without the messages with an id, and whether there was one.
pub open spec fn message_removed(st: ChatStateV, id: Seq<char>) -> (ChatStateV, bool) {
    match st.open_chat {
        None => (st, false),
        Some(open) => {
            let kept = without_message(open.history, id);
            if kept.len() != open.history.len() {
                (message_rows_refreshed(with_history(st, kept)), true)
            } else {
                (with_history(st, kept), false)
            }
        },
    }
}

/// The state with a chat marked as read.
pub open spec fn chat_read(st: ChatStateV, id: ChatIdV) -> ChatStateV {
    match first_of(chat_ids(st.chats), id) {
        Some(i) => ChatStateV {
            chats: st.chats.update(i, ChatV { unread: false, unread_count: 0, ..st.chats[i] }),
            ..st
        },
        None => st,
    }
}

/// A message marked as failed: no longer pending, and open to another try.
pub open spec fn failed_message(m: MessageV) -> MessageV {
    MessageV {
        failed: true,
        pending: false,
        msg_actions: if m.msg_actions.contains(MessageAction::Retry) {
            m.msg_actions
        } else {
            m.msg_actions.push(MessageAction::Retry)
        },
        ..m
    }
}

/// Whether a name says nothing about who the chat is with.
pub open spec fn is_placeholder_name(name: Seq<char>) -> bool {
    name == "Unknown"@ || name == "You"@
}

/// A chat whose placeholder name, if it has one, is blanked.
pub open spec fn without_placeholder(c: ChatV) -> ChatV {
    if is_placeholder_name(c.contact_name) {
        ChatV { contact_name: Seq::empty(), ..c }
    } else {
        c
    }
}

/// Whether an update carries a newer message time than the row has.
pub open spec fn is_newer(update: ChatV, row: ChatV) -> bool {
    match (update.last_message_ts, row.last_message_ts) {
        (Some(a), Some(b)) => a > b,
        (Some(_), None) => true,
        (None, _) => false,
    }
}

/// A row brought up to date. Names and statuses change only to non-blank
/// ones, verification and pinning are only ever gained, and the message time
/// only moves forward.
pub open spec fn merged_row(row: ChatV, update: ChatV) -> ChatV {
    let named = update.contact_name.len() > 0;
    let counted = update.unread || update.unread_count > 0;
    ChatV {
        id: row.id,
        contact_name: if named { update.contact_name } else { row.contact_name },
        verified: row.verified || (named && update.verified),
        status: match update.status {
            Some(s) => if blank(s) { row.status } else { Some(s) },
            None => row.status,
        },
        fixed: row.fixed || update.fixed,
        last_message_ts: if is_newer(update, row) { update.last_message_ts } else {
            row.last_message_ts
        },
        unread: if counted { true } else if update.last_message_ts is None { false } else {
            row.unread
        },
        unread_count: if update.unread_count > 0 || update.last_message_ts is None {
            update.unread_count
        } else {
            row.unread_count
        },
        scroll: row.scroll,
    }
}

/// The chat list after an update of one chat.
pub open spec fn upserted_list(chats: Seq<ChatV>, update: ChatV) -> Seq<ChatV> {
    let rows = deduped(chats);
    let u = without_placeholder(update);
    match first_of(chat_ids(rows), u.id) {
        Some(i) => {
            let row = merged_row(rows[i], u);
            let list = rows.update(i, row);
            deduped(
                if row.fixed || is_newer(u, rows[i]) {
                    ordered::<Chat>(list)
                } else {
                    list
                },
            )
        },
        None => deduped(ordered::<Chat>(rows.push(ChatV { scroll: 0, ..u }))),
    }
}

/// The state after an update of one chat: the selected chat stays selected.
pub open spec fn upserted(st: ChatStateV, update: ChatV) -> ChatStateV {
    let st1 = ChatStateV { chats: deduped(st.chats), ..st };
    let st2 = ChatStateV { chats: upserted_list(st.chats, update), ..st };
    searched(st2, or_else(selected_id_of(st1), anchor_id_of(st2)))
}

/// Whether a chat belongs to a provider.
pub open spec fn belongs(id: ChatIdV, p: Provider) -> bool {
    match (id, p) {
        (ChatIdV::Telegram(_), Provider::Telegram) => true,
        (ChatIdV::WhatsApp(_), Provider::WhatsApp) => true,
        _ => false,
    }
}

/// The chats that do not belong to a provider.
pub open spec fn of_others(s: Seq<ChatV>, p: Provider) -> Seq<ChatV>
    decreases s.len(),
{
    if s.len() == 0 {
        s
    } else {
        let rest = of_others(s.drop_last(), p);
        if belongs(s.last().id, p) {
            rest
        } else {
            rest.push(s.last())
        }
    }
}

/// The chat list after a provider reported its complete list.
pub open spec fn reconciled_list(chats: Seq<ChatV>, p: Provider, list: Seq<ChatV>) -> Seq<ChatV> {
    deduped(ordered::<Chat>(of_others(chats, p) + deduped(list)))
}

/// The state after a provider reported its complete list; an empty report
/// changes nothing.
pub open spec fn reconciled(st: ChatStateV, p: Provider, list: Seq<ChatV>) -> ChatStateV {
    if list.len() == 0 {
        st
    } else {
        let st2 = ChatStateV { chats: reconciled_list(st.chats, p, list), ..st };
        searched(st2, or_else(selected_id_of(st), anchor_id_of(st2)))
    }
}

/// A fetched message in place of a known one: a quote that was known stays.
pub open spec fn refetched(known: MessageV, fetched: MessageV) -> MessageV {
    MessageV {
        reply_to_id: or_else(fetched.reply_to_id, known.reply_to_id),
        reply_ctx: or_else(fetched.reply_ctx, known.reply_ctx),
        ..fetched
    }
}

/// A history with one fetched message merged in, by id.
pub open spec fn with_fetched(h: Seq<MessageV>, m: MessageV) -> Seq<MessageV> {
    match first_of(message_ids(h), m.message_id) {
        Some(i) => h.update(i, refetched(h[i], m)),
        None => h.push(m),
    }
}

/// A history with a fetched list merged in, one after the other.
pub open spec fn with_all_fetched(h: Seq<MessageV>, list: Seq<MessageV>) -> Seq<MessageV>
    decreases list.len(),
{
    if list.len() == 0 {
        h
    } else {
        with_fetched(with_all_fetched(h, list.drop_last()), list.last())
    }
}

/// The selection after the history grew from `old_len` to `new_len`: it stays
/// where it was within bounds, and follows the end where it was at the end.
pub open spec fn followed(selected: Option<usize>, old_len: int, new_len: int) -> Option<usize> {
    if old_len > 0 && new_len > old_len && selected == Some((old_len - 1) as usize) {
        Some((new_len - 1) as usize)
    } else if new_len > 0 {
        match selected {
            Some(i) => Some(if i < new_len { i } else { (new_len - 1) as usize }),
            None => Some((new_len - 1) as usize),
        }
    } else {
        None
    }
}

/// The state after the open chat's messages were fetched anew.
pub open spec fn history_refreshed(
    st: ChatStateV,
    id: ChatIdV,
    list: Seq<MessageV>,
) -> ChatStateV {
    if opened(st, id) {
        let old = st.open_chat.unwrap().history;
        let new = ordered::<Message>(with_all_fetched(old, list));
        message_rows_refreshed(
            ChatStateV {
                message_list_state: with_selected(
                    st.message_list_state,
                    followed(st.message_list_state.selected, old.len() as int, new.len() as int),
                ),
                ..with_history(st, new)
            },
        )
    } else {
        st
    }
}

/// The messages of `older` that are not in `h`.
pub open spec fn unknown_messages(older: Seq<MessageV>, h: Seq<MessageV>) -> Seq<MessageV>
    decreases older.len(),
{
    if older.len() == 0 {
        older
    } else {
        let rest = unknown_messages(older.drop_last(), h);
        if message_ids(h).contains(older.last().message_id) {
            rest
        } else {
            rest.push(older.last())
        }
    }
}

/// The state after older messages were fetched: those not known yet come in,
/// and the selection moves with the message it was on.
pub open spec fn history_prepended(
    st: ChatStateV,
    id: ChatIdV,
    older: Seq<MessageV>,
) -> ChatStateV {
    if opened(st, id) {
        let old = st.open_chat.unwrap().history;
        let more = unknown_messages(older, old);
        if more.len() == 0 {
            st
        } else {
            let new = ordered::<Message>(more + old);
            let at = match st.message_list_state.selected {
                Some(i) => i as int,
                None => 0,
            } + more.len();
            let row = if old.len() == 0 || at >= new.len() {
                (new.len() - 1) as usize
            } else {
                at as usize
            };
            message_rows_refreshed(
                ChatStateV {
                    message_list_state: with_selected(st.message_list_state, Some(row)),
                    ..with_history(st, new)
                },
            )
        }
    } else {
        st
    }
}

}
