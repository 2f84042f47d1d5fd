//! The chat list, the open chat, and the operations on them.
use vstd::prelude::*;

use crate::backend::{
    opt_view, tag_of, Chat, ChatId, ChatIdV, ChatV, Message, MessageAction, MessageId, MessageV,
    Provider,
};
use crate::config::text_of;
use crate::keys::KeyEvent;
use crate::order::{order, ordered, ordering_is_stable, seen};
use crate::table::ChatMap;
use crate::text::{
    blank, contains, includes, is_blank, lowercase, owned, same, to_chars, to_lowercase, trim,
};
use crate::tui::chat_model::{
    anchor_id_of, chat_ids, chat_read, deduped, draft_of, draft_saved, failed_message, first_of,
    first_of_at, first_of_is_least, first_of_none, history_len, history_prepended,
    history_refreshed, incoming_pushed, matching, merged_row, message_ids, message_query_typed,
    message_removed, message_replaced, message_rows, message_rows_refreshed, message_search_accepted, message_search_begun, message_search_dropped, message_searched, names,
    of_others, opened, or_else, reconciled, search_cleared, search_refreshed, searched,
    selected_chat_of, selected_id_of, selection_restored, selection_saved, texts, unknown_messages,
    upserted, with_all_fetched, with_history, without_message, without_placeholder, ChatStateV,
    OpenV,
};
use crate::tui::list_state::{with_selected, ListState};
use crate::tui::search::{no_search, source_row, SearchState, SearchV};

verus! {

/// The chat whose messages are loaded.
#[derive(Debug)]
pub struct OpenChat {
    pub chat: Chat,
    pub history: Vec<Message>,
    /// Whether older messages may still be fetched.
    pub has_more_history: bool,
}

/// The chat list, its search, and the open chat with what belongs to it.
pub struct ChatState {
    pub chat_list_state: ListState,
    pub chats: Vec<Chat>,
    /// Search over the chat list, by name.
    pub search: SearchState,
    /// Search over the open chat, by text.
    pub message_search: SearchState,
    /// The message that was selected when the message search began.
    pub message_search_anchor: Option<usize>,
    /// Rows of the open chat that fit on the screen.
    pub visible_page: usize,
    pub open_chat: Option<OpenChat>,
    /// The message that the next one sent will quote.
    pub pending_reply: Option<Message>,
    /// The message that the next text sent will replace.
    pub pending_edit: Option<Message>,
    /// Unsent text per chat.
    pub drafts: ChatMap<String>,
    pub message_list_state: ListState,
    /// The selected message per chat.
    pub selected_messages: ChatMap<usize>,
}

impl View for OpenChat {
    type V = OpenV;

    open spec fn view(&self) -> OpenV {
        OpenV {
            chat: self.chat@,
            history: seen(self.history@),
            has_more_history: self.has_more_history,
        }
    }
}

impl View for ChatState {
    type V = ChatStateV;

    open spec fn view(&self) -> ChatStateV {
        ChatStateV {
            chat_list_state: self.chat_list_state,
            chats: seen(self.chats@),
            search: self.search@,
            message_search: self.message_search@,
            message_search_anchor: self.message_search_anchor,
            visible_page: self.visible_page,
            open_chat: opt_view(self.open_chat),
            pending_reply: opt_view(self.pending_reply),
            pending_edit: opt_view(self.pending_edit),
            drafts: self.drafts@,
            message_list_state: self.message_list_state,
            selected_messages: self.selected_messages@,
        }
    }
}

impl Default for OpenChat {
    fn default() -> (r: Self)
        ensures
            r.chat@.id == ChatIdV::Myself,
            r@.history == Seq::<MessageV>::empty(),
            !r.has_more_history,
    {
        let r = OpenChat { chat: Chat::default(), history: Vec::new(), has_more_history: false };
        assert(r@.history =~= Seq::<MessageV>::empty());
        r
    }
}

impl Default for ChatState {
    fn default() -> (r: Self)
        ensures
            r@ == (ChatStateV {
                chat_list_state: ListState { selected: None, offset: 0 },
                chats: Seq::empty(),
                search: no_search(),
                message_search: no_search(),
                message_search_anchor: None,
                visible_page: 0,
                open_chat: None,
                pending_reply: None,
                pending_edit: None,
                drafts: Map::empty(),
                message_list_state: ListState { selected: None, offset: 0 },
                selected_messages: Map::empty(),
            }),
    {
        let r = ChatState {
            chat_list_state: ListState::default(),
            chats: Vec::new(),
            search: SearchState::default(),
            message_search: SearchState::default(),
            message_search_anchor: None,
            visible_page: 0,
            open_chat: None,
            pending_reply: None,
            pending_edit: None,
            drafts: ChatMap::new(),
            message_list_state: ListState::default(),
            selected_messages: ChatMap::new(),
        };
        assert(r@.chats =~= Seq::<ChatV>::empty());
        assert(r@.drafts =~= Map::<ChatIdV, Seq<char>>::empty());
        r
    }
}

/// Position of the first chat with an id.
pub fn chat_position(chats: &Vec<Chat>, id: &ChatId) -> (r: Option<usize>)
    ensures
        match r {
            Some(i) => first_of(chat_ids(seen(chats@)), id@) == Some(i as int) && i < chats@.len()
                && chats@[i as int].id@ == id@,
            None => first_of(chat_ids(seen(chats@)), id@) is None,
        },
{
    let ghost ids = chat_ids(seen(chats@));
    let mut i: usize = 0;
    while i < chats.len()
        invariant
            i <= chats@.len(),
            ids == chat_ids(seen(chats@)),
            forall|k: int| 0 <= k < i ==> ids[k] != id@,
        decreases chats@.len() - i,
    {
        assert(ids[i as int] == chats@[i as int].id@);
        if chats[i].id == *id {
            proof {
                first_of_at(ids, id@, i as int);
            }
            return Some(i);
        }
        i += 1;
    }
    proof {
        first_of_none(ids, id@);
    }
    None
}

/// Position of the first message with an id.
pub fn message_position(history: &Vec<Message>, id: &MessageId) -> (r: Option<usize>)
    ensures
        match r {
            Some(i) => first_of(message_ids(seen(history@)), id@) == Some(i as int) && i
                < history@.len() && history@[i as int].message_id@ == id@,
            None => first_of(message_ids(seen(history@)), id@) is None,
        },
{
    let ghost ids = message_ids(seen(history@));
    let mut i: usize = 0;
    while i < history.len()
        invariant
            i <= history@.len(),
            ids == message_ids(seen(history@)),
            forall|k: int| 0 <= k < i ==> ids[k] != id@,
        decreases history@.len() - i,
    {
        assert(ids[i as int] == history@[i as int].message_id@);
        if history[i].message_id == *id {
            proof {
                first_of_at(ids, id@, i as int);
            }
            return Some(i);
        }
        i += 1;
    }
    proof {
        first_of_none(ids, id@);
    }
    None
}

proof fn contains_iff_first_of<A>(s: Seq<A>, x: A)
    ensures
        s.contains(x) <==> first_of(s, x) is Some,
{
    first_of_is_least(s, x);
    if first_of(s, x) is Some {
        assert(s[first_of(s, x).unwrap()] == x);
    }
}

/// Keeps only the first chat of each id.
pub fn keep_first(chats: &Vec<Chat>) -> (r: Vec<Chat>)
    ensures
        seen(r@) == deduped(seen(chats@)),
{
    let ghost all = seen(chats@);
    let mut out: Vec<Chat> = Vec::new();
    let mut i: usize = 0;
    assert(seen(out@) =~= deduped(all.take(0)));
    while i < chats.len()
        invariant
            i <= chats@.len(),
            all == seen(chats@),
            seen(out@) == deduped(all.take(i as int)),
        decreases chats@.len() - i,
    {
        let ghost before = out@;
        proof {
            assert(all.take(i as int + 1).drop_last() =~= all.take(i as int));
            contains_iff_first_of(chat_ids(seen(out@)), chats@[i as int].id@);
        }
        if chat_position(&out, &chats[i].id).is_none() {
            out.push(chats[i].clone());
            assert(seen(out@) =~= seen(before).push(chats@[i as int]@));
        }
        i += 1;
    }
    assert(all.take(i as int) =~= all);
    out
}

/// The chats that do not belong to a provider.
fn keep_others(chats: &Vec<Chat>, provider: Provider) -> (r: Vec<Chat>)
    ensures
        seen(r@) == of_others(seen(chats@), provider),
{
    let ghost all = seen(chats@);
    let mut out: Vec<Chat> = Vec::new();
    let mut i: usize = 0;
    assert(seen(out@) =~= of_others(all.take(0), provider));
    while i < chats.len()
        invariant
            i <= chats@.len(),
            all == seen(chats@),
            seen(out@) == of_others(all.take(i as int), provider),
        decreases chats@.len() - i,
    {
        let ghost before = out@;
        assert(all.take(i as int + 1).drop_last() =~= all.take(i as int));
        let theirs: bool = match (&chats[i].id, provider) {
            (ChatId::Telegram(_), Provider::Telegram) => true,
            (ChatId::WhatsApp(_), Provider::WhatsApp) => true,
            _ => false,
        };
        if !theirs {
            out.push(chats[i].clone());
            assert(seen(out@) =~= seen(before).push(chats@[i as int]@));
        }
        i += 1;
    }
    assert(all.take(i as int) =~= all);
    out
}

/// Rows of the chats whose name contains `needle`.
fn matching_chats(chats: &Vec<Chat>, needle: &str) -> (r: Vec<usize>)
    ensures
        r@ == matching(names(seen(chats@)), needle@),
{
    let ghost all = names(seen(chats@));
    let mut out: Vec<usize> = Vec::new();
    let mut i: usize = 0;
    assert(out@ =~= matching(all.take(0), needle@));
    while i < chats.len()
        invariant
            i <= chats@.len(),
            all == names(seen(chats@)),
            out@ == matching(all.take(i as int), needle@),
        decreases chats@.len() - i,
    {
        assert(all.take(i as int + 1).drop_last() =~= all.take(i as int));
        assert(all[i as int] == chats@[i as int].contact_name@);
        let lower: String = to_lowercase(chats[i].contact_name.as_str());
        if contains(lower.as_str(), needle) {
            out.push(i);
        }
        i += 1;
    }
    assert(all.take(i as int) =~= all);
    out
}

/// Rows of the messages whose text contains `needle`.
fn matching_messages(history: &Vec<Message>, needle: &str) -> (r: Vec<usize>)
    ensures
        r@ == matching(texts(seen(history@)), needle@),
{
    let ghost all = texts(seen(history@));
    let mut out: Vec<usize> = Vec::new();
    let mut i: usize = 0;
    assert(out@ =~= matching(all.take(0), needle@));
    while i < history.len()
        invariant
            i <= history@.len(),
            all == texts(seen(history@)),
            out@ == matching(all.take(i as int), needle@),
        decreases history@.len() - i,
    {
        assert(all.take(i as int + 1).drop_last() =~= all.take(i as int));
        assert(all[i as int] == history@[i as int].text@);
        let lower: String = to_lowercase(history[i].text.as_str());
        if contains(lower.as_str(), needle) {
            out.push(i);
        }
        i += 1;
    }
    assert(all.take(i as int) =~= all);
    out
}

/// Rows that match are rows of the list, in order.
pub proof fn matching_rows_are_rows(s: Seq<Seq<char>>, needle: Seq<char>)
    requires
        s.len() <= usize::MAX,
    ensures
        matching(s, needle).len() <= s.len(),
        forall|k: int|
            0 <= k < matching(s, needle).len() ==> (#[trigger] matching(s, needle)[k]) < s.len() && includes(
                lowercase(s[matching(s, needle)[k] as int]),
                needle,
            ),
        forall|k: int, l: int|
            0 <= k < l < matching(s, needle).len() ==> (#[trigger] matching(s, needle)[k]) < (
            #[trigger] matching(s, needle)[l]),
        forall|i: int|
            0 <= i < s.len() && includes(lowercase(#[trigger] s[i]), needle) ==> matching(
                s,
                needle,
            ).contains(i as usize),
    decreases s.len(),
{
    if s.len() > 0 {
        let d = s.drop_last();
        matching_rows_are_rows(d, needle);
        let m = matching(s, needle);
        let r = matching(d, needle);
        assert forall|k: int| 0 <= k < m.len() implies (#[trigger] m[k]) < s.len() && includes(
            lowercase(s[m[k] as int]),
            needle,
        ) by {
            if k < r.len() {
                assert(m[k] == r[k]);
                assert(d[r[k] as int] == s[r[k] as int]);
            }
        }
        assert forall|k: int, l: int| 0 <= k < l < m.len() implies (#[trigger] m[k]) < (
        #[trigger] m[l]) by {
            assert(m[k] == r[k]);
            if l < r.len() {
                assert(m[l] == r[l]);
            }
        }
        assert forall|i: int| 0 <= i < s.len() && includes(lowercase(#[trigger] s[i]), needle) implies m.contains(
            i as usize,
        ) by {
            if i < s.len() - 1 {
                assert(d[i] == s[i]);
                assert(r.contains(i as usize));
                let k = choose|k: int| 0 <= k < r.len() && r[k] == i as usize;
                assert(m[k] == i as usize);
            } else {
                assert(m[m.len() - 1] == i as usize);
            }
        }
    }
}

fn usize_in(v: &Vec<usize>, x: usize) -> (r: bool)
    ensures
        r == v@.contains(x),
{
    let mut i: usize = 0;
    while i < v.len()
        invariant
            i <= v@.len(),
            forall|k: int| 0 <= k < i ==> v@[k] != x,
        decreases v@.len() - i,
    {
        if v[i] == x {
            assert(v@[i as int] == x);
            return true;
        }
        i += 1;
    }
    false
}

fn action_in(v: &Vec<MessageAction>, x: MessageAction) -> (r: bool)
    ensures
        r == v@.contains(x),
{
    let mut i: usize = 0;
    while i < v.len()
        invariant
            i <= v@.len(),
            forall|k: int| 0 <= k < i ==> v@[k] != x,
        decreases v@.len() - i,
    {
        if v[i] == x {
            assert(v@[i as int] == x);
            return true;
        }
        i += 1;
    }
    false
}

/// The messages of a history but those with an id.
fn drop_message(history: &Vec<Message>, id: &MessageId) -> (r: Vec<Message>)
    ensures
        seen(r@) == without_message(seen(history@), id@),
{
    let ghost all = seen(history@);
    let mut out: Vec<Message> = Vec::new();
    let mut i: usize = 0;
    assert(seen(out@) =~= without_message(all.take(0), id@));
    while i < history.len()
        invariant
            i <= history@.len(),
            all == seen(history@),
            seen(out@) == without_message(all.take(i as int), id@),
        decreases history@.len() - i,
    {
        let ghost before = out@;
        assert(all.take(i as int + 1).drop_last() =~= all.take(i as int));
        if !(history[i].message_id == *id) {
            out.push(history[i].clone());
            assert(seen(out@) =~= seen(before).push(history@[i as int]@));
        }
        i += 1;
    }
    assert(all.take(i as int) =~= all);
    out
}

impl ChatState {
    /// The selected chat.
    pub fn selected_chat(&self) -> (r: Option<&Chat>)
        ensures
            match r {
                Some(c) => selected_chat_of(self@) == Some(c@),
                None => selected_chat_of(self@) is None,
            },
    {
        match self.chat_list_state.selected() {
            None => None,
            Some(sel) => match self.search.map_to_source(sel) {
                None => None,
                Some(src) => {
                    if src < self.chats.len() {
                        Some(&self.chats[src])
                    } else {
                        None
                    }
                },
            },
        }
    }

    fn selected_id(&self) -> (r: Option<ChatId>)
        ensures
            opt_view(r) == selected_id_of(self@),
    {
        match self.selected_chat() {
            Some(c) => Some(c.id.clone()),
            None => None,
        }
    }

    /// The id of the chat to come back to when a search ends.
    pub fn search_anchor_id(&self) -> (r: Option<ChatId>)
        ensures
            opt_view(r) == anchor_id_of(self@),
    {
        match self.search.anchor_source() {
            Some(src) => {
                if src < self.chats.len() {
                    Some(self.chats[src].id.clone())
                } else {
                    None
                }
            },
            None => None,
        }
    }

    /// Begins a search over the chat list.
    pub fn begin_search(&mut self)
        ensures
            final(self)@ == search_refreshed(
                ChatStateV {
                    search: SearchV { inserting: true, ..no_search() },
                    ..old(self)@
                },
            ),
    {
        self.search.begin();
        self.refresh_search();
    }

    /// Ends typing and keeps the filter.
    pub fn commit_search(&mut self)
        ensures
            final(self)@ == search_refreshed(
                ChatStateV {
                    search: SearchV { inserting: false, ..old(self)@.search },
                    ..old(self)@
                },
            ),
    {
        self.search.commit();
        self.refresh_search();
    }

    /// Drops the filter; the selected chat stays selected.
    pub fn clear_search(&mut self)
        ensures
            final(self)@ == search_cleared(old(self)@),
    {
        let mut keep: Option<ChatId> = self.selected_id();
        if keep.is_none() {
            keep = self.search_anchor_id();
        }
        self.search.clear();
        self.apply_search(keep);
    }

    /// Hands a key press to the search field and filters anew.
    pub fn search_input(&mut self, key: KeyEvent)
        ensures
            final(self)@ == search_refreshed(
                ChatStateV {
                    search: SearchV {
                        query: old(self).search.typed(key).0,
                        column: old(self).search.typed(key).1,
                        ..old(self)@.search
                    },
                    ..old(self)@
                },
            ),
    {
        self.search.input(key);
        self.refresh_search();
    }

    /// Filters anew around the selected chat.
    pub fn refresh_search(&mut self)
        ensures
            final(self)@ == search_refreshed(old(self)@),
    {
        let mut keep: Option<ChatId> = self.selected_id();
        if keep.is_none() {
            keep = self.search_anchor_id();
        }
        self.apply_search(keep);
    }

    /// Filters anew around a given chat, or else the remembered one.
    pub fn refresh_search_with_id(&mut self, anchor: Option<ChatId>)
        ensures
            final(self)@ == searched(
                old(self)@,
                or_else(opt_view(anchor), anchor_id_of(old(self)@)),
            ),
    {
        let mut keep: Option<ChatId> = anchor;
        if keep.is_none() {
            keep = self.search_anchor_id();
        }
        self.apply_search(keep);
    }

    fn apply_search(&mut self, anchor: Option<ChatId>)
        ensures
            final(self)@ == searched(old(self)@, opt_view(anchor)),
    {
        let query: String = self.search.query_text();
        let text: String = trim(query.as_str());
        let needle: String = to_lowercase(text.as_str());
        let empty: bool = to_chars(text.as_str()).len() == 0;
        if empty {
            let mut keep: Option<ChatId> = anchor;
            if keep.is_none() {
                keep = self.search_anchor_id();
            }
            let none: Vec<usize> = Vec::new();
            assert(none@ =~= Seq::<usize>::empty());
            self.search.set_visible(none);
            let row: Option<usize> = match &keep {
                Some(id) => chat_position(&self.chats, id),
                None => None,
            };
            self.search.set_anchor(row);
            self.chat_list_state.select(row);
            return;
        }
        let rows: Vec<usize> = matching_chats(&self.chats, needle.as_str());
        let ghost chats = seen(self.chats@);
        let ghost row_ids = rows@.map_values(|i: usize| chats[i as int].id);
        let count: usize = self.chats.len();
        proof {
            assert(names(chats).len() == count);
            matching_rows_are_rows(names(chats), needle@);
        }
        let mut row: Option<usize> = if rows.len() > 0 { Some(0) } else { None };
        if let Some(id) = &anchor {
            let mut p: usize = 0;
            let mut found: bool = false;
            while p < rows.len() && !found
                invariant
                    p <= rows@.len(),
                    chats == seen(self.chats@),
                    row_ids == rows@.map_values(|i: usize| chats[i as int].id),
                    forall|k: int| 0 <= k < rows@.len() ==> (#[trigger] rows@[k]) < chats.len(),
                    !found ==> forall|k: int| 0 <= k < p ==> row_ids[k] != id@,
                    !found ==> row == (if rows@.len() > 0 { Some(0usize) } else { None }),
                    found ==> first_of(row_ids, id@) == Some(p as int) && p < rows@.len() && row
                        == Some(p),
                decreases rows@.len() - p, (if found { 0int } else { 1int }),
            {
                assert(rows@[p as int] < chats.len());
                assert(row_ids[p as int] == self.chats@[rows@[p as int] as int].id@);
                if self.chats[rows[p]].id == *id {
                    proof {
                        first_of_at(row_ids, id@, p as int);
                    }
                    row = Some(p);
                    found = true;
                } else {
                    p += 1;
                }
            }
            proof {
                if !found {
                    first_of_none(row_ids, id@);
                }
            }
        }
        if let Some(p) = row {
            self.search.set_anchor(Some(rows[p]));
        }
        self.search.set_visible(rows);
        self.chat_list_state.select(row);
    }

    /// Begins a search over the open chat; nothing where none is open.
    pub fn begin_message_search(&mut self)
        ensures
            final(self)@ == message_search_begun(old(self)@),
    {
        if self.open_chat.is_none() {
            return;
        }
        self.message_search_anchor = self.message_list_state.selected();
        self.message_search.begin();
        self.refresh_message_search();
    }

    /// Ends typing and keeps the matches.
    pub fn commit_message_search(&mut self)
        ensures
            final(self)@ == message_search_accepted(old(self)@),
    {
        self.message_search.commit();
        self.refresh_message_search();
    }

    /// Drops the message search. While typing, the selection goes back to
    /// where it was when the search began, or to the last message.
    pub fn clear_message_search(&mut self)
        ensures
            final(self)@ == message_search_dropped(old(self)@),
    {
        let was_inserting: bool = self.message_search.is_inserting();
        self.message_search.clear();
        if was_inserting {
            let mut row: Option<usize> = self.message_search_anchor;
            if row.is_none() {
                if let Some(open) = &self.open_chat {
                    let n: usize = open.history.len();
                    row = Some(if n > 0 { n - 1 } else { 0 });
                }
            }
            self.message_list_state.select(row);
        }
        self.message_search_anchor = None;
    }

    /// Hands a key press to the message search field and matches anew.
    pub fn message_search_input(&mut self, key: KeyEvent)
        ensures
            final(self)@ == message_query_typed(
                old(self)@,
                old(self).message_search.typed(key).0,
                old(self).message_search.typed(key).1,
            ),
    {
        self.message_search.input(key);
        self.refresh_message_search();
    }

    /// Works out the matches anew and moves the selection to one of them.
    pub fn refresh_message_search(&mut self)
        ensures
            final(self)@ == message_searched(old(self)@),
    {
        let query: String = self.message_search.query_text();
        let len: usize = match &self.open_chat {
            Some(open) => open.history.len(),
            None => 0,
        };
        let rows: Vec<usize> = self.message_search_indices(query.as_str());
        let empty: bool = to_chars(trim(query.as_str()).as_str()).len() == 0;
        if empty {
            let mut row: Option<usize> = self.message_search_anchor;
            if row.is_none() && len > 0 {
                row = Some(len - 1);
            }
            self.message_search.set_visible(rows);
            self.message_list_state.select(row);
            return;
        }
        let current: Option<usize> = self.message_list_state.selected();
        let keep: bool = match current {
            Some(i) => usize_in(&rows, i),
            None => false,
        };
        let row: Option<usize> = if keep {
            current
        } else if rows.len() > 0 {
            Some(rows[0])
        } else {
            None
        };
        self.message_search.set_visible(rows);
        self.message_list_state.select(row);
    }

    /// Works out the matches anew after the history changed by itself.
    fn refresh_message_search_if_active(&mut self)
        ensures
            final(self)@ == message_rows_refreshed(old(self)@),
    {
        if !self.message_search.is_active() {
            return;
        }
        let query: String = self.message_search.query_text();
        let rows: Vec<usize> = self.message_search_indices(query.as_str());
        self.message_search.set_visible(rows);
    }

    fn message_search_indices(&self, query: &str) -> (r: Vec<usize>)
        ensures
            r@ == message_rows(self@, query@),
    {
        let none: Vec<usize> = Vec::new();
        assert(none@ =~= Seq::<usize>::empty());
        let text: String = trim(query);
        let empty: bool = to_chars(text.as_str()).len() == 0;
        if empty {
            return none;
        }
        let needle: String = to_lowercase(text.as_str());
        match &self.open_chat {
            Some(open) => matching_messages(&open.history, needle.as_str()),
            None => none,
        }
    }

    /// The row of the full list behind a visible row; the filter is dropped
    /// where there is one.
    pub fn resolve_open_index(&mut self, index: usize) -> (r: Option<usize>)
        ensures
            r == source_row(old(self)@.search, index as int),
            final(self)@ == if r is Some {
                search_cleared(old(self)@)
            } else {
                old(self)@
            },
    {
        match self.search.map_to_source(index) {
            Some(src) => {
                self.clear_search();
                Some(src)
            },
            None => None,
        }
    }

    /// The rows of the full list that are visible; none without a filter.
    pub fn visible_indices(&self) -> (r: Vec<usize>)
        ensures
            r@ == self@.search.visible,
    {
        let rows: &Vec<usize> = self.search.indices();
        let mut out: Vec<usize> = Vec::new();
        let mut i: usize = 0;
        while i < rows.len()
            invariant
                i <= rows@.len(),
                out@ == rows@.take(i as int),
            decreases rows@.len() - i,
        {
            out.push(rows[i]);
            i += 1;
            assert(rows@.take(i as int) =~= rows@.take(i as int - 1).push(rows@[i as int - 1]));
        }
        assert(rows@.take(i as int) =~= rows@);
        out
    }

    fn deduplicate_chats(&mut self)
        ensures
            final(self)@ == (ChatStateV { chats: deduped(old(self)@.chats), ..old(self)@ }),
    {
        let kept: Vec<Chat> = keep_first(&self.chats);
        self.chats = kept;
    }

    /// The tag of the selected chat.
    pub fn get_tag(&self) -> (r: Option<&'static str>)
        ensures
            match r {
                Some(t) => selected_id_of(self@) is Some && t@ == tag_of(
                    selected_id_of(self@).unwrap(),
                ),
                None => selected_id_of(self@) is None,
            },
    {
        match self.selected_chat() {
            Some(c) => Some(c.id.tag()),
            None => None,
        }
    }

    /// Whether a chat is open.
    pub fn is_open(&self, id: &ChatId) -> (r: bool)
        ensures
            r == opened(self@, id@),
    {
        match &self.open_chat {
            Some(open) => open.chat.id == *id,
            None => false,
        }
    }

    fn set_history(&mut self, history: Vec<Message>)
        requires
            old(self).open_chat is Some,
        ensures
            final(self)@ == with_history(old(self)@, seen(history@)),
    {
        let taken: Option<OpenChat> = self.open_chat.take();
        if let Some(open) = taken {
            self.open_chat = Some(
                OpenChat { chat: open.chat, history, has_more_history: open.has_more_history },
            );
        }
    }

    fn take_history(&mut self) -> (r: Vec<Message>)
        requires
            old(self).open_chat is Some,
        ensures
            seen(r@) == old(self)@.open_chat.unwrap().history,
            final(self).open_chat is Some,
            final(self)@ == with_history(old(self)@, Seq::empty()),
    {
        let taken: Option<OpenChat> = self.open_chat.take();
        match taken {
            Some(open) => {
                let none: Vec<Message> = Vec::new();
                assert(seen(none@) =~= Seq::<MessageV>::empty());
                self.open_chat = Some(
                    OpenChat {
                        chat: open.chat,
                        history: none,
                        has_more_history: open.has_more_history,
                    },
                );
                open.history
            },
            None => Vec::new(),
        }
    }

    /// Appends a message to the open chat where it belongs there and is not
    /// known yet. Returns whether it belongs there.
    pub fn push_incoming(&mut self, message: Message) -> (r: bool)
        ensures
            (final(self)@, r) == incoming_pushed(old(self)@, message@),
    {
        if !self.is_open(&message.chat) {
            return false;
        }
        let known: bool = match &self.open_chat {
            Some(open) => message_position(&open.history, &message.message_id).is_some(),
            None => false,
        };
        proof {
            contains_iff_first_of(
                message_ids(self@.open_chat.unwrap().history),
                message@.message_id,
            );
        }
        if known {
            return true;
        }
        let ghost mv = message@;
        let mut history: Vec<Message> = self.take_history();
        let ghost h = history@;
        history.push(message);
        assert(seen(history@) =~= seen(h).push(mv));
        self.set_history(history);
        self.refresh_message_search_if_active();
        true
    }

    /// Puts a message in the place of the one with the id `old_id`; any other
    /// message with the new id goes. Returns whether there was one to replace.
    pub fn replace_message(&mut self, old_id: &MessageId, new: Message) -> (r: bool)
        ensures
            (final(self)@, r) == message_replaced(old(self)@, old_id@, new@),
    {
        if self.open_chat.is_none() {
            return false;
        }
        let all: Vec<Message> = self.take_history();
        let mut history: Vec<Message> = all;
        if !(*old_id == new.message_id) {
            history = drop_message(&history, &new.message_id);
        }
        match message_position(&history, old_id) {
            Some(i) => {
                let ghost h = history@;
                let ghost nv = new@;
                history.set(i, new);
                assert(seen(history@) =~= seen(h).update(i as int, nv));
                self.set_history(history);
                self.refresh_message_search_if_active();
                true
            },
            None => {
                self.set_history(history);
                false
            },
        }
    }

    /// Marks an outgoing message as failed. Returns whether it is there.
    pub fn mark_failed(&mut self, id: &MessageId) -> (r: bool)
        ensures
            changed_message(old(self)@, final(self)@, id@, r, |m: MessageV| failed_message(m)),
    {
        if self.open_chat.is_none() {
            return false;
        }
        let at: Option<usize> = match &self.open_chat {
            Some(open) => message_position(&open.history, id),
            None => None,
        };
        match at {
            Some(i) => {
                let mut history: Vec<Message> = self.take_history();
                let ghost h = history@;
                assert(seen(h)[i as int] == h[i as int]@);
                let mut m: Message = history[i].clone();
                m.failed = true;
                m.pending = false;
                if !action_in(&m.msg_actions, MessageAction::Retry) {
                    m.msg_actions.push(MessageAction::Retry);
                }
                let ghost mv = m@;
                history.set(i, m);
                assert(seen(history@) =~= seen(h).update(i as int, mv));
                self.set_history(history);
                self.refresh_message_search_if_active();
                true
            },
            None => false,
        }
    }

    /// Removes the messages with an id. Returns whether there was one.
    pub fn remove_message(&mut self, id: &MessageId) -> (r: bool)
        ensures
            (final(self)@, r) == message_removed(old(self)@, id@),
    {
        if self.open_chat.is_none() {
            return false;
        }
        let all: Vec<Message> = self.take_history();
        let kept: Vec<Message> = drop_message(&all, id);
        let removed: bool = kept.len() != all.len();
        proof {
            assert(seen(kept@).len() == kept@.len());
            assert(seen(all@).len() == all@.len());
        }
        self.set_history(kept);
        if removed {
            self.refresh_message_search_if_active();
        }
        removed
    }

    /// Changes the text of a message of the open chat. Returns whether it is
    /// there.
    pub fn update_message_text(&mut self, id: &MessageId, text: &str) -> (r: bool)
        ensures
            changed_message(
                old(self)@,
                final(self)@,
                id@,
                r,
                |m: MessageV| MessageV { text: text@, ..m },
            ),
    {
        if self.open_chat.is_none() {
            return false;
        }
        let at: Option<usize> = match &self.open_chat {
            Some(open) => message_position(&open.history, id),
            None => None,
        };
        match at {
            Some(i) => {
                let mut history: Vec<Message> = self.take_history();
                let ghost h = history@;
                assert(seen(h)[i as int] == h[i as int]@);
                let mut m: Message = history[i].clone();
                m.text = owned(text);
                let ghost mv = m@;
                history.set(i, m);
                assert(seen(history@) =~= seen(h).update(i as int, mv));
                self.set_history(history);
                self.refresh_message_search_if_active();
                true
            },
            None => false,
        }
    }

    /// Puts a message in the place of the one with the same id. Returns
    /// whether it is there.
    pub fn update_message(&mut self, message: Message) -> (r: bool)
        ensures
            changed_message(
                old(self)@,
                final(self)@,
                message@.message_id,
                r,
                |m: MessageV| message@,
            ),
    {
        if self.open_chat.is_none() {
            return false;
        }
        let at: Option<usize> = match &self.open_chat {
            Some(open) => message_position(&open.history, &message.message_id),
            None => None,
        };
        match at {
            Some(i) => {
                let ghost mv = message@;
                let mut history: Vec<Message> = self.take_history();
                let ghost h = history@;
                history.set(i, message);
                assert(seen(history@) =~= seen(h).update(i as int, mv));
                self.set_history(history);
                self.refresh_message_search_if_active();
                true
            },
            None => false,
        }
    }

    /// The first message of the open chat with an id.
    pub fn find_message(&self, id: &MessageId) -> (r: Option<&Message>)
        ensures
            match r {
                Some(m) => self@.open_chat is Some && first_of(
                    message_ids(self@.open_chat.unwrap().history),
                    id@,
                ) is Some && m@ == self@.open_chat.unwrap().history[first_of(
                    message_ids(self@.open_chat.unwrap().history),
                    id@,
                ).unwrap()],
                None => self@.open_chat is Some ==> first_of(
                    message_ids(self@.open_chat.unwrap().history),
                    id@,
                ) is None,
            },
    {
        match &self.open_chat {
            Some(open) => match message_position(&open.history, id) {
                Some(i) => Some(&open.history[i]),
                None => None,
            },
            None => None,
        }
    }

    /// The selected message of the open chat.
    pub fn selected_message(&self) -> (r: Option<&Message>)
        ensures
            match r {
                Some(m) => selected_message_of(self@) == Some(m@),
                None => selected_message_of(self@) is None,
            },
    {
        match (self.message_list_state.selected(), &self.open_chat) {
            (Some(i), Some(open)) => {
                if i < open.history.len() {
                    Some(&open.history[i])
                } else {
                    None
                }
            },
            _ => None,
        }
    }

    /// The first chat with an id, and its row.
    pub fn find_mut(&mut self, id: &ChatId) -> (r: Option<(usize, &mut Chat)>)
        ensures
            match r {
                Some((i, c)) => first_of(chat_ids(old(self)@.chats), id@) == Some(i as int) && i
                    < old(self).chats@.len() && *c == old(self).chats@[i as int] && final(self)@ == (ChatStateV {
                    chats: old(self)@.chats.update(i as int, final(c)@),
                    ..old(self)@
                }),
                None => first_of(chat_ids(old(self)@.chats), id@) is None && final(self)@ == old(
                    self,
                )@,
            },
    {
        match chat_position(&self.chats, id) {
            Some(i) => {
                proof {
                    let s = self.chats@;
                    assert forall|x: Chat|
                        #[trigger] seen(s.update(i as int, x)) == seen(s).update(i as int, x@) by {
                        assert(seen(s.update(i as int, x)) =~= seen(s).update(i as int, x@));
                    }
                }
                let c: &mut Chat = &mut self.chats[i];
                Some((i, c))
            },
            None => None,
        }
    }

    /// Marks a chat as read.
    pub fn mark_read(&mut self, id: &ChatId)
        ensures
            final(self)@ == chat_read(old(self)@, id@),
    {
        match self.find_mut(id) {
            Some((_i, chat)) => {
                chat.unread = false;
                chat.unread_count = 0;
            },
            None => {},
        }
    }

    /// Orders the chat list: pinned chats first, then the most recent first.
    pub fn sort_pinned_then_recent(&mut self)
        ensures
            final(self)@ == (ChatStateV {
                chats: ordered::<Chat>(old(self)@.chats),
                ..old(self)@
            }),
    {
        order(&mut self.chats);
    }

    /// Brings one chat of the list up to date, or adds it.
    pub fn upsert_chat(&mut self, chat: Chat) -> (r: bool)
        ensures
            r,
            final(self)@ == upserted(old(self)@, chat@),
    {
        let mut chat: Chat = chat;
        let ghost update = chat@;
        self.deduplicate_chats();
        if same(chat.contact_name.as_str(), "Unknown") || same(chat.contact_name.as_str(), "You") {
            chat.contact_name = String::new();
            assert(chat@.contact_name =~= Seq::<char>::empty());
        }
        assert(chat@ == without_placeholder(update));
        let selected: Option<ChatId> = self.selected_id();
        let ghost rows = self@.chats;
        match chat_position(&self.chats, &chat.id) {
            Some(i) => {
                let ghost u = chat@;
                let ghost raw = self.chats@;
                let mut row: Chat = self.chats[i].clone();
                assert(rows[i as int] == row@);
                let named: bool = to_chars(chat.contact_name.as_str()).len() > 0;
                if named {
                    row.contact_name = chat.contact_name;
                    if chat.verified {
                        row.verified = true;
                    }
                }
                if let Some(s) = chat.status {
                    if !is_blank(s.as_str()) {
                        row.status = Some(s);
                    }
                }
                if chat.fixed {
                    row.fixed = true;
                }
                let timed: bool = chat.last_message_ts.is_some();
                let newer: bool = match (chat.last_message_ts, row.last_message_ts) {
                    (Some(a), Some(b)) => a > b,
                    (Some(_), None) => true,
                    (None, _) => false,
                };
                if newer {
                    row.last_message_ts = chat.last_message_ts;
                }
                if chat.unread || chat.unread_count > 0 {
                    row.unread = true;
                } else if !timed {
                    row.unread = false;
                }
                if chat.unread_count > 0 || !timed {
                    row.unread_count = chat.unread_count;
                }
                let resort: bool = row.fixed || newer;
                assert(row@ == merged_row(rows[i as int], u));
                let ghost rv = row@;
                self.chats.set(i, row);
                assert(seen(self.chats@) =~= rows.update(i as int, rv));
                if resort {
                    self.sort_pinned_then_recent();
                }
            },
            None => {
                chat.scroll = 0;
                let ghost cv = chat@;
                self.chats.push(chat);
                assert(seen(self.chats@) =~= rows.push(cv));
                self.sort_pinned_then_recent();
            },
        }
        self.deduplicate_chats();
        self.refresh_search_with_id(selected);
        true
    }

    /// Takes over a provider's complete chat list. Returns whether the list
    /// changed.
    pub fn reconcile_provider_chats(&mut self, provider: Provider, chats: Vec<Chat>) -> (r: bool)
        ensures
            final(self)@ == reconciled(old(self)@, provider, seen(chats@)),
            r == (final(self)@.chats != old(self)@.chats),
    {
        if chats.len() == 0 {
            assert(seen(chats@).len() == 0);
            return false;
        }
        assert(seen(chats@).len() > 0);
        let before: Vec<Chat> = copy_chats(&self.chats);
        let selected: Option<ChatId> = self.selected_id();
        let mut list: Vec<Chat> = keep_others(&self.chats, provider);
        let mut fresh: Vec<Chat> = keep_first(&chats);
        let ghost a = list@;
        let ghost b = fresh@;
        list.append(&mut fresh);
        assert(seen(list@) =~= seen(a) + seen(b));
        self.chats = list;
        self.sort_pinned_then_recent();
        self.deduplicate_chats();
        self.refresh_search_with_id(selected);
        !same_chats(&before, &self.chats)
    }

    /// Merges freshly fetched messages into the open chat.
    pub fn refresh_chat_history(&mut self, chat_id: &ChatId, history: Vec<Message>)
        ensures
            final(self)@ == history_refreshed(old(self)@, chat_id@, seen(history@)),
    {
        if !self.is_open(chat_id) {
            return;
        }
        let ghost st = self@;
        let selected: Option<usize> = self.message_list_state.selected();
        let mut merged: Vec<Message> = self.take_history();
        let ghost old_h = seen(merged@);
        let ghost list = seen(history@);
        let old_len: usize = merged.len();
        let mut i: usize = 0;
        assert(list.take(0) =~= Seq::<MessageV>::empty());
        while i < history.len()
            invariant
                i <= history@.len(),
                list == seen(history@),
                seen(merged@) == with_all_fetched(old_h, list.take(i as int)),
            decreases history@.len() - i,
        {
            let ghost before = merged@;
            assert(list.take(i as int + 1).drop_last() =~= list.take(i as int));
            assert(list.take(i as int + 1).last() == history@[i as int]@);
            let mut m: Message = history[i].clone();
            match message_position(&merged, &m.message_id) {
                Some(p) => {
                    assert(seen(before)[p as int] == before[p as int]@);
                    if m.reply_to_id.is_none() {
                        m.reply_to_id = merged[p].reply_to_id.clone();
                    }
                    if m.reply_ctx.is_none() {
                        m.reply_ctx = merged[p].reply_ctx.clone();
                    }
                    let ghost mv = m@;
                    merged.set(p, m);
                    assert(seen(merged@) =~= seen(before).update(p as int, mv));
                },
                None => {
                    let ghost mv = m@;
                    merged.push(m);
                    assert(seen(merged@) =~= seen(before).push(mv));
                },
            }
            i += 1;
        }
        assert(list.take(i as int) =~= list);
        proof {
            ordering_is_stable::<Message>(seen(merged@));
        }
        order(&mut merged);
        let new_len: usize = merged.len();
        assert(new_len == seen(merged@).len());
        self.set_history(merged);
        let row: Option<usize> = if new_len == 0 {
            None
        } else {
            match selected {
                Some(s) => {
                    if old_len > 0 && s == old_len - 1 && new_len > old_len {
                        Some(new_len - 1)
                    } else if s < new_len {
                        Some(s)
                    } else {
                        Some(new_len - 1)
                    }
                },
                None => Some(new_len - 1),
            }
        };
        self.message_list_state.select(row);
        self.refresh_message_search_if_active();
    }

    /// Merges older messages into the open chat.
    pub fn prepend_history(&mut self, chat_id: &ChatId, older: Vec<Message>)
        requires
            match old(self)@.message_list_state.selected {
                Some(i) => i + older@.len() <= usize::MAX,
                None => true,
            },
            old(self)@.open_chat is Some ==> old(self)@.open_chat.unwrap().history.len()
                + older@.len() <= usize::MAX,
        ensures
            final(self)@ == history_prepended(old(self)@, chat_id@, seen(older@)),
    {
        if !self.is_open(chat_id) {
            return;
        }
        let mut history: Vec<Message> = self.take_history();
        let ghost old_h = seen(history@);
        let ghost list = seen(older@);
        let mut merged: Vec<Message> = Vec::new();
        let mut i: usize = 0;
        assert(seen(merged@) =~= unknown_messages(list.take(0), old_h));
        while i < older.len()
            invariant
                i <= older@.len(),
                list == seen(older@),
                old_h == seen(history@),
                seen(merged@) == unknown_messages(list.take(i as int), old_h),
                merged@.len() <= i,
            decreases older@.len() - i,
        {
            let ghost before = merged@;
            assert(list.take(i as int + 1).drop_last() =~= list.take(i as int));
            proof {
                contains_iff_first_of(message_ids(old_h), older@[i as int].message_id@);
            }
            if message_position(&history, &older[i].message_id).is_none() {
                merged.push(older[i].clone());
                assert(seen(merged@) =~= seen(before).push(older@[i as int]@));
            }
            i += 1;
        }
        assert(list.take(i as int) =~= list);
        let count: usize = merged.len();
        assert(count == seen(merged@).len());
        let was_empty: bool = history.len() == 0;
        assert(old_h.len() == history@.len());
        if count == 0 {
            self.set_history(history);
            return;
        }
        let ghost more = seen(merged@);
        let ghost m0 = merged@;
        let ghost h0 = history@;
        merged.append(&mut history);
        assert(seen(merged@) =~= seen(m0) + seen(h0));
        proof {
            ordering_is_stable::<Message>(more + old_h);
        }
        order(&mut merged);
        let n: usize = merged.len();
        assert(n == seen(merged@).len());
        self.set_history(merged);
        let selected: usize = match self.message_list_state.selected() {
            Some(s) => s,
            None => 0,
        };
        let at: usize = selected + count;
        let row: usize = if was_empty || at >= n { n - 1 } else { at };
        self.message_list_state.select(Some(row));
        self.refresh_message_search_if_active();
    }

    /// Keeps unsent text for a chat; blank text is forgotten.
    pub fn save_draft(&mut self, id: &ChatId, text: String)
        ensures
            final(self)@ == draft_saved(old(self)@, id@, text@),
    {
        if is_blank(text.as_str()) {
            self.drafts.remove(id);
        } else {
            self.drafts.insert(id.clone(), text);
        }
    }

    /// The unsent text of a chat.
    pub fn load_draft(&self, id: &ChatId) -> (r: Option<&str>)
        ensures
            text_of(r) == draft_of(self@, id@),
    {
        match self.drafts.get(id) {
            Some(s) => Some(s.as_str()),
            None => None,
        }
    }

    /// Remembers which message is selected in the open chat.
    pub fn save_message_selection(&mut self)
        ensures
            final(self)@ == selection_saved(old(self)@),
    {
        let id: Option<ChatId> = match &self.open_chat {
            Some(open) => Some(open.chat.id.clone()),
            None => None,
        };
        if let (Some(id), Some(i)) = (id, self.message_list_state.selected()) {
            self.selected_messages.insert(id, i);
        }
    }

    /// Selects the message remembered for the open chat, or the last one.
    pub fn restore_message_selection(&mut self, history_len: usize)
        ensures
            final(self)@ == selection_restored(old(self)@, history_len as int),
    {
        if history_len == 0 {
            self.message_list_state.select(None);
            return;
        }
        let id: ChatId = match &self.open_chat {
            Some(open) => open.chat.id.clone(),
            None => {
                return;
            },
        };
        let row: usize = match self.selected_messages.get(&id) {
            Some(i) => if *i < history_len { *i } else { history_len - 1 },
            None => history_len - 1,
        };
        self.message_list_state.select(Some(row));
    }
}

/// The selected message of the open chat.
pub open spec fn selected_message_of(st: ChatStateV) -> Option<MessageV> {
    match (st.message_list_state.selected, st.open_chat) {
        (Some(i), Some(open)) => if i < open.history.len() {
            Some(open.history[i as int])
        } else {
            None
        },
        _ => None,
    }
}

/// What an operation on the first message with an id does: `r` says whether
/// there is one, and it alone changes, by `change`.
pub open spec fn changed_message(
    st: ChatStateV,
    after: ChatStateV,
    id: Seq<char>,
    r: bool,
    change: spec_fn(MessageV) -> MessageV,
) -> bool {
    match st.open_chat {
        None => !r && after == st,
        Some(open) => match first_of(message_ids(open.history), id) {
            Some(i) => r && after == message_rows_refreshed(
                with_history(st, open.history.update(i, change(open.history[i]))),
            ),
            None => !r && after == st,
        },
    }
}

fn copy_chats(chats: &Vec<Chat>) -> (r: Vec<Chat>)
    ensures
        r@ == chats@,
{
    let mut out: Vec<Chat> = Vec::new();
    let mut i: usize = 0;
    while i < chats.len()
        invariant
            i <= chats@.len(),
            out@ == chats@.take(i as int),
        decreases chats@.len() - i,
    {
        out.push(chats[i].clone());
        i += 1;
        assert(chats@.take(i as int) =~= chats@.take(i as int - 1).push(chats@[i as int - 1]));
    }
    assert(chats@.take(i as int) =~= chats@);
    out
}

fn same_chats(a: &Vec<Chat>, b: &Vec<Chat>) -> (r: bool)
    ensures
        r == (seen(a@) == seen(b@)),
{
    if a.len() != b.len() {
        assert(seen(a@).len() != seen(b@).len());
        return false;
    }
    let mut i: usize = 0;
    while i < a.len()
        invariant
            a@.len() == b@.len(),
            i <= a@.len(),
            forall|k: int| 0 <= k < i ==> (#[trigger] a@[k])@ == b@[k]@,
        decreases a@.len() - i,
    {
        if !(a[i] == b[i]) {
            assert(seen(a@)[i as int] != seen(b@)[i as int]);
            return false;
        }
        i += 1;
    }
    assert(seen(a@) =~= seen(b@));
    true
}

}
