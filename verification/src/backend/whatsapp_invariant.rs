//! What every operation on a WhatsApp account keeps: each chat is listed once,
//! and each message is kept once in its chat.
use vstd::prelude::*;

use crate::backend::{ChatIdV, ChatV, Message, MessageV};
use crate::backend::whatsapp::{
    chat_at, empty_account, event_step, read_rows, with_sent, UsyncResult, WaConversation,
    WaEvent, WaHistorySync, WaInbound, WaWebMessage,
};
use crate::backend::whatsapp_laws::added_messages_keep_history;
use crate::backend::whatsapp_model::{
    absorbed, all_authors_learned, author_learned, authors_learned, canonical_id, canonical_ids,
    folded_key, history_of, history_synced, ingested, ingested_all, is_lid, joined_messages,
    learned, lid_folded, lids_folded, lids_of, listed_conversation, listed_message, name_candidates,
    named_chat, new_messages, own_chat, previewed, self_named, synced_conversation, synced_conversations,
    wa_message, with_directory_name, with_directory_names, with_identity, with_message,
    with_messages, with_pushnames, WaV,
};
use crate::jid::{bare, canonical, jid_of, pn_address, user_base_of};
use crate::order::{ordered, placed, Ranked};
use crate::tui::chat_model::{
    chat_ids, distinct_ids, first_of, first_of_is_least, message_ids, without_message,
};

verus! {

/// Whether each chat is listed once, and each message is kept once in its chat.
pub open spec fn orderly(st: WaV) -> bool {
    &&& distinct_ids(st.chats)
    &&& forall|chat: ChatIdV| message_ids(#[trigger] history_of(st, chat)).no_duplicates()
}

// Rows.

proof fn same_rows_stay_distinct(a: Seq<ChatV>, b: Seq<ChatV>)
    requires
        distinct_ids(a),
        chat_ids(a) =~= chat_ids(b),
    ensures
        distinct_ids(b),
{
    assert(a.len() == chat_ids(a).len() && b.len() == chat_ids(b).len());
    assert forall|i: int, j: int| 0 <= i < j < b.len() implies (#[trigger] b[i]).id != (
    #[trigger] b[j]).id by {
        assert(chat_ids(b)[i] == b[i].id && chat_ids(b)[j] == b[j].id);
        assert(chat_ids(a)[i] == a[i].id && chat_ids(a)[j] == a[j].id);
        assert(a[i].id != a[j].id);
    }
}

proof fn new_row_is_distinct(s: Seq<ChatV>, c: ChatV)
    requires
        distinct_ids(s),
        first_of(chat_ids(s), c.id) is None,
    ensures
        distinct_ids(s.push(c)),
{
    first_of_is_least(chat_ids(s), c.id);
    let b = s.push(c);
    assert forall|i: int, j: int| 0 <= i < j < b.len() implies (#[trigger] b[i]).id != (
    #[trigger] b[j]).id by {
        assert(chat_ids(s)[i] == s[i].id);
        if j < s.len() {
            assert(s[i].id != s[j].id);
        }
    }
}

proof fn changed_row_stays_distinct(s: Seq<ChatV>, i: int, c: ChatV)
    requires
        distinct_ids(s),
        0 <= i < s.len(),
        c.id == s[i].id,
    ensures
        distinct_ids(s.update(i, c)),
{
    assert(chat_ids(s.update(i, c)) =~= chat_ids(s));
    same_rows_stay_distinct(s, s.update(i, c));
}

proof fn removed_row_stays_distinct(s: Seq<ChatV>, i: int)
    requires
        distinct_ids(s),
        0 <= i < s.len(),
    ensures
        distinct_ids(s.remove(i)),
{
    let b = s.remove(i);
    assert forall|x: int, y: int| 0 <= x < y < b.len() implies (#[trigger] b[x]).id != (
    #[trigger] b[y]).id by {
        let x2 = if x < i { x } else { x + 1 };
        let y2 = if y < i { y } else { y + 1 };
        assert(b[x] == s[x2] && b[y] == s[y2]);
        assert(s[x2].id != s[y2].id);
    }
}

// Messages.

proof fn new_message_is_kept_once(h: Seq<MessageV>, m: MessageV)
    requires
        message_ids(h).no_duplicates(),
        !message_ids(h).contains(m.message_id),
    ensures
        message_ids(h.push(m)).no_duplicates(),
{
    let a = message_ids(h);
    let b = message_ids(h.push(m));
    assert(b =~= a.push(m.message_id));
    assert forall|i: int, j: int|
        0 <= i < b.len() && 0 <= j < b.len() && i != j implies b[i] != b[j] by {
        if i < a.len() && j < a.len() {
            assert(a[i] != a[j]);
        } else if i < a.len() {
            assert(a[i] == b[i]);
            assert(a.contains(a[i]));
        } else {
            assert(a[j] == b[j]);
            assert(a.contains(a[j]));
        }
    }
}

proof fn pushed_ids(h: Seq<MessageV>, m: MessageV, id: Seq<char>)
    ensures
        message_ids(h.push(m)).contains(id) <==> message_ids(h).contains(id) || id == m.message_id,
{
    let a = message_ids(h);
    let b = message_ids(h.push(m));
    assert(b =~= a.push(m.message_id));
    if b.contains(id) {
        let i = choose|i: int| 0 <= i < b.len() && b[i] == id;
        if i < a.len() {
            assert(a[i] == id);
        }
    }
    if a.contains(id) {
        let i = choose|i: int| 0 <= i < a.len() && a[i] == id;
        assert(b[i] == id);
    }
    assert(b[a.len() as int] == m.message_id);
}

proof fn dropped_last_ids(h: Seq<MessageV>)
    requires
        h.len() > 0,
        message_ids(h).no_duplicates(),
    ensures
        message_ids(h.drop_last()).no_duplicates(),
        !message_ids(h.drop_last()).contains(h.last().message_id),
{
    let a = message_ids(h.drop_last());
    let b = message_ids(h);
    assert forall|i: int, j: int|
        0 <= i < a.len() && 0 <= j < a.len() && i != j implies a[i] != a[j] by {
        assert(a[i] == b[i] && a[j] == b[j]);
    }
    if a.contains(h.last().message_id) {
        let i = choose|i: int| 0 <= i < a.len() && a[i] == h.last().message_id;
        assert(b[i] == a[i]);
        assert(b[b.len() - 1] == h.last().message_id);
    }
}

proof fn left_messages_are_kept_once(h: Seq<MessageV>, gone: Seq<char>)
    requires
        message_ids(h).no_duplicates(),
    ensures
        message_ids(without_message(h, gone)).no_duplicates(),
        forall|id: Seq<char>|
            message_ids(without_message(h, gone)).contains(id) ==> #[trigger] message_ids(
                h,
            ).contains(id),
    decreases h.len(),
{
    if h.len() > 0 {
        dropped_last_ids(h);
        left_messages_are_kept_once(h.drop_last(), gone);
        let rest = without_message(h.drop_last(), gone);
        assert(h.drop_last().push(h.last()) =~= h);
        if h.last().message_id != gone {
            new_message_is_kept_once(rest, h.last());
        }
        assert forall|id: Seq<char>|
            message_ids(without_message(h, gone)).contains(id) implies #[trigger] message_ids(
            h,
        ).contains(id) by {
            pushed_ids(h.drop_last(), h.last(), id);
            pushed_ids(rest, h.last(), id);
            if message_ids(rest).contains(id) {
                assert(message_ids(h.drop_last()).contains(id));
            }
        }
    }
}

proof fn joined_messages_are_kept_once(a: Seq<MessageV>, b: Seq<MessageV>)
    requires
        message_ids(a).no_duplicates(),
    ensures
        message_ids(joined_messages(a, b)).no_duplicates(),
    decreases b.len(),
{
    if b.len() > 0 {
        joined_messages_are_kept_once(a, b.drop_last());
        let rest = joined_messages(a, b.drop_last());
        if !message_ids(rest).contains(b.last().message_id) {
            new_message_is_kept_once(rest, b.last());
        }
    }
}

proof fn placed_message_is_kept_once(s: Seq<MessageV>, x: MessageV)
    requires
        message_ids(s).no_duplicates(),
        !message_ids(s).contains(x.message_id),
    ensures
        message_ids(placed::<Message>(s, x)).no_duplicates(),
        forall|id: Seq<char>| #[trigger]
            message_ids(placed::<Message>(s, x)).contains(id) <==> message_ids(s).contains(id) || id
                == x.message_id,
    decreases s.len(),
{
    let p = placed::<Message>(s, x);
    if s.len() == 0 || Message::rank_of(s.last()) <= Message::rank_of(x) {
        new_message_is_kept_once(s, x);
        assert forall|id: Seq<char>| #[trigger]
            message_ids(p).contains(id) <==> message_ids(s).contains(id) || id == x.message_id by {
            pushed_ids(s, x, id);
        }
    } else {
        let front = s.drop_last();
        dropped_last_ids(s);
        assert(front.push(s.last()) =~= s);
        pushed_ids(front, s.last(), x.message_id);
        placed_message_is_kept_once(front, x);
        let q = placed::<Message>(front, x);
        assert(!message_ids(q).contains(s.last().message_id));
        new_message_is_kept_once(q, s.last());
        assert forall|id: Seq<char>| #[trigger]
            message_ids(p).contains(id) <==> message_ids(s).contains(id) || id == x.message_id by {
            pushed_ids(q, s.last(), id);
            pushed_ids(front, s.last(), id);
            assert(message_ids(q).contains(id) <==> message_ids(front).contains(id) || id
                == x.message_id);
        }
    }
}

proof fn ordered_messages_are_kept_once(s: Seq<MessageV>)
    requires
        message_ids(s).no_duplicates(),
    ensures
        message_ids(ordered::<Message>(s)).no_duplicates(),
        forall|id: Seq<char>| #[trigger]
            message_ids(ordered::<Message>(s)).contains(id) <==> message_ids(s).contains(id),
    decreases s.len(),
{
    if s.len() > 0 {
        let front = s.drop_last();
        dropped_last_ids(s);
        ordered_messages_are_kept_once(front);
        let o = ordered::<Message>(front);
        assert(!message_ids(o).contains(s.last().message_id));
        placed_message_is_kept_once(o, s.last());
        assert(front.push(s.last()) =~= s);
        assert forall|id: Seq<char>| #[trigger]
            message_ids(ordered::<Message>(s)).contains(id) <==> message_ids(s).contains(id) by {
            pushed_ids(front, s.last(), id);
            assert(message_ids(o).contains(id) <==> message_ids(front).contains(id));
        }
    }
}

// One step at a time.

proof fn one_history_changed(st: WaV, st2: WaV, chat: ChatIdV)
    requires
        orderly(st),
        distinct_ids(st2.chats),
        message_ids(history_of(st2, chat)).no_duplicates(),
        forall|other: ChatIdV|
            other != chat ==> #[trigger] history_of(st2, other) == history_of(st, other),
    ensures
        orderly(st2),
{
    assert forall|c: ChatIdV| message_ids(#[trigger] history_of(st2, c)).no_duplicates() by {
        if c != chat {
            assert(history_of(st2, c) == history_of(st, c));
        }
    }
}

proof fn same_messages(st: WaV, st2: WaV)
    requires
        orderly(st),
        distinct_ids(st2.chats),
        st2.history == st.history,
    ensures
        orderly(st2),
{
    assert forall|c: ChatIdV| message_ids(#[trigger] history_of(st2, c)).no_duplicates() by {
        assert(history_of(st2, c) == history_of(st, c));
    }
}

proof fn learning_stays_orderly(
    st: WaV,
    jid: (Seq<char>, Seq<char>, Seq<char>),
    found: Map<Seq<char>, Seq<char>>,
)
    requires
        orderly(st),
    ensures
        orderly(learned(st, jid, found)),
{
    same_messages(st, learned(st, jid, found));
}

proof fn looking_up_stays_orderly(st: WaV, chat: ChatIdV, found: Map<Seq<char>, Seq<char>>)
    requires
        orderly(st),
    ensures
        orderly(canonical_id(st, chat, found).0),
{
    same_messages(st, canonical_id(st, chat, found).0);
}

proof fn listing_a_message_stays_orderly(st: WaV, chat: ChatIdV, m: MessageV)
    requires
        orderly(st),
    ensures
        orderly(listed_message(st, chat, m)),
{
    let st2 = listed_message(st, chat, m);
    first_of_is_least(chat_ids(st.chats), chat);
    match first_of(chat_ids(st.chats), chat) {
        Some(i) => {
            changed_row_stays_distinct(st.chats, i, st2.chats[i]);
        },
        None => {
            new_row_is_distinct(st.chats, st2.chats.last());
            assert(st2.chats =~= st.chats.push(st2.chats.last()));
        },
    }
    same_messages(st, st2);
}

proof fn listing_a_conversation_stays_orderly(st: WaV, c: WaConversation, chat: ChatIdV)
    requires
        orderly(st),
    ensures
        orderly(listed_conversation(st, c, chat)),
{
    let st2 = listed_conversation(st, c, chat);
    first_of_is_least(chat_ids(st.chats), chat);
    if st2.chats != st.chats {
        match first_of(chat_ids(st.chats), chat) {
            Some(i) => {
                changed_row_stays_distinct(st.chats, i, st2.chats[i]);
                assert(st2.chats =~= st.chats.update(i, st2.chats[i]));
            },
            None => {
                new_row_is_distinct(st.chats, st2.chats.last());
                assert(st2.chats =~= st.chats.push(st2.chats.last()));
            },
        }
    }
    same_messages(st, st2);
}

proof fn self_naming_stays_orderly(st: WaV)
    requires
        orderly(st),
    ensures
        orderly(self_named(st)),
{
    assert(chat_ids(self_named(st).chats) =~= chat_ids(st.chats));
    same_rows_stay_distinct(st.chats, self_named(st).chats);
    same_messages(st, self_named(st));
}

/// Taking in a message leaves the account orderly: a message that is delivered
/// again is not kept twice.
pub proof fn message_keeps_the_account_orderly(
    st: WaV,
    inb: WaInbound,
    found: Map<Seq<char>, Seq<char>>,
)
    requires
        orderly(st),
    ensures
        orderly(ingested(st, inb, found).0),
{
    if !inb.broadcast {
        let from_me = inb.info.from_me;
        let chat0 = own_chat(
            st.own_lid,
            st.own_pn,
            ChatIdV::WhatsApp(canonical(inb.chat@)),
            from_me,
        );
        let (st1, chat) = canonical_id(st, chat0, found);
        looking_up_stays_orderly(st, chat0, found);
        let st2 = if from_me { st1 } else { learned(st1, inb.info.sender.parts(), found) };
        learning_stays_orderly(st1, inb.info.sender.parts(), found);
        let m = wa_message(chat, inb.info, inb.content, st2);
        if !(m.text.len() == 0 && m.media is None) {
            let st3 = WaV { stanzas: st2.stanzas.insert(m.message_id, (chat, m.message_id)), ..st2 };
            same_messages(st2, st3);
            if !message_ids(history_of(st3, chat)).contains(m.message_id) {
                adding_a_message_stays_orderly(st3, chat, m);
                listing_a_message_stays_orderly(with_message(st3, chat, m), chat, m);
            } else {
                listing_a_message_stays_orderly(st3, chat, m);
            }
        }
    }
}

proof fn adding_a_message_stays_orderly(st: WaV, chat: ChatIdV, m: MessageV)
    requires
        orderly(st),
        !message_ids(history_of(st, chat)).contains(m.message_id),
    ensures
        orderly(with_message(st, chat, m)),
{
    let st2 = with_message(st, chat, m);
    new_message_is_kept_once(history_of(st, chat), m);
    one_history_changed(st, st2, chat);
}

/// Taking in a batch of messages leaves the account orderly.
pub proof fn messages_keep_the_account_orderly(
    st: WaV,
    batch: Seq<WaInbound>,
    found: Map<Seq<char>, Seq<char>>,
)
    requires
        orderly(st),
    ensures
        orderly(ingested_all(st, batch, found).0),
    decreases batch.len(),
{
    if batch.len() > 0 {
        messages_keep_the_account_orderly(st, batch.drop_last(), found);
        message_keeps_the_account_orderly(
            ingested_all(st, batch.drop_last(), found).0,
            batch.last(),
            found,
        );
    }
}

/// Taking in a report of the server leaves the account orderly.
pub proof fn report_keeps_the_account_orderly(st: WaV, e: WaEvent, now: int)
    requires
        orderly(st),
    ensures
        orderly(event_step(st, e, now).0),
{
    let st2 = event_step(st, e, now).0;
    match e {
        WaEvent::DeleteChat { jid } => {
            let chat = chat_at(jid@);
            first_of_is_least(chat_ids(st.chats), chat);
            if let Some(i) = first_of(chat_ids(st.chats), chat) {
                removed_row_stays_distinct(st.chats, i);
            }
            one_history_changed(st, st2, chat);
        },
        WaEvent::ClearChat { jid } => {
            let chat = chat_at(jid@);
            if message_ids(history_of(st, chat)).len() > 0 {
                assert(history_of(st2, chat) =~= Seq::<MessageV>::empty());
                one_history_changed(st, st2, chat);
            }
        },
        WaEvent::DeleteMessageForMe { chat_jid, message_id } => {
            let chat = chat_at(chat_jid@);
            let kept = without_message(history_of(st, chat), message_id@);
            left_messages_are_kept_once(history_of(st, chat), message_id@);
            if kept.len() != history_of(st, chat).len() {
                assert(history_of(st2, chat) == kept);
                one_history_changed(st, st2, chat);
            }
        },
        WaEvent::Mute { jid, .. } => {
            first_of_is_least(chat_ids(st.chats), chat_at(jid@));
            assert(chat_ids(st2.chats) =~= chat_ids(st.chats));
            same_rows_stay_orderly(st, st2);
        },
        WaEvent::Pin { jid, .. } => {
            first_of_is_least(chat_ids(st.chats), chat_at(jid@));
            assert(chat_ids(st2.chats) =~= chat_ids(st.chats));
            same_rows_stay_orderly(st, st2);
        },
        WaEvent::Archive { jid, .. } => {
            first_of_is_least(chat_ids(st.chats), chat_at(jid@));
            assert(chat_ids(st2.chats) =~= chat_ids(st.chats));
            same_rows_stay_orderly(st, st2);
        },
        WaEvent::MarkChatAsRead { jid } => {
            first_of_is_least(chat_ids(st.chats), chat_at(jid@));
            assert(chat_ids(st2.chats) =~= chat_ids(st.chats));
            same_rows_stay_orderly(st, st2);
        },
        WaEvent::Presence { from, .. } => {
            let chat = folded_key(bare(from.parts().0, from.parts().1), st);
            first_of_is_least(chat_ids(st.chats), chat);
            assert(chat_ids(st2.chats) =~= chat_ids(st.chats));
            same_rows_stay_orderly(st, st2);
        },
        _ => {},
    }
}

proof fn same_rows_stay_orderly(st: WaV, st2: WaV)
    requires
        orderly(st),
        st2.history == st.history,
        chat_ids(st2.chats) == chat_ids(st.chats),
    ensures
        orderly(st2),
{
    same_rows_stay_distinct(st.chats, st2.chats);
    same_messages(st, st2);
}

proof fn author_stays_orderly(
    st: WaV,
    conv_id: Seq<char>,
    w: Option<WaWebMessage>,
    found: Map<Seq<char>, Seq<char>>,
)
    requires
        orderly(st),
    ensures
        orderly(author_learned(st, conv_id, w, found)),
{
    same_messages(st, author_learned(st, conv_id, w, found));
}

proof fn authors_stay_orderly(
    st: WaV,
    conv_id: Seq<char>,
    msgs: Seq<Option<WaWebMessage>>,
    found: Map<Seq<char>, Seq<char>>,
)
    requires
        orderly(st),
    ensures
        orderly(authors_learned(st, conv_id, msgs, found)),
    decreases msgs.len(),
{
    if msgs.len() > 0 {
        authors_stay_orderly(st, conv_id, msgs.drop_last(), found);
        author_stays_orderly(
            authors_learned(st, conv_id, msgs.drop_last(), found),
            conv_id,
            msgs.last(),
            found,
        );
    }
}

proof fn all_authors_stay_orderly(
    st: WaV,
    convs: Seq<WaConversation>,
    found: Map<Seq<char>, Seq<char>>,
)
    requires
        orderly(st),
    ensures
        orderly(all_authors_learned(st, convs, found)),
    decreases convs.len(),
{
    if convs.len() > 0 {
        all_authors_stay_orderly(st, convs.drop_last(), found);
        authors_stay_orderly(
            all_authors_learned(st, convs.drop_last(), found),
            convs.last().id@,
            convs.last().messages@,
            found,
        );
    }
}

proof fn all_lookups_stay_orderly(
    st: WaV,
    convs: Seq<WaConversation>,
    found: Map<Seq<char>, Seq<char>>,
)
    requires
        orderly(st),
    ensures
        orderly(canonical_ids(st, convs, found).0),
    decreases convs.len(),
{
    if convs.len() > 0 {
        all_lookups_stay_orderly(st, convs.drop_last(), found);
        looking_up_stays_orderly(
            canonical_ids(st, convs.drop_last(), found).0,
            ChatIdV::WhatsApp(canonical(convs.last().id@)),
            found,
        );
    }
}

proof fn added_messages_touch_no_row(st: WaV, chat: ChatIdV, msgs: Seq<MessageV>)
    ensures
        with_messages(st, chat, msgs).chats == st.chats,
    decreases msgs.len(),
{
    if msgs.len() > 0 {
        added_messages_touch_no_row(st, chat, msgs.drop_last());
    }
}

proof fn conversation_stays_orderly(st: WaV, c: WaConversation, chat: ChatIdV, now: i64)
    requires
        orderly(st),
    ensures
        orderly(synced_conversation(st, c, chat, now)),
{
    let st1 = listed_conversation(st, c, chat);
    listing_a_conversation_stays_orderly(st, c, chat);
    let fresh = ordered::<Message>(new_messages(st1, c.id@, chat, c.messages@, now).1);
    let st2 = with_messages(st1, chat, fresh);
    added_messages_keep_history(st1, chat, fresh);
    added_messages_touch_no_row(st1, chat, fresh);
    one_history_changed(st1, st2, chat);
    same_messages(st2, previewed(st2, chat));
}

proof fn conversations_stay_orderly(
    st: WaV,
    convs: Seq<WaConversation>,
    chats: Seq<ChatIdV>,
    now: i64,
)
    requires
        orderly(st),
    ensures
        orderly(synced_conversations(st, convs, chats, now)),
    decreases convs.len(),
{
    if convs.len() > 0 && chats.len() > 0 {
        conversations_stay_orderly(st, convs.drop_last(), chats.drop_last(), now);
        conversation_stays_orderly(
            synced_conversations(st, convs.drop_last(), chats.drop_last(), now),
            convs.last(),
            chats.last(),
            now,
        );
    }
}

/// Taking in a history sync leaves the account orderly, before and after the
/// rows of one peer are folded.
pub proof fn history_sync_keeps_the_account_orderly(
    st: WaV,
    hs: WaHistorySync,
    found: Map<Seq<char>, Seq<char>>,
    own: Option<(Option<Seq<char>>, Option<Seq<char>>)>,
    now: i64,
)
    requires
        orderly(st),
    ensures
        orderly(history_synced(st, hs, found, own, now)),
        ({
            let st1 = history_synced(st, hs, found, own, now);
            orderly(lids_folded(st1, lids_of(st1.chats), found).0)
        }),
{
    let (st1, ids) = canonical_ids(st, hs.conversations@, found);
    all_lookups_stay_orderly(st, hs.conversations@, found);
    let st2 = all_authors_learned(st1, hs.conversations@, found);
    all_authors_stay_orderly(st1, hs.conversations@, found);
    let st3 = match own {
        Some((lid, pn)) => with_identity(st2, lid, pn),
        None => st2,
    };
    match own {
        Some((lid, pn)) => {
            identity_keeps_the_account_orderly(st2, lid, pn);
        },
        None => {},
    }
    let st4 = WaV {
        sync_seen_at: match st3.sync_seen_at {
            Some(t) => Some(t),
            None => Some(now),
        },
        pushnames: with_pushnames(st3.pushnames, hs.pushnames@),
        ..st3
    };
    same_messages(st3, st4);
    conversations_stay_orderly(st4, hs.conversations@, ids, now);
    let done = history_synced(st, hs, found, own, now);
    folding_keeps_the_account_orderly(done, lids_of(done.chats), found);
}

/// Learning who the account is leaves it orderly.
pub proof fn identity_keeps_the_account_orderly(
    st: WaV,
    lid: Option<Seq<char>>,
    pn: Option<Seq<char>>,
)
    requires
        orderly(st),
    ensures
        orderly(with_identity(st, lid, pn)),
{
    let named = WaV { own_lid: lid, own_pn: pn, ..st };
    same_messages(st, named);
    self_naming_stays_orderly(named);
}

proof fn fold_stays_orderly(st: WaV, base: Seq<char>, found: Map<Seq<char>, Seq<char>>)
    requires
        orderly(st),
    ensures
        orderly(lid_folded(st, base, found).0),
{
    let (st2, gone) = lid_folded(st, base, found);
    if gone is None {
        same_messages(st, st2);
    } else {
        let jid = jid_of(base + "@lid"@).unwrap();
        let lid_chat = ChatIdV::WhatsApp(bare(jid.0, jid.1));
        let pn_chat = ChatIdV::WhatsApp(pn_address(found[base]));
        first_of_is_least(chat_ids(st.chats), lid_chat);
        let i = first_of(chat_ids(st.chats), lid_chat).unwrap();
        let rest = st.chats.remove(i);
        removed_row_stays_distinct(st.chats, i);
        first_of_is_least(chat_ids(rest), pn_chat);
        if let Some(k) = first_of(chat_ids(rest), pn_chat) {
            changed_row_stays_distinct(rest, k, absorbed(rest[k], st.chats[i]));
        }
        if st.history.dom().contains(lid_chat) {
            let left = st.history.remove(lid_chat);
            let own = if left.dom().contains(pn_chat) {
                left[pn_chat]
            } else {
                Seq::empty()
            };
            if left.dom().contains(pn_chat) {
                assert(own == history_of(st, pn_chat));
            }
            joined_messages_are_kept_once(own, st.history[lid_chat]);
            ordered_messages_are_kept_once(joined_messages(own, st.history[lid_chat]));
            assert forall|c: ChatIdV| message_ids(
                #[trigger] history_of(st2, c),
            ).no_duplicates() by {
                if c != pn_chat && c != lid_chat {
                    assert(history_of(st2, c) == history_of(st, c));
                } else if c != pn_chat {
                    assert(history_of(st2, c) =~= Seq::<MessageV>::empty());
                }
            }
        } else {
            same_messages(st, st2);
        }
    }
}

/// Folding the rows of one peer leaves the account orderly: messages that both
/// rows hold are kept once.
pub proof fn folding_keeps_the_account_orderly(
    st: WaV,
    bases: Seq<Seq<char>>,
    found: Map<Seq<char>, Seq<char>>,
)
    requires
        orderly(st),
    ensures
        orderly(lids_folded(st, bases, found).0),
    decreases bases.len(),
{
    if bases.len() > 0 {
        folding_keeps_the_account_orderly(st, bases.drop_last(), found);
        fold_stays_orderly(lids_folded(st, bases.drop_last(), found).0, bases.last(), found);
    }
}

proof fn naming_stays_distinct(chats: Seq<ChatV>, key: Seq<char>, name: Seq<char>, business: bool)
    requires
        distinct_ids(chats),
    ensures
        distinct_ids(named_chat(chats, key, name, business)),
{
    first_of_is_least(chat_ids(chats), ChatIdV::WhatsApp(key));
    if let Some(i) = first_of(chat_ids(chats), ChatIdV::WhatsApp(key)) {
        changed_row_stays_distinct(
            chats,
            i,
            ChatV { contact_name: name, verified: business, ..chats[i] },
        );
    }
}

/// Taking in the answers of the directory leaves the account orderly.
pub proof fn names_keep_the_account_orderly(
    st: WaV,
    rs: Seq<UsyncResult>,
    found: Map<Seq<char>, Seq<char>>,
    pushnames: Map<Seq<char>, Seq<char>>,
)
    requires
        orderly(st),
    ensures
        orderly(with_directory_names(st, rs, found, pushnames)),
    decreases rs.len(),
{
    if rs.len() > 0 {
        let st1 = with_directory_names(st, rs.drop_last(), found, pushnames);
        names_keep_the_account_orderly(st, rs.drop_last(), found, pushnames);
        let r = rs.last();
        let st2 = with_directory_name(st1, r, found, pushnames);
        let asked = bare(r.jid.user@, r.jid.server@);
        let business = r.is_business && r.verified_name is Some;
        match crate::backend::whatsapp_model::directory_name(r, found, pushnames) {
            None => {},
            Some(name) => {
                naming_stays_distinct(st1.chats, asked, name, business);
                if let Some(pn) = r.pn_jid {
                    naming_stays_distinct(
                        named_chat(st1.chats, asked, name, business),
                        bare(pn.user@, pn.server@),
                        name,
                        business,
                    );
                }
            },
        }
        same_messages(st1, st2);
    }
}

/// Sending a message and reading a chat leave the account orderly, and an
/// account of which nothing is known is orderly.
pub proof fn own_actions_keep_the_account_orderly(
    st: WaV,
    chat: ChatIdV,
    m: MessageV,
    a: ChatIdV,
    b: ChatIdV,
)
    requires
        orderly(st),
    ensures
        orderly(with_sent(st, chat, m)),
        orderly(WaV { chats: read_rows(st.chats, a, b), ..st }),
        orderly(empty_account()),
{
    assert(chat_ids(read_rows(st.chats, a, b)) =~= chat_ids(st.chats));
    same_rows_stay_distinct(st.chats, read_rows(st.chats, a, b));
    same_messages(st, WaV { chats: read_rows(st.chats, a, b), ..st });
    assert(chat_ids(read_rows(st.chats, chat, chat)) =~= chat_ids(st.chats));
    same_rows_stay_distinct(st.chats, read_rows(st.chats, chat, chat));
    let st1 = WaV { stanzas: st.stanzas.insert(m.message_id, (chat, m.message_id)), ..st };
    same_messages(st, st1);
    if message_ids(history_of(st1, chat)).contains(m.message_id) {
        same_messages(st1, with_sent(st, chat, m));
    } else {
        adding_a_message_stays_orderly(st1, chat, m);
        same_messages(with_message(st1, chat, m), with_sent(st, chat, m));
    }
    assert forall|c: ChatIdV| message_ids(
        #[trigger] history_of(empty_account(), c),
    ).no_duplicates() by {
        assert(history_of(empty_account(), c) =~= Seq::<MessageV>::empty());
    }
}


// What is delivered again, folded, and asked.

proof fn lookup_is_settled(st: WaV, st2: WaV, raw: Seq<char>, found: Map<Seq<char>, Seq<char>>)
    requires
        ({
            let (st1, chat) = canonical_id(st, ChatIdV::WhatsApp(raw), found);
            &&& forall|b: Seq<char>| #[trigger]
                st1.lid_pn.dom().contains(b) ==> st2.lid_pn.dom().contains(b) && st2.lid_pn[b]
                    == st1.lid_pn[b]
            &&& forall|b: Seq<char>| #[trigger]
                st2.lid_pn.dom().contains(b) && !st1.lid_pn.dom().contains(b)
                    ==> found.dom().contains(b)
            &&& forall|id: ChatIdV| #[trigger]
                chat_ids(st2.chats).contains(id) <==> chat_ids(st.chats).contains(id) || id == chat
        }),
    ensures
        canonical_id(st2, ChatIdV::WhatsApp(raw), found) == (
            st2,
            canonical_id(st, ChatIdV::WhatsApp(raw), found).1,
        ),
{
    let (st1, chat) = canonical_id(st, ChatIdV::WhatsApp(raw), found);
    if let Some(jid) = jid_of(raw) {
        let base = user_base_of(jid.0);
        if is_lid(jid) {
            let l = learned(st, jid, found);
            if l.lid_pn.dom().contains(base) {
                assert(st1 == l);
                assert(st1.lid_pn.dom().contains(base));
                assert(st2.lid_pn.dom().contains(base));
                let pn = ChatIdV::WhatsApp(pn_address(st1.lid_pn[base]));
                assert(chat_ids(st2.chats).contains(pn) <==> chat_ids(st.chats).contains(pn) || pn
                    == chat);
            } else {
                assert(!st2.lid_pn.dom().contains(base));
            }
        }
    }
}

/// A message that is delivered again is not kept again: the messages of every
/// chat stay as the first delivery left them.
pub proof fn redelivered_message_changes_no_history(
    st: WaV,
    inb: WaInbound,
    found: Map<Seq<char>, Seq<char>>,
)
    ensures
        ({
            let st1 = ingested(st, inb, found).0;
            ingested(st1, inb, found).0.history == st1.history
        }),
{
    if !inb.broadcast {
        let from_me = inb.info.from_me;
        let chat0 = own_chat(
            st.own_lid,
            st.own_pn,
            ChatIdV::WhatsApp(canonical(inb.chat@)),
            from_me,
        );
        let (st1, chat) = canonical_id(st, chat0, found);
        let sender = inb.info.sender.parts();
        let st2 = if from_me { st1 } else { learned(st1, sender, found) };
        let m = wa_message(chat, inb.info, inb.content, st2);
        let after = ingested(st, inb, found).0;
        if !(m.text.len() == 0 && m.media is None) {
            let st3 = WaV { stanzas: st2.stanzas.insert(m.message_id, (chat, m.message_id)), ..st2 };
            let known = message_ids(history_of(st3, chat)).contains(m.message_id);
            let st4 = if known { st3 } else { with_message(st3, chat, m) };
            if !known {
                pushed_ids(history_of(st3, chat), m, m.message_id);
                assert(history_of(st4, chat) == history_of(st3, chat).push(m));
            }
            assert(after == listed_message(st4, chat, m));
            assert(message_ids(history_of(after, chat)).contains(m.message_id)) by {
                assert(history_of(after, chat) == history_of(st4, chat));
            }
            rows_after_a_message(st4, chat, m);
            match chat0 {
                ChatIdV::WhatsApp(raw) => {
                    lookup_is_settled(st, after, raw, found);
                },
                _ => {},
            }
            let again = wa_message(
                chat,
                inb.info,
                inb.content,
                if from_me { after } else { learned(after, sender, found) },
            );
            assert(again.message_id == m.message_id);
        }
    }
}

proof fn rows_after_a_message(st: WaV, chat: ChatIdV, m: MessageV)
    ensures
        forall|id: ChatIdV| #[trigger]
            chat_ids(listed_message(st, chat, m).chats).contains(id) <==> chat_ids(
                st.chats,
            ).contains(id) || id == chat,
{
    let a = chat_ids(st.chats);
    let b = chat_ids(listed_message(st, chat, m).chats);
    first_of_is_least(a, chat);
    match first_of(a, chat) {
        Some(i) => {
            assert(a =~= b);
            assert(a.contains(chat)) by {
                assert(a[i] == chat);
            }
        },
        None => {
            assert(b =~= a.push(chat));
            assert forall|id: ChatIdV| #[trigger]
                b.contains(id) <==> a.contains(id) || id == chat by {
                if b.contains(id) {
                    let k = choose|k: int| 0 <= k < b.len() && b[k] == id;
                    if k < a.len() {
                        assert(a[k] == id);
                    }
                }
                if a.contains(id) {
                    let k = choose|k: int| 0 <= k < a.len() && a[k] == id;
                    assert(b[k] == id);
                }
                assert(b[a.len() as int] == chat);
            }
        },
    }
}

/// The row of an opaque identity.
pub open spec fn lid_row(base: Seq<char>) -> ChatIdV {
    let jid = jid_of(base + "@lid"@).unwrap();
    ChatIdV::WhatsApp(bare(jid.0, jid.1))
}

/// The row of the phone number behind an opaque identity.
pub open spec fn pn_row(base: Seq<char>, found: Map<Seq<char>, Seq<char>>) -> ChatIdV {
    ChatIdV::WhatsApp(pn_address(found[base]))
}

/// Whether an opaque identity has a row of its own to fold: its address can be
/// read, its phone number is known, and the two have different rows.
pub open spec fn can_fold(base: Seq<char>, found: Map<Seq<char>, Seq<char>>) -> bool {
    jid_of(base + "@lid"@) is Some && found.dom().contains(base) && lid_row(base) != pn_row(
        base,
        found,
    )
}

proof fn fold_only_removes(
    st: WaV,
    base: Seq<char>,
    found: Map<Seq<char>, Seq<char>>,
    id: ChatIdV,
)
    requires
        distinct_ids(st.chats),
    ensures
        distinct_ids(lid_folded(st, base, found).0.chats),
        chat_ids(lid_folded(st, base, found).0.chats).contains(id) ==> chat_ids(st.chats).contains(
            id,
        ),
        can_fold(base, found) && chat_ids(lid_folded(st, base, found).0.chats).contains(
            lid_row(base),
        ) ==> !chat_ids(lid_folded(st, base, found).0.chats).contains(pn_row(base, found)),
        chat_ids(st.chats).contains(id) && !(jid_of(base + "@lid"@) is Some && id == lid_row(base))
            ==> chat_ids(lid_folded(st, base, found).0.chats).contains(id),
{
    let (st2, gone) = lid_folded(st, base, found);
    if gone is Some {
        let lid_chat = lid_row(base);
        let pn_chat = pn_row(base, found);
        let e = chat_ids(st.chats);
        first_of_is_least(e, lid_chat);
        let i = first_of(e, lid_chat).unwrap();
        let rest = st.chats.remove(i);
        removed_row_stays_distinct(st.chats, i);
        first_of_is_least(chat_ids(rest), pn_chat);
        let f = chat_ids(st2.chats);
        assert(f =~= e.remove(i)) by {
            assert(chat_ids(rest) =~= e.remove(i));
            assert(f =~= chat_ids(rest));
        }
        same_rows_stay_distinct(rest, st2.chats);
        if f.contains(id) {
            let a = choose|a: int| 0 <= a < f.len() && f[a] == id;
            let a2 = if a < i { a } else { a + 1 };
            assert(e[a2] == id);
        }
        if f.contains(lid_chat) {
            let a = choose|a: int| 0 <= a < f.len() && f[a] == lid_chat;
            let a2 = if a < i { a } else { a + 1 };
            assert(e[a2] == st.chats[a2].id && e[i] == st.chats[i].id);
            if a2 < i {
                assert(st.chats[a2].id != st.chats[i].id);
            } else {
                assert(st.chats[i].id != st.chats[a2].id);
            }
        }
        if e.contains(id) && id != lid_chat {
            let a2 = choose|a2: int| 0 <= a2 < e.len() && e[a2] == id;
            let a = if a2 < i { a2 } else { a2 - 1 };
            assert(f[a] == e[a2]);
        }
    } else if can_fold(base, found) && chat_ids(st2.chats).contains(lid_row(base)) {
        let e = chat_ids(st.chats);
        first_of_is_least(e, lid_row(base));
        let k = choose|k: int| 0 <= k < e.len() && e[k] == lid_row(base);
        assert(e[k] == lid_row(base));
    }
}

proof fn folds_only_remove(
    st: WaV,
    bases: Seq<Seq<char>>,
    found: Map<Seq<char>, Seq<char>>,
    id: ChatIdV,
)
    requires
        distinct_ids(st.chats),
    ensures
        distinct_ids(lids_folded(st, bases, found).0.chats),
        chat_ids(lids_folded(st, bases, found).0.chats).contains(id) ==> chat_ids(
            st.chats,
        ).contains(id),
        chat_ids(st.chats).contains(id) && (forall|k: int|
            0 <= k < bases.len() ==> !(jid_of((#[trigger] bases[k]) + "@lid"@) is Some && id
                == lid_row(bases[k]))) ==> chat_ids(
            lids_folded(st, bases, found).0.chats,
        ).contains(id),
    decreases bases.len(),
{
    if bases.len() > 0 {
        let front = bases.drop_last();
        folds_only_remove(st, front, found, id);
        fold_only_removes(lids_folded(st, front, found).0, bases.last(), found, id);
        if chat_ids(st.chats).contains(id) && (forall|k: int|
            0 <= k < bases.len() ==> !(jid_of((#[trigger] bases[k]) + "@lid"@) is Some && id
                == lid_row(bases[k]))) {
            assert forall|k: int| 0 <= k < front.len() implies !(jid_of(
                (#[trigger] front[k]) + "@lid"@,
            ) is Some && id == lid_row(front[k])) by {
                assert(front[k] == bases[k]);
            }
            assert(bases[bases.len() - 1] == bases.last());
        }
    }
}

proof fn folded_base_has_one_row(
    st: WaV,
    bases: Seq<Seq<char>>,
    found: Map<Seq<char>, Seq<char>>,
    base: Seq<char>,
)
    requires
        distinct_ids(st.chats),
        bases.contains(base),
        can_fold(base, found),
    ensures
        !(chat_ids(lids_folded(st, bases, found).0.chats).contains(lid_row(base)) && chat_ids(
            lids_folded(st, bases, found).0.chats,
        ).contains(pn_row(base, found))),
    decreases bases.len(),
{
    let front = bases.drop_last();
    let st1 = lids_folded(st, front, found).0;
    let k = choose|k: int| 0 <= k < bases.len() && bases[k] == base;
    folds_only_remove(st, front, found, lid_row(base));
    if k == bases.len() - 1 {
        fold_only_removes(st1, base, found, lid_row(base));
    } else {
        assert(front[k] == base);
        folded_base_has_one_row(st, front, found, base);
        fold_only_removes(st1, bases.last(), found, lid_row(base));
        fold_only_removes(st1, bases.last(), found, pn_row(base, found));
    }
}

/// Once the rows of one peer are folded, no opaque identity whose phone number
/// is known has a row beside that of the number; no row is there twice, none is
/// new, and a row that is not that of a listed opaque identity stays.
pub proof fn folding_leaves_one_row_per_peer(
    st: WaV,
    found: Map<Seq<char>, Seq<char>>,
    base: Seq<char>,
    id: ChatIdV,
)
    requires
        distinct_ids(st.chats),
    ensures
        ({
            let rows = lids_folded(st, lids_of(st.chats), found).0.chats;
            &&& distinct_ids(rows)
            &&& lids_of(st.chats).contains(base) && can_fold(base, found) ==> !(chat_ids(
                rows,
            ).contains(lid_row(base)) && chat_ids(rows).contains(pn_row(base, found)))
            &&& chat_ids(rows).contains(id) ==> chat_ids(st.chats).contains(id)
            &&& chat_ids(st.chats).contains(id) && (forall|k: int|
                0 <= k < lids_of(st.chats).len() ==> !(jid_of(
                    (#[trigger] lids_of(st.chats)[k]) + "@lid"@,
                ) is Some && id == lid_row(lids_of(st.chats)[k]))) ==> chat_ids(rows).contains(id)
        }),
{
    folds_only_remove(st, lids_of(st.chats), found, id);
    if lids_of(st.chats).contains(base) && can_fold(base, found) {
        folded_base_has_one_row(st, lids_of(st.chats), found, base);
    }
}

proof fn asked_peers_are_marked(
    st: WaV,
    rs: Seq<UsyncResult>,
    found: Map<Seq<char>, Seq<char>>,
    pushnames: Map<Seq<char>, Seq<char>>,
    key: Seq<char>,
)
    ensures
        st.usync_attempted.dom().contains(key) ==> with_directory_names(
            st,
            rs,
            found,
            pushnames,
        ).usync_attempted.dom().contains(key),
        forall|i: int|
            0 <= i < rs.len() ==> with_directory_names(
                st,
                rs,
                found,
                pushnames,
            ).usync_attempted.dom().contains(
                bare((#[trigger] rs[i]).jid.user@, rs[i].jid.server@),
            ),
    decreases rs.len(),
{
    if rs.len() > 0 {
        let front = rs.drop_last();
        asked_peers_are_marked(st, front, found, pushnames, key);
        assert forall|i: int| 0 <= i < rs.len() implies with_directory_names(
            st,
            rs,
            found,
            pushnames,
        ).usync_attempted.dom().contains(
            bare((#[trigger] rs[i]).jid.user@, rs[i].jid.server@),
        ) by {
            if i < front.len() {
                assert(front[i] == rs[i]);
            }
        }
    }
}

/// Whether a row is one that the directory may be asked about.
pub open spec fn may_be_asked(st: WaV, c: ChatV, jid: (Seq<char>, Seq<char>, Seq<char>)) -> bool {
    match c.id {
        ChatIdV::WhatsApp(raw) => jid_of(raw) == Some(jid) && !st.usync_names.dom().contains(raw)
            && !st.usync_attempted.dom().contains(raw),
        _ => false,
    }
}

proof fn candidates_may_be_asked(
    st: WaV,
    chats: Seq<ChatV>,
    own: Seq<Seq<char>>,
    jid: (Seq<char>, Seq<char>, Seq<char>),
)
    requires
        name_candidates(st, chats, own).1.contains(jid),
    ensures
        exists|i: int| 0 <= i < chats.len() && may_be_asked(st, #[trigger] chats[i], jid),
    decreases chats.len(),
{
    let out = name_candidates(st, chats, own).1;
    let k = choose|k: int| 0 <= k < out.len() && out[k] == jid;
    if chats.len() > 0 {
        let front = chats.drop_last();
        let rest = name_candidates(st, front, own).1;
        if k < rest.len() {
            assert(rest[k] == jid);
            candidates_may_be_asked(st, front, own, jid);
            let i = choose|i: int| 0 <= i < front.len() && may_be_asked(st, #[trigger] front[i], jid);
            assert(may_be_asked(st, chats[i], jid));
        } else {
            assert(may_be_asked(st, chats[chats.len() - 1], jid));
        }
    }
}

/// A peer that the directory was asked about is not asked about again, whether
/// or not it had a name for it: every peer that is to be asked about has a row
/// whose address none of the answers was about.
pub proof fn answered_peers_are_not_asked_again(
    st: WaV,
    rs: Seq<UsyncResult>,
    found: Map<Seq<char>, Seq<char>>,
    own: Seq<Seq<char>>,
    jid: (Seq<char>, Seq<char>, Seq<char>),
)
    requires
        ({
            let st2 = with_directory_names(st, rs, found, st.pushnames);
            name_candidates(st2, st2.chats, own).1.contains(jid)
        }),
    ensures
        ({
            let st2 = with_directory_names(st, rs, found, st.pushnames);
            exists|i: int|
                0 <= i < st2.chats.len() && may_be_asked(st2, #[trigger] st2.chats[i], jid)
                    && forall|k: int|
                    0 <= k < rs.len() ==> st2.chats[i].id != ChatIdV::WhatsApp(
                        bare((#[trigger] rs[k]).jid.user@, rs[k].jid.server@),
                    )
        }),
{
    let st2 = with_directory_names(st, rs, found, st.pushnames);
    candidates_may_be_asked(st2, st2.chats, own, jid);
    let i = choose|i: int|
        0 <= i < st2.chats.len() && may_be_asked(st2, #[trigger] st2.chats[i], jid);
    asked_peers_are_marked(st, rs, found, st.pushnames, Seq::empty());
    assert forall|k: int| 0 <= k < rs.len() implies st2.chats[i].id != ChatIdV::WhatsApp(
        bare((#[trigger] rs[k]).jid.user@, rs[k].jid.server@),
    ) by {
        assert(st2.usync_attempted.dom().contains(bare(rs[k].jid.user@, rs[k].jid.server@)));
    }
    assert(may_be_asked(st2, st2.chats[i], jid));
}

}
