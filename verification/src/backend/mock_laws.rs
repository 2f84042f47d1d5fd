//! Laws of the provider without a network.
use vstd::prelude::*;

use crate::backend::mock::{
    first_row, long_messages, messages_of, mock_chat, mock_message, telegram_mock, whatsapp_mock,
    with_mock_message, MockV,
};
use crate::backend::{ChatIdV, ChatV, MessageAction, MessageV};
use crate::text::decimal;
use crate::tui::chat_model::{chat_ids, first_of_is_least};

verus! {

/// A message is kept at the end of its chat, and no other chat changes.
pub proof fn kept_messages_go_to_the_end_of_their_chat(d: MockV, m: MessageV, other: ChatIdV)
    ensures
        messages_of(with_mock_message(d, m), m.chat) == messages_of(d, m.chat).push(m),
        other != m.chat ==> messages_of(with_mock_message(d, m), other) == messages_of(d, other),
        with_mock_message(d, m).chats == d.chats,
        with_mock_message(d, m).previews == d.previews,
        with_mock_message(d, m).echo_chat == d.echo_chat,
{
}

/// The row of a chat is the first one under its id.
pub proof fn rows_are_found_by_id(chats: Seq<ChatV>, id: ChatIdV)
    ensures
        first_row(chats, id) is Some ==> chats.contains(first_row(chats, id).unwrap()) && first_row(
            chats,
            id,
        ).unwrap().id == id,
        first_row(chats, id) is None <==> forall|k: int|
            0 <= k < chats.len() ==> (#[trigger] chats[k]).id != id,
{
    let ids = chat_ids(chats);
    first_of_is_least(ids, id);
    match crate::tui::chat_model::first_of(ids, id) {
        Some(i) => {
            assert(chats[i].id == id);
            assert(chats.contains(chats[i]));
        },
        None => {
            assert forall|k: int| 0 <= k < chats.len() implies (#[trigger] chats[k]).id != id by {
                assert(ids[k] != id);
            }
        },
    }
}

/// A row is unread exactly where it counts unread messages, and is neither pinned
/// nor verified; a message is its sender's, plain text, and the user can change
/// only the user's own.
pub proof fn rows_and_messages_are_plain(
    id: ChatIdV,
    name: Seq<char>,
    n: i32,
    mid: Seq<char>,
    sender: Seq<char>,
    text: Seq<char>,
    from_me: bool,
    at: i64,
)
    ensures
        ({
            let c = mock_chat(id, name, n);
            let m = mock_message(mid, id, sender, text, from_me, at);
            &&& c.id == id && c.contact_name == name && c.unread_count == n
            &&& c.unread <==> n > 0
            &&& !c.fixed && !c.verified && c.status is None
            &&& m.message_id == mid && m.chat == id && m.sender == sender && m.text == text
            &&& m.from_me == from_me && m.timestamp == at
            &&& m.media is None && m.reply_to_id is None && !m.pending && !m.failed
            &&& m.msg_actions.contains(MessageAction::Edit) <==> from_me
            &&& m.msg_actions.contains(MessageAction::Delete) <==> from_me
            &&& m.msg_actions.contains(MessageAction::Reply)
        }),
{
    let a = mock_message(mid, id, sender, text, from_me, at).msg_actions;
    assert(a[0] == MessageAction::Reply);
    if from_me {
        assert(a[1] == MessageAction::Edit);
        assert(a[2] == MessageAction::Delete);
    }
}

/// The long conversation has thirty messages, numbered in order, of which the
/// user's are signed as such.
pub proof fn long_conversations_are_numbered(chat: ChatIdV, at: i64, i: int)
    requires
        0 <= i < 30,
    ensures
        long_messages(chat, at).len() == 30,
        long_messages(chat, at)[i].message_id == "mock-"@ + decimal(i as nat),
        long_messages(chat, at)[i].chat == chat,
        long_messages(chat, at)[i].from_me ==> long_messages(chat, at)[i].sender == "You"@,
{
}

/// Every row of a provider is one of its own chats, and the chats it answers in
/// and echoes in have a row.
pub proof fn providers_hold_their_own_chats(at: i64, i: int)
    ensures
        0 <= i < telegram_mock(at).chats.len() ==> telegram_mock(at).chats[i].id is Telegram,
        0 <= i < whatsapp_mock(at).chats.len() ==> whatsapp_mock(at).chats[i].id is WhatsApp,
        first_row(telegram_mock(at).chats, telegram_mock(at).echo_chat) is Some,
        first_row(whatsapp_mock(at).chats, whatsapp_mock(at).echo_chat) is Some,
        first_row(telegram_mock(at).chats, telegram_mock(at).incoming_chat) is Some,
        first_row(whatsapp_mock(at).chats, whatsapp_mock(at).incoming_chat) is Some,
{
    let t = telegram_mock(at);
    let w = whatsapp_mock(at);
    rows_are_found_by_id(t.chats, t.echo_chat);
    rows_are_found_by_id(w.chats, w.echo_chat);
    rows_are_found_by_id(t.chats, t.incoming_chat);
    rows_are_found_by_id(w.chats, w.incoming_chat);
    assert(t.chats[0].id is Telegram && t.chats[1].id is Telegram && t.chats[2].id is Telegram
        && t.chats[3].id is Telegram);
    assert(w.chats[0].id is WhatsApp && w.chats[1].id is WhatsApp && w.chats[2].id is WhatsApp);
}

}
