//! A provider without a network, with a few chats to look at.
use vstd::prelude::*;

use crate::backend::whatsapp::{message_actions, History};
use crate::backend::whatsapp_model::wa_actions;
use crate::backend::{
    opt_view, Chat, ChatId, ChatIdV, ChatV, Message, MessageId,
    MessageV,
};
use crate::helpers::now;
use crate::order::seen;
use crate::table::ChatMap;
use crate::text::{decimal, format_u64, joined, joined3, owned, same};
use crate::tui::chat::chat_position;
use crate::tui::chat_model::{chat_ids, first_of};

verus! {

/// A chat of the provider.
pub open spec fn mock_chat(id: ChatIdV, name: Seq<char>, unread_count: i32) -> ChatV {
    ChatV {
        id,
        contact_name: name,
        last_message_ts: None,
        status: None,
        fixed: false,
        scroll: 0,
        unread: unread_count > 0,
        unread_count,
        verified: false,
    }
}

/// A message of the provider.
pub open spec fn mock_message(
    id: Seq<char>,
    chat: ChatIdV,
    sender: Seq<char>,
    text: Seq<char>,
    from_me: bool,
    at: i64,
) -> MessageV {
    MessageV {
        message_id: id,
        chat,
        sender,
        author_id: None,
        text,
        timestamp: at,
        from_me,
        msg_actions: wa_actions(from_me),
        media: None,
        reply_to_id: None,
        reply_ctx: None,
        pending: false,
        failed: false,
    }
}

fn chat(id: ChatId, name: &str, unread_count: i32) -> (r: Chat)
    ensures
        r@ == mock_chat(id@, name@, unread_count),
{
    Chat {
        id,
        contact_name: owned(name),
        last_message_ts: None,
        status: None,
        fixed: false,
        scroll: 0,
        unread: unread_count > 0,
        unread_count,
        verified: false,
    }
}

fn message(id: &str, chat: &ChatId, sender: &str, text: &str, from_me: bool, at: i64) -> (r: Message)
    ensures
        r@ == mock_message(id@, chat@, sender@, text@, from_me, at),
{
    Message {
        message_id: MessageId(owned(id)),
        chat: chat.clone(),
        sender: owned(sender),
        author_id: None,
        text: owned(text),
        timestamp: at,
        from_me,
        msg_actions: message_actions(from_me),
        media: None,
        reply_to_id: None,
        reply_ctx: None,
        pending: false,
        failed: false,
    }
}

/// A line of the long conversation.
pub open spec fn long_line(i: int) -> Seq<char> {
    if i == 0 {
        "hello everyone"@
    } else if i == 1 {
        "any plans for the weekend?"@
    } else if i == 2 {
        "I'm free on saturday"@
    } else if i == 3 {
        "let's do a video call"@
    } else if i == 4 {
        "works for me"@
    } else if i == 5 {
        "did you see the news?"@
    } else if i == 6 {
        "yes, crazy stuff"@
    } else if i == 7 {
        "we should talk about it live"@
    } else if i == 8 {
        "bringing pizza"@
    } else if i == 9 {
        "count me in"@
    } else if i == 10 {
        "what time?"@
    } else if i == 11 {
        "7pm sounds good"@
    } else if i == 12 {
        "can we do 8?"@
    } else if i == 13 {
        "sure"@
    } else if i == 14 {
        "I'll set a reminder"@
    } else if i == 15 {
        "perfect"@
    } else if i == 16 {
        "also, remember mom's birthday"@
    } else if i == 17 {
        "oh right, it's next tuesday"@
    } else if i == 18 {
        "I got her a plant"@
    } else if i == 19 {
        "she loves plants"@
    } else if i == 20 {
        "nice one"@
    } else if i == 21 {
        "who's bringing the cake?"@
    } else if i == 22 {
        "I will"@
    } else if i == 23 {
        "awesome"@
    } else if i == 24 {
        "see you all soon"@
    } else if i == 25 {
        "anyone seen the cat?"@
    } else if i == 26 {
        "she's under the couch again"@
    } else if i == 27 {
        "classic"@
    } else if i == 28 {
        "ok meeting adjourned"@
    } else {
        "bye!"@
    }
}

/// Who says a line of the long conversation: six people in turn.
pub open spec fn long_sender(i: int) -> Seq<char> {
    if i % 6 == 0 {
        "Mum"@
    } else if i % 6 == 1 {
        "Dad"@
    } else if i % 6 == 2 {
        "Alex"@
    } else if i % 6 == 3 {
        "Sara"@
    } else if i % 6 == 4 {
        "Omar"@
    } else {
        "You"@
    }
}

/// The long conversation.
pub open spec fn long_messages(chat: ChatIdV, at: i64) -> Seq<MessageV> {
    Seq::new(
        30,
        |i: int|
            mock_message(
                "mock-"@ + decimal(i as nat),
                chat,
                long_sender(i),
                long_line(i),
                i % 6 == 5,
                at,
            ),
    )
}

fn line_text(i: u64) -> (r: &'static str)
    ensures
        r@ == long_line(i as int),
{
    if i == 0 {
        "hello everyone"
    } else if i == 1 {
        "any plans for the weekend?"
    } else if i == 2 {
        "I'm free on saturday"
    } else if i == 3 {
        "let's do a video call"
    } else if i == 4 {
        "works for me"
    } else if i == 5 {
        "did you see the news?"
    } else if i == 6 {
        "yes, crazy stuff"
    } else if i == 7 {
        "we should talk about it live"
    } else if i == 8 {
        "bringing pizza"
    } else if i == 9 {
        "count me in"
    } else if i == 10 {
        "what time?"
    } else if i == 11 {
        "7pm sounds good"
    } else if i == 12 {
        "can we do 8?"
    } else if i == 13 {
        "sure"
    } else if i == 14 {
        "I'll set a reminder"
    } else if i == 15 {
        "perfect"
    } else if i == 16 {
        "also, remember mom's birthday"
    } else if i == 17 {
        "oh right, it's next tuesday"
    } else if i == 18 {
        "I got her a plant"
    } else if i == 19 {
        "she loves plants"
    } else if i == 20 {
        "nice one"
    } else if i == 21 {
        "who's bringing the cake?"
    } else if i == 22 {
        "I will"
    } else if i == 23 {
        "awesome"
    } else if i == 24 {
        "see you all soon"
    } else if i == 25 {
        "anyone seen the cat?"
    } else if i == 26 {
        "she's under the couch again"
    } else if i == 27 {
        "classic"
    } else if i == 28 {
        "ok meeting adjourned"
    } else {
        "bye!"
    }
}

fn line_sender(i: u64) -> (r: &'static str)
    ensures
        r@ == long_sender(i as int),
{
    let k: u64 = i % 6;
    if k == 0 {
        "Mum"
    } else if k == 1 {
        "Dad"
    } else if k == 2 {
        "Alex"
    } else if k == 3 {
        "Sara"
    } else if k == 4 {
        "Omar"
    } else {
        "You"
    }
}

/// The long conversation.
pub fn long_history(chat: &ChatId, at: i64) -> (r: Vec<Message>)
    ensures
        seen(r@) == long_messages(chat@, at),
{
    let ghost all = long_messages(chat@, at);
    let mut out: Vec<Message> = Vec::new();
    let mut i: u64 = 0;
    assert(seen(out@) =~= all.take(0));
    while i < 30
        invariant
            i <= 30,
            all == long_messages(chat@, at),
            seen(out@) == all.take(i as int),
        decreases 30 - i,
    {
        let id: String = joined("mock-", format_u64(i).as_str());
        let ghost before = out@;
        out.push(message(id.as_str(), chat, line_sender(i), line_text(i), i % 6 == 5, at));
        assert(seen(out@) =~= seen(before).push(all[i as int]));
        i += 1;
        assert(all.take(i as int) =~= all.take(i as int - 1).push(all[i as int - 1]));
    }
    assert(all.take(30) =~= all);
    out
}

/// What the provider starts with.
pub struct MockData {
    pub chats: Vec<Chat>,
    /// A line that sums up each chat.
    pub previews: ChatMap<String>,
    pub history: ChatMap<History>,
    /// The chat in which messages arrive by themselves.
    pub incoming_chat: ChatId,
    /// The chat that answers with what was sent.
    pub echo_chat: ChatId,
}

/// Model of `MockData`.
pub ghost struct MockV {
    pub chats: Seq<ChatV>,
    pub previews: Map<ChatIdV, Seq<char>>,
    pub history: Map<ChatIdV, Seq<MessageV>>,
    pub incoming_chat: ChatIdV,
    pub echo_chat: ChatIdV,
}

impl View for MockData {
    type V = MockV;

    open spec fn view(&self) -> MockV {
        MockV {
            chats: seen(self.chats@),
            previews: self.previews@,
            history: self.history@,
            incoming_chat: self.incoming_chat@,
            echo_chat: self.echo_chat@,
        }
    }
}

/// The chats and messages under the name of Telegram.
pub open spec fn telegram_mock(at: i64) -> MockV {
    let news = ChatIdV::Telegram(101);
    let family = ChatIdV::Telegram(102);
    let alice = ChatIdV::Telegram(103);
    let echo = ChatIdV::Telegram(104);
    MockV {
        chats: seq![
            mock_chat(news, "Telegram News"@, 0),
            mock_chat(family, "Family Group"@, 3),
            mock_chat(alice, "Alice"@, 0),
            mock_chat(echo, "Echo Bot"@, 0),
        ],
        previews: Map::empty().insert(news, "MTProto v0.10 released"@).insert(
            family,
            "Mum: call me later"@,
        ).insert(alice, "You: ok, see you"@),
        history: Map::empty().insert(family, long_messages(family, at)).insert(
            news,
            seq![
                mock_message("tg-1"@, news, "Telegram News"@, "MTProto v0.10 is out!"@, false, at),
                mock_message(
                    "tg-2"@,
                    news,
                    "Telegram News"@,
                    "Pure-Rust client library."@,
                    false,
                    at,
                ),
            ],
        ).insert(
            alice,
            seq![
                mock_message("tg-3"@, alice, "Alice"@, "Are you coming tonight?"@, false, at),
                mock_message("tg-4"@, alice, "You"@, "ok, see you"@, true, at),
            ],
        ),
        incoming_chat: family,
        echo_chat: echo,
    }
}

/// The chats and messages under any other name.
pub open spec fn whatsapp_mock(at: i64) -> MockV {
    let bob = ChatIdV::WhatsApp("5511999990001@s.whatsapp.net"@);
    let design = ChatIdV::WhatsApp("5511999990002@s.whatsapp.net"@);
    let echo = ChatIdV::WhatsApp("5511999990003@s.whatsapp.net"@);
    MockV {
        chats: seq![
            mock_chat(bob, "Bob"@, 5),
            mock_chat(design, "Design Team"@, 0),
            mock_chat(echo, "Echo Bot"@, 0),
        ],
        previews: Map::empty().insert(bob, "Bob: did you push?"@).insert(
            design,
            "Lia: new figma board"@,
        ),
        history: Map::empty().insert(
            bob,
            seq![
                mock_message("wa-0a"@, bob, "Bob"@, "suh"@, false, at),
                mock_message("wa-0b"@, bob, "You"@, "suh"@, true, at),
            ],
        ).insert(
            design,
            seq![
                mock_message("wa-1"@, design, "Lia"@, "new figma board is up"@, false, at),
                mock_message("wa-2"@, design, "You"@, "looks good!"@, true, at),
            ],
        ),
        incoming_chat: bob,
        echo_chat: echo,
    }
}

fn two(a: Message, b: Message) -> (r: History)
    ensures
        r@ == seq![a@, b@],
{
    let ghost av = a@;
    let ghost bv = b@;
    let mut messages: Vec<Message> = Vec::new();
    messages.push(a);
    messages.push(b);
    assert(seen(messages@) =~= seq![av, bv]);
    History { messages }
}

fn telegram_data(at: i64) -> (r: MockData)
    ensures
        r@ == telegram_mock(at),
{
    let news: ChatId = ChatId::Telegram(101);
    let family: ChatId = ChatId::Telegram(102);
    let alice: ChatId = ChatId::Telegram(103);
    let echo: ChatId = ChatId::Telegram(104);
    let mut chats: Vec<Chat> = Vec::new();
    chats.push(chat(news.clone(), "Telegram News", 0));
    chats.push(chat(family.clone(), "Family Group", 3));
    chats.push(chat(alice.clone(), "Alice", 0));
    chats.push(chat(echo.clone(), "Echo Bot", 0));
    assert(seen(chats@) =~= telegram_mock(at).chats);
    let mut previews: ChatMap<String> = ChatMap::new();
    previews.insert(news.clone(), owned("MTProto v0.10 released"));
    previews.insert(family.clone(), owned("Mum: call me later"));
    previews.insert(alice.clone(), owned("You: ok, see you"));
    let mut history: ChatMap<History> = ChatMap::new();
    history.insert(family.clone(), History { messages: long_history(&family, at) });
    history.insert(
        news.clone(),
        two(
            message("tg-1", &news, "Telegram News", "MTProto v0.10 is out!", false, at),
            message("tg-2", &news, "Telegram News", "Pure-Rust client library.", false, at),
        ),
    );
    history.insert(
        alice.clone(),
        two(
            message("tg-3", &alice, "Alice", "Are you coming tonight?", false, at),
            message("tg-4", &alice, "You", "ok, see you", true, at),
        ),
    );
    MockData { chats, previews, history, incoming_chat: family, echo_chat: echo }
}

fn whatsapp_data(at: i64) -> (r: MockData)
    ensures
        r@ == whatsapp_mock(at),
{
    let bob: ChatId = ChatId::WhatsApp(owned("5511999990001@s.whatsapp.net"));
    let design: ChatId = ChatId::WhatsApp(owned("5511999990002@s.whatsapp.net"));
    let echo: ChatId = ChatId::WhatsApp(owned("5511999990003@s.whatsapp.net"));
    let mut chats: Vec<Chat> = Vec::new();
    chats.push(chat(bob.clone(), "Bob", 5));
    chats.push(chat(design.clone(), "Design Team", 0));
    chats.push(chat(echo.clone(), "Echo Bot", 0));
    assert(seen(chats@) =~= whatsapp_mock(at).chats);
    let mut previews: ChatMap<String> = ChatMap::new();
    previews.insert(bob.clone(), owned("Bob: did you push?"));
    previews.insert(design.clone(), owned("Lia: new figma board"));
    let mut history: ChatMap<History> = ChatMap::new();
    history.insert(
        bob.clone(),
        two(
            message("wa-0a", &bob, "Bob", "suh", false, at),
            message("wa-0b", &bob, "You", "suh", true, at),
        ),
    );
    history.insert(
        design.clone(),
        two(
            message("wa-1", &design, "Lia", "new figma board is up", false, at),
            message("wa-2", &design, "You", "looks good!", true, at),
        ),
    );
    MockData { chats, previews, history, incoming_chat: bob, echo_chat: echo }
}

/// The chats and messages under a name, all of one time.
pub fn mock_data_at(name: &str, at: i64) -> (r: MockData)
    ensures
        r@ == if name@ == "Telegram"@ {
            telegram_mock(at)
        } else {
            whatsapp_mock(at)
        },
{
    if same(name, "Telegram") {
        telegram_data(at)
    } else {
        whatsapp_data(at)
    }
}

/// The chats and messages under a name, as of now.
pub fn mock_data(name: &str) -> (r: MockData)
    ensures
        exists|at: i64|
            0 <= at && r@ == if name@ == "Telegram"@ {
                #[trigger] telegram_mock(at)
            } else {
                whatsapp_mock(at)
            },
{
    let at: i64 = now();
    let r: MockData = mock_data_at(name, at);
    assert(telegram_mock(at) == telegram_mock(at));
    r
}

/// The messages of a chat.
pub open spec fn messages_of(d: MockV, id: ChatIdV) -> Seq<MessageV> {
    if d.history.dom().contains(id) {
        d.history[id]
    } else {
        Seq::empty()
    }
}

/// What the provider holds after a message.
pub open spec fn with_mock_message(d: MockV, m: MessageV) -> MockV {
    MockV { history: d.history.insert(m.chat, messages_of(d, m.chat).push(m)), ..d }
}

/// A message that was sent or arrived, with the row of its chat and the line
/// that sums it up, where the chat has a row.
pub struct MockPost {
    pub message: Message,
    pub row: Option<Chat>,
    pub preview: String,
}

/// A provider without a network.
pub struct MockMessenger {
    pub name: String,
    pub data: MockData,
    /// Numbers what was sent.
    pub outgoing_seq: u64,
}

/// The first row of a chat, where it has one.
pub open spec fn first_row(chats: Seq<ChatV>, id: ChatIdV) -> Option<ChatV> {
    match first_of(chat_ids(chats), id) {
        Some(i) => Some(chats[i]),
        None => None,
    }
}

impl MockMessenger {
    /// A provider under a name, with what it starts with.
    pub fn new(name: &str) -> (r: Self)
        ensures
            r.name@ == name@,
            r.outgoing_seq == 0,
            exists|at: i64|
                0 <= at && r.data@ == if name@ == "Telegram"@ {
                    #[trigger] telegram_mock(at)
                } else {
                    whatsapp_mock(at)
                },
    {
        MockMessenger { name: owned(name), data: mock_data(name), outgoing_seq: 0 }
    }

    /// The provider's name.
    pub fn platform(&self) -> (r: &str)
        ensures
            r@ == self.name@,
    {
        self.name.as_str()
    }

    /// Nobody has to sign in.
    pub fn is_authenticated(&self) -> (r: bool)
        ensures
            r,
    {
        true
    }

    /// The rows.
    pub fn chats(&self) -> (r: Vec<Chat>)
        ensures
            seen(r@) == self.data@.chats,
    {
        let ghost all = seen(self.data.chats@);
        let mut out: Vec<Chat> = Vec::new();
        let mut i: usize = 0;
        assert(seen(out@) =~= all.take(0));
        while i < self.data.chats.len()
            invariant
                i <= self.data.chats@.len(),
                all == seen(self.data.chats@),
                seen(out@) == all.take(i as int),
            decreases self.data.chats@.len() - i,
        {
            let ghost before = out@;
            out.push(self.data.chats[i].clone());
            assert(seen(out@) =~= seen(before).push(all[i as int]));
            assert(all.take(i as int + 1) =~= all.take(i as int).push(all[i as int]));
            i += 1;
        }
        assert(all.take(i as int) =~= all);
        out
    }

    /// The messages of a chat.
    pub fn history(&self, id: &ChatId) -> (r: Vec<Message>)
        ensures
            seen(r@) == messages_of(self.data@, id@),
    {
        let mut out: Vec<Message> = Vec::new();
        match self.data.history.get(id) {
            Some(h) => {
                let ghost all = seen(h.messages@);
                let mut i: usize = 0;
                assert(seen(out@) =~= all.take(0));
                while i < h.messages.len()
                    invariant
                        i <= h.messages@.len(),
                        all == seen(h.messages@),
                        seen(out@) == all.take(i as int),
                    decreases h.messages@.len() - i,
                {
                    let ghost before = out@;
                    out.push(h.messages[i].clone());
                    assert(seen(out@) =~= seen(before).push(all[i as int]));
                    assert(all.take(i as int + 1) =~= all.take(i as int).push(all[i as int]));
                    i += 1;
                }
                assert(all.take(i as int) =~= all);
            },
            None => {
                assert(seen(out@) =~= Seq::<MessageV>::empty());
            },
        }
        out
    }

    fn keep(&mut self, m: &Message)
        ensures
            final(self).data@ == with_mock_message(old(self).data@, m@),
            final(self).name == old(self).name,
            final(self).outgoing_seq == old(self).outgoing_seq,
    {
        let mut h: Vec<Message> = self.history(&m.chat);
        let ghost before = h@;
        h.push(m.clone());
        assert(seen(h@) =~= seen(before).push(m@));
        self.data.history.insert(m.chat.clone(), History { messages: h });
    }

    fn row(&self, id: &ChatId) -> (r: Option<Chat>)
        ensures
            opt_view(r) == first_row(self.data@.chats, id@),
    {
        match chat_position(&self.data.chats, id) {
            Some(i) => {
                assert(seen(self.data.chats@)[i as int] == self.data.chats@[i as int]@);
                Some(self.data.chats[i].clone())
            },
            None => None,
        }
    }

    /// Sends a message at a given time.
    pub fn send(&mut self, id: &ChatId, text: &str, at: i64) -> (r: MockPost)
        requires
            old(self).outgoing_seq < u64::MAX,
        ensures
            r.message@ == mock_message(
                "mock-outgoing-"@ + decimal((old(self).outgoing_seq + 1) as nat),
                id@,
                "You"@,
                text@,
                true,
                at,
            ),
            opt_view(r.row) == first_row(old(self).data@.chats, id@),
            r.preview@ == "You: "@ + text@,
            final(self).data@ == with_mock_message(old(self).data@, r.message@),
            final(self).name == old(self).name,
            final(self).outgoing_seq == old(self).outgoing_seq + 1,
    {
        self.outgoing_seq = self.outgoing_seq + 1;
        let mid: String = joined("mock-outgoing-", format_u64(self.outgoing_seq).as_str());
        let message: Message = message(mid.as_str(), id, "You", text, true, at);
        self.keep(&message);
        MockPost { message, row: self.row(id), preview: joined("You: ", text) }
    }

    /// Answers with what was sent, where the chat is the one that does.
    pub fn echo(&mut self, id: &ChatId, text: &str, at: i64) -> (r: Option<MockPost>)
        requires
            old(self).outgoing_seq < u64::MAX,
        ensures
            match r {
                Some(p) => id@ == old(self).data@.echo_chat && p.message@ == mock_message(
                    "mock-echo-"@ + decimal((old(self).outgoing_seq + 1) as nat),
                    id@,
                    "Echo Bot"@,
                    text@,
                    false,
                    at,
                ) && opt_view(p.row) == first_row(old(self).data@.chats, id@) && p.preview@
                    == "Echo Bot: "@ + text@ && final(self).data@ == with_mock_message(
                    old(self).data@,
                    p.message@,
                ) && final(self).outgoing_seq == old(self).outgoing_seq + 1,
                None => id@ != old(self).data@.echo_chat && final(self).data@ == old(self).data@
                    && final(self).outgoing_seq == old(self).outgoing_seq,
            },
            final(self).name == old(self).name,
    {
        if !(*id == self.data.echo_chat) {
            return None;
        }
        self.outgoing_seq = self.outgoing_seq + 1;
        let mid: String = joined("mock-echo-", format_u64(self.outgoing_seq).as_str());
        let message: Message = message(mid.as_str(), id, "Echo Bot", text, false, at);
        self.keep(&message);
        Some(MockPost { message, row: self.row(id), preview: joined("Echo Bot: ", text) })
    }

    /// Marks the first row of a chat as read.
    pub fn set_read(&mut self, id: &ChatId)
        ensures
            final(self).data@ == match first_of(chat_ids(old(self).data@.chats), id@) {
                Some(i) => MockV {
                    chats: old(self).data@.chats.update(
                        i,
                        ChatV { unread: false, unread_count: 0, ..old(self).data@.chats[i] },
                    ),
                    ..old(self).data@
                },
                None => old(self).data@,
            },
            final(self).name == old(self).name,
            final(self).outgoing_seq == old(self).outgoing_seq,
    {
        if let Some(i) = chat_position(&self.data.chats, id) {
            let ghost before = self.data.chats@;
            assert(seen(before)[i as int] == before[i as int]@);
            let mut c: Chat = self.data.chats[i].clone();
            c.unread = false;
            c.unread_count = 0;
            let ghost cv = c@;
            self.data.chats.set(i, c);
            assert(seen(self.data.chats@) =~= seen(before).update(i as int, cv));
        }
    }

    /// A message that arrives by itself: the `n`th.
    pub fn incoming(&mut self, n: u64, at: i64) -> (r: Message)
        ensures
            r@ == mock_message(
                "mock-"@ + old(self).name@ + "-incoming-"@ + decimal(n as nat),
                old(self).data@.incoming_chat,
                old(self).name@ + " Mock"@,
                "simulated incoming message #"@ + decimal(n as nat),
                false,
                at,
            ),
            final(self).data@ == with_mock_message(old(self).data@, r@),
            final(self).name == old(self).name,
            final(self).outgoing_seq == old(self).outgoing_seq,
    {
        let number: String = format_u64(n);
        let id: String = joined(
            joined3("mock-", self.name.as_str(), "-incoming-").as_str(),
            number.as_str(),
        );
        let m: Message = message(
            id.as_str(),
            &self.data.incoming_chat,
            joined(self.name.as_str(), " Mock").as_str(),
            joined("simulated incoming message #", number.as_str()).as_str(),
            false,
            at,
        );
        self.keep(&m);
        m
    }
}

}
