//! Laws of what Telegram's updates, failures and answers lead to.
use vstd::prelude::*;

use crate::backend::{
    client_error, send_error, telegram_error, BackendErrorV, BackendEventV, ChatIdV, LoginStepState,
    MediaKindV, MessageAction, ReplyContext, SendFailure, TelegramFailure,
};
use crate::backend::telegram::{
    ascii_lowered, at_least_a_second, delay_after, dialog_chats, doubled, end_reason, ended_step,
    failure_step, login_plan_of, password_step, reconnect_step, session_invalid, sign_in_step,
    started_once, tg_message, tg_page, tg_quote, tg_sent, tg_text, update_step, LazyStart, Listener,
    LoginRequest, SignInOutcome, StreamEnd, TgDialog, TgMedia, TgMessage, TgStatus, TgUpdate,
    TokenKind,
};
use crate::text::{blank, decimal_int, includes};

verus! {

/// The number of a message's chat: that of the chat where it is known, else the
/// one in the message; zero is none.
pub open spec fn chat_number(m: TgMessage) -> Option<i64> {
    if m.peer_bare_id is Some && m.peer_bare_id != Some(0i64) {
        m.peer_bare_id
    } else if m.peer_bare_id is None && m.peer_id is Some && m.peer_id != Some(0i64) {
        m.peer_id
    } else {
        None
    }
}

/// An edit of a message of a usable chat is reported as exactly one update of
/// that message: its chat, its id and its new text. It is never reported as a
/// new message.
pub proof fn edits_are_reported_as_updates(msg: TgMessage, own_chat: Option<ChatIdV>, now: int)
    ensures
        ({
            let (out, stale) = update_step(TgUpdate::MessageEdited(msg), own_chat, now);
            let usable = chat_number(msg) is Some;
            &&& !usable ==> out.len() == 0 && !stale
            &&& usable ==> out.len() == 1 && stale && out[0] is MessageUpdated
            &&& usable ==> (out[0] matches BackendEventV::MessageUpdated(m) && m.chat
                == ChatIdV::Telegram(chat_number(msg).unwrap()) && m.message_id == decimal_int(
                msg.id as int,
            ) && (msg.media is None ==> m.text == msg.text@) && m.timestamp == msg.date)
            &&& forall|k: int| 0 <= k < out.len() ==> !(#[trigger] out[k] is MessageReceived)
        }),
{
}

/// A new message of a usable chat is reported as received, once and first, and
/// its chat with the time of the message; it makes the fetched list stale.
pub proof fn new_messages_are_reported_as_received(
    msg: TgMessage,
    reply_ctx: Option<ReplyContext>,
    own_chat: Option<ChatIdV>,
    now: int,
)
    ensures
        ({
            let (out, stale) = update_step(
                TgUpdate::NewMessage { msg, reply_ctx },
                own_chat,
                now,
            );
            let usable = chat_number(msg) is Some;
            let chat = ChatIdV::Telegram(chat_number(msg).unwrap());
            &&& !usable ==> out.len() == 0 && !stale
            &&& usable ==> out.len() == 2 && stale
            &&& usable ==> (out[0] matches BackendEventV::MessageReceived(m) && m.chat == chat
                && m.message_id == decimal_int(msg.id as int) && m.timestamp == msg.date && (
            msg.media is None ==> m.text == msg.text@) && (reply_ctx is Some ==> m.reply_ctx
                == Some(reply_ctx.unwrap()@)) && (reply_ctx is None ==> m.reply_ctx is None))
            &&& usable ==> (out[1] matches BackendEventV::ChatUpdated(c) && c.id == chat
                && c.last_message_ts == Some(msg.date) && c.unread_count == 0 && !c.unread
                && !c.fixed && c.status is None && (msg.peer_name is Some ==> c.contact_name
                == msg.peer_name.unwrap()@))
        }),
{
}

/// Deleted messages are reported by their ids, all of them and no other, with
/// their chat where it is a channel; nothing is reported where none is named.
pub proof fn deletions_are_reported_by_id(
    channel_id: Option<i64>,
    ids: Vec<i32>,
    own_chat: Option<ChatIdV>,
    now: int,
)
    ensures
        ({
            let (out, stale) = update_step(
                TgUpdate::MessageDeleted { channel_id, ids },
                own_chat,
                now,
            );
            &&& ids@.len() == 0 ==> out.len() == 0 && !stale
            &&& ids@.len() > 0 ==> out.len() == 1 && stale
            &&& ids@.len() > 0 ==> (out[0] matches BackendEventV::MessageDeleted {
                chat,
                message_ids,
            } && message_ids.len() == ids@.len() && (channel_id is None ==> chat is None) && (
            channel_id is Some ==> chat == Some(ChatIdV::Telegram(channel_id.unwrap()))) && (
            forall|k: int|
                0 <= k < ids@.len() ==> #[trigger] message_ids[k] == decimal_int(ids@[k] as int)))
        }),
{
}

/// A user's presence is reported as the status of their chat and nothing else
/// of it, and leaves the fetched list.
pub proof fn presence_is_reported_as_status(
    user_id: i64,
    status: TgStatus,
    own_chat: Option<ChatIdV>,
    now: int,
)
    ensures
        ({
            let (out, stale) = update_step(
                TgUpdate::UserStatus { user_id, status },
                own_chat,
                now,
            );
            &&& !stale
            &&& out.len() == 1
            &&& (out[0] matches BackendEventV::ChatUpdated(c) && c.id == ChatIdV::Telegram(user_id)
                && c.contact_name.len() == 0 && c.last_message_ts is None && !c.unread
                && c.unread_count == 0 && !c.fixed && (status is Online ==> c.status == Some(
                "online"@,
            )) && (status is Empty ==> c.status is None) && (status is Recently ==> c.status
                == Some("recently"@)) && (status is LastWeek ==> c.status == Some("last week"@))
                && (status is LastMonth ==> c.status == Some("last month"@)) && (
            status matches TgStatus::Offline { was_online } ==> c.status == Some(
                "last seen "@ + crate::helpers::ago(now, was_online as int),
            )))
        }),
{
}

/// A chat read elsewhere is reported with the count that is left, and as unread
/// exactly where one is.
pub proof fn reads_are_reported_with_what_is_left(
    peer_id: i64,
    still_unread_count: i32,
    own_chat: Option<ChatIdV>,
    now: int,
)
    ensures
        update_step(TgUpdate::ReadInbox { peer_id, still_unread_count }, own_chat, now).1,
        update_step(TgUpdate::ReadInbox { peer_id, still_unread_count }, own_chat, now).0.len()
            == 1,
        (update_step(TgUpdate::ReadInbox { peer_id, still_unread_count }, own_chat, now).0[0]
            matches BackendEventV::UnreadUpdated { chat, unread, unread_count } && chat
            == ChatIdV::Telegram(peer_id) && unread_count == still_unread_count && (unread
            <==> still_unread_count > 0)),
        update_step(TgUpdate::Other, own_chat, now) == (Seq::<BackendEventV>::empty(), false),
{
}

/// A message keeps its time and what it answers. It is the user's where it was
/// sent from here or stands in their own chat, and only then signed so and open
/// to editing and deleting.
pub proof fn messages_keep_their_origin(
    m: TgMessage,
    chat: ChatIdV,
    own_chat: Option<ChatIdV>,
    ctx: Option<crate::backend::ReplyContextV>,
)
    ensures
        ({
            let r = tg_message(m, chat, own_chat, ctx);
            &&& r.chat == chat
            &&& r.timestamp == m.date
            &&& r.from_me <==> m.outgoing || own_chat == Some(chat)
            &&& r.from_me ==> r.sender == "You"@
            &&& !r.from_me && m.sender_name is Some ==> r.sender == m.sender_name.unwrap()@
            &&& !r.from_me && m.sender_name is None && m.peer_name is Some ==> r.sender
                == m.peer_name.unwrap()@
            &&& !r.from_me && m.sender_name is None && m.peer_name is None ==> r.sender
                == "Unknown"@
            &&& m.reply_to is None ==> r.reply_to_id is None
            &&& m.reply_to is Some ==> r.reply_to_id == Some(
                decimal_int(m.reply_to.unwrap() as int),
            )
            &&& r.reply_ctx == ctx
            &&& r.msg_actions.len() == if r.from_me { 3int } else { 1 }
            &&& r.msg_actions[0] == MessageAction::Reply
            &&& r.from_me ==> r.msg_actions[1] == MessageAction::Edit && r.msg_actions[2]
                == MessageAction::Delete
            &&& !r.pending && !r.failed
            &&& r.author_id is None
        }),
{
}

/// A message without media says its text. One with media is of the kind of its
/// media and carries its text as the caption; what it says names the kind.
pub proof fn media_keep_their_kind(m: TgMessage, chat: ChatIdV, own_chat: Option<ChatIdV>)
    ensures
        ({
            let r = tg_message(m, chat, own_chat, None);
            let kind = r.media.unwrap().kind;
            &&& m.media is None <==> r.media is None
            &&& m.media is None ==> r.text == m.text@ && tg_text(m) == m.text@
            &&& m.media is Some && blank(m.text@) ==> r.media.unwrap().caption is None && r.text
                == crate::backend::media_label(kind) + ", click to show"@ && tg_text(m) == r.text
            &&& m.media is Some && !blank(m.text@) ==> r.media.unwrap().caption == Some(m.text@)
                && r.text == crate::backend::media_label(kind) + ": "@ + m.text@ && tg_text(m)
                == m.text@
            &&& m.media == Some(TgMedia::Photo) ==> kind is Image
            &&& m.media == Some(TgMedia::Sticker) ==> kind is Sticker
            &&& m.media == Some(TgMedia::Other) ==> kind is Unsupported
            &&& (m.media matches Some(TgMedia::Document { video, voice, duration_secs, .. }) ==> (
            video ==> kind is Video) && (!video && !voice ==> kind is Document) && (!video && voice
                ==> kind == (MediaKindV::Audio { duration_secs, is_voice: true, waveform: None })))
        }),
{
}

// Failures.

/// A failed session is told by its own words, in any case of letters; any other
/// failure leaves the session alone.
pub proof fn failed_sessions_are_reported(
    reason: Seq<char>,
    attempt: int,
    unauthenticated: bool,
    max: int,
)
    requires
        attempt >= 0,
    ensures
        ({
            let (event, lost, delay) = failure_step(reason, attempt, unauthenticated, max);
            let bad = session_invalid(reason, unauthenticated);
            &&& unauthenticated ==> bad
            &&& includes(ascii_lowered(reason), "session_revoked"@) ==> bad
            &&& includes(ascii_lowered(reason), "auth_key_unregistered"@) ==> bad
            &&& includes(ascii_lowered(reason), "not authenticated"@) ==> bad
            &&& bad ==> event == Some(BackendEventV::AuthInvalid(reason)) && lost && delay is None
            &&& (event matches Some(BackendEventV::AuthInvalid(_)) ==> bad)
            &&& !bad && attempt >= max ==> event == Some(
                BackendEventV::Status("Telegram connection lost"@),
            ) && lost && delay is None
            &&& lost <==> bad || attempt >= max
            &&& delay is Some ==> !lost && 1 <= delay.unwrap() <= 30
            &&& !lost && delay is None ==> event is None
            &&& !lost && !includes(ascii_lowered(reason), "dropped"@) && !includes(
                ascii_lowered(reason),
                "quit"@,
            ) && !includes(ascii_lowered(reason), "shutdown"@) ==> delay is Some && event is Some
        }),
{
    crate::backend::telegram::reconnect_waits_are_bounded(reason, attempt, unauthenticated);
}

/// The wait after an ordinary failure doubles: one second after the first, two
/// after the second, and so on up to half a minute from the sixth on.
pub proof fn waits_double(reason: Seq<char>, attempt: int)
    requires
        !includes(ascii_lowered(reason), "dropped"@),
        !includes(ascii_lowered(reason), "quit"@),
        !includes(ascii_lowered(reason), "shutdown"@),
        !includes(ascii_lowered(reason), "flood_wait"@),
        !session_invalid(reason, false),
        attempt >= 0,
    ensures
        attempt == 0 ==> delay_after(reason, attempt, false) == 1,
        attempt < 4 ==> delay_after(reason, attempt + 1, false) == 2 * delay_after(
            reason,
            attempt,
            false,
        ),
        attempt >= 5 ==> delay_after(reason, attempt, false) == 30,
{
    reveal_with_fuel(doubled, 7);
}

/// A server that asks to slow down is waited for the longest.
pub proof fn flooded_servers_are_given_time(reason: Seq<char>, attempt: int, unauthenticated: bool)
    requires
        includes(ascii_lowered(reason), "flood_wait"@),
        !includes(ascii_lowered(reason), "dropped"@),
        !includes(ascii_lowered(reason), "quit"@),
        !includes(ascii_lowered(reason), "shutdown"@),
    ensures
        delay_after(reason, attempt, unauthenticated) == 30,
{
}

/// The end of a stream is explained with the failure's own words; one that just
/// closed needs no word.
pub proof fn ends_are_explained(s: String)
    ensures
        end_reason(StreamEnd::NotStarted(s)) == Some(
            "Telegram update stream failed to start: "@ + s@,
        ),
        end_reason(StreamEnd::Failed(s)) == Some("Telegram update stream error: "@ + s@),
        end_reason(StreamEnd::Closed) is None,
{
}

// The chat list.

/// Every dialog with a usable number that was not met before becomes a chat
/// with the dialog's name, time, count and pin, after those before it; any
/// other is passed over.
pub proof fn dialogs_become_chats(ds: Seq<TgDialog>, d: TgDialog)
    ensures
        dialog_chats(Seq::empty()).1.len() == 0,
        ({
            let (met, out) = dialog_chats(ds);
            let (met2, out2) = dialog_chats(ds.push(d));
            let c = out2.last();
            let id = d.bare_id.unwrap();
            let usable = d.bare_id is Some && id != 0 && !met.contains(id);
            &&& !usable ==> out2 == out
            &&& usable ==> out2.len() == out.len() + 1 && out2.drop_last() == out && c.id
                == ChatIdV::Telegram(id) && c.last_message_ts == d.last_message_ts && c.fixed
                == d.pinned && c.unread_count == d.unread_count && (c.unread <==> d.unread_count
                > 0) && !c.verified && c.scroll == 0 && met2.contains(id)
            &&& usable && d.name is Some ==> c.contact_name == d.name.unwrap()@
            &&& usable && d.name is None ==> c.contact_name == "Unknown"@
            &&& usable && d.status is Some ==> c.status == Some(d.status.unwrap()@)
            &&& usable && d.status is None ==> c.status is None
        }),
{
    assert(ds.push(d).drop_last() =~= ds);
    let (met, out) = dialog_chats(ds);
    let (met2, out2) = dialog_chats(ds.push(d));
    if d.bare_id is Some && d.bare_id.unwrap() != 0 && !met.contains(d.bare_id.unwrap()) {
        assert(out2.drop_last() =~= out);
        assert(met2.last() == d.bare_id.unwrap());
        assert(met2[met.len() as int] == d.bare_id.unwrap());
    }
}

// Login.

/// A login asks for a code, then signs in with it, then checks a password where
/// the server wants one; a step out of turn is refused.
pub proof fn login_steps_come_in_turn(step: int, token: Option<TokenKind>)
    ensures
        login_plan_of(step, token) == Ok::<LoginRequest, Seq<char>>(LoginRequest::RequestCode)
            <==> step == 0,
        login_plan_of(step, token) == Ok::<LoginRequest, Seq<char>>(LoginRequest::SignIn) <==> step
            == 1 && token == Some(TokenKind::CodeRequested),
        login_plan_of(step, token) == Ok::<LoginRequest, Seq<char>>(LoginRequest::CheckPassword)
            <==> step == 2 && token == Some(TokenKind::PasswordRequired),
        step == 1 && token is None ==> login_plan_of(step, token) == Err::<LoginRequest, Seq<char>>(
            "no login token – call request_code first"@,
        ),
        step == 2 && token is None ==> login_plan_of(step, token) == Err::<LoginRequest, Seq<char>>(
            "no password token"@,
        ),
        step > 2 ==> login_plan_of(step, token) == Err::<LoginRequest, Seq<char>>(
            "unknown login step"@,
        ),
{
}

/// A login is done exactly where the server signed the user in; a wanted
/// password leads on from the code alone, and everything else is an error.
pub proof fn logins_end_as_the_server_says(o: SignInOutcome)
    ensures
        sign_in_step(o) == Ok::<LoginStepState, Seq<char>>(LoginStepState::Done)
            <==> o is SignedIn,
        sign_in_step(o) == Ok::<LoginStepState, Seq<char>>(LoginStepState::NextStep)
            <==> o is PasswordRequired,
        sign_in_step(o) is Err <==> !(o is SignedIn) && !(o is PasswordRequired),
        o is InvalidCode ==> sign_in_step(o) == Err::<LoginStepState, Seq<char>>("invalid code"@),
        (o matches SignInOutcome::Other { text } ==> sign_in_step(o) == Err::<
            LoginStepState,
            Seq<char>,
        >("sign-in failed: "@ + text@)),
        password_step(o) == Ok::<LoginStepState, Seq<char>>(LoginStepState::Done)
            <==> o is SignedIn,
        password_step(o) is Err <==> !(o is SignedIn),
        o is InvalidPassword ==> password_step(o) == Err::<LoginStepState, Seq<char>>(
            "invalid password"@,
        ),
        (o matches SignInOutcome::Other { text } ==> password_step(o) == Err::<
            LoginStepState,
            Seq<char>,
        >("password check failed: "@ + text@)),
{
}

/// A stream that failed is reported with its reason, and a new one is opened only
/// where the session is not lost and nothing shuts down; each attempt counts one.
/// A stream that was closed ends the listening without a word.
pub proof fn failed_streams_are_counted(
    l: Listener,
    end: StreamEnd,
    unauthenticated: bool,
    shutdown: bool,
)
    requires
        l.attempt < u32::MAX,
    ensures
        ({
            let (events, retry, after) = ended_step(l, end, unauthenticated, shutdown);
            &&& end is Closed ==> events.len() == 0 && retry is None && after == l
            &&& !(end is Closed) ==> events.len() >= 1 && events[0] == BackendEventV::Disconnected(
                end_reason(end).unwrap(),
            )
            &&& shutdown ==> retry is None
            &&& retry is Some ==> after.attempt == l.attempt + 1 && !after.connection_lost && 1
                <= retry.unwrap() <= 30
            &&& !shutdown && retry is None ==> after.attempt == l.attempt
            &&& shutdown && end is Failed ==> after == l && events.len() == 1
            &&& unauthenticated && !(end is Closed) && !(shutdown && end is Failed)
                ==> after.connection_lost && retry is None
            &&& l.attempt >= 5 ==> retry is None
        }),
{
    if !(end is Closed) {
        let reason = end_reason(end).unwrap();
        failed_sessions_are_reported(
            reason,
            l.attempt as int,
            unauthenticated,
            crate::backend::telegram::MAX_RECONNECT_ATTEMPTS as int,
        );
    }
}

/// The user's wish to connect again is heard only where the connection was lost
/// and the provider is on; the attempts are then counted anew, and a second wish
/// finds nothing lost.
pub proof fn lost_connections_are_reopened_once(l: Listener, shutdown: bool, enabled: bool)
    ensures
        reconnect_step(l, shutdown, enabled).1 <==> l.connection_lost && enabled && !shutdown,
        reconnect_step(l, shutdown, enabled).1 ==> reconnect_step(l, shutdown, enabled).0.attempt
            == 0 && !reconnect_step(
            reconnect_step(l, shutdown, enabled).0,
            shutdown,
            enabled,
        ).1,
        !reconnect_step(l, shutdown, enabled).1 ==> reconnect_step(l, shutdown, enabled).0 == l,
{
}

/// The listener is started once, and only while the provider is on: where it was
/// started it is not started again, and where the provider is off it still can be.
pub proof fn listeners_start_once(l: LazyStart, again: bool)
    ensures
        started_once(l).1 ==> l.enabled && l.parked,
        l.enabled && l.parked ==> started_once(l).1,
        started_once(l).1 ==> !started_once(LazyStart { enabled: again, ..started_once(l).0 }).1,
        !l.enabled ==> started_once(l) == (l, false),
        !l.enabled && l.parked ==> started_once(
            LazyStart { enabled: true, ..started_once(l).0 },
        ).1,
        started_once(l).0.enabled == l.enabled,
{
}

/// A page of messages is turned over: the server's last message comes first.
pub proof fn pages_go_from_old_to_new(
    msgs: Seq<TgMessage>,
    chat: ChatIdV,
    own_chat: Option<ChatIdV>,
    i: int,
)
    requires
        0 <= i < msgs.len(),
    ensures
        tg_page(msgs, chat, own_chat).len() == msgs.len(),
        tg_page(msgs, chat, own_chat)[i].message_id == decimal_int(
            msgs[msgs.len() - 1 - i].id as int,
        ),
        tg_page(msgs, chat, own_chat)[i].chat == chat,
        tg_page(msgs, chat, own_chat)[i] == tg_message(
            msgs[msgs.len() - 1 - i],
            chat,
            own_chat,
            None,
        ),
{
}

/// A quote names the quoted message, its author and its text.
pub proof fn quotes_are_of_their_message(m: TgMessage)
    ensures
        tg_quote(m).id == decimal_int(m.id as int),
        tg_quote(m).text == m.text@,
        tg_quote(m).timestamp == m.date,
        m.outgoing ==> tg_quote(m).sender == "You"@,
        !m.outgoing && m.sender_name is Some ==> tg_quote(m).sender == m.sender_name.unwrap()@,
        !m.outgoing && m.sender_name is None ==> tg_quote(m).sender == "Unknown"@,
{
}

/// A message that was sent is the user's own, in the chat it was sent to, and
/// replies to what the user chose.
pub proof fn sent_messages_are_the_users(m: TgMessage, chat: ChatIdV, reply_to: Option<Seq<char>>)
    ensures
        tg_sent(m, chat, reply_to).from_me,
        tg_sent(m, chat, reply_to).sender == "You"@,
        tg_sent(m, chat, reply_to).chat == chat,
        tg_sent(m, chat, reply_to).reply_to_id == reply_to,
        tg_sent(m, chat, reply_to).message_id == decimal_int(m.id as int),
        !tg_sent(m, chat, reply_to).pending && !tg_sent(m, chat, reply_to).failed,
        m.media is None ==> tg_sent(m, chat, reply_to).text == m.text@,
{
}

/// A refused session is told apart from a wait that the server demands, which
/// gives its seconds, and from any other failure, which is told in words.
pub proof fn failures_are_told_apart(f: TelegramFailure, s: SendFailure)
    ensures
        f.authentication <==> telegram_error(f) == BackendErrorV::NotAuthenticated,
        !f.authentication && f.rpc is Some && f.rpc.unwrap().code == 420 && f.rpc.unwrap().name@
            == "FLOOD_WAIT"@ && f.rpc.unwrap().value is Some ==> telegram_error(f)
            == BackendErrorV::FloodWait(f.rpc.unwrap().value.unwrap() as u64),
        telegram_error(f) is FloodWait ==> f.rpc is Some && f.rpc.unwrap().value is Some
            && f.rpc.unwrap().code == 420,
        telegram_error(f) is Other ==> telegram_error(f) == BackendErrorV::Other(
            "Telegram: "@ + f.text@,
        ),
        s is NotLoggedIn ==> send_error(s) == BackendErrorV::NotAuthenticated,
        s is Client ==> send_error(s) == client_error(s->Client_0),
        s is Other ==> send_error(s) == BackendErrorV::Other("WhatsApp: "@ + s->Other_0@),
{
}

/// A wait is told in whole seconds, and never as none.
pub proof fn waits_are_at_least_a_second(n: int)
    requires
        n <= u64::MAX,
    ensures
        at_least_a_second(n) >= 1,
        n >= 1 ==> at_least_a_second(n) == n,
        n < 1 ==> at_least_a_second(n) == 1,
{
}

}
