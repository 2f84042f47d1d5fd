//! Laws of the event loop and of the audio session.
use vstd::prelude::*;

use crate::backend::{ChatIdV, ChatV, MessageV, Provider};
use crate::config::ProvidersConfig;
use crate::text::int_value;
use crate::tui::player::{
    no_session, play_asked, play_step, reported_secs, session_attached, session_loaded,
    session_paused, session_polled, Engine, PlayState, PlayStep,
};
use crate::tui::run::{
    after_list, after_tick, drawn_chats, first_number, poll_target, provider_of, to_fetch,
    LoopState,
};

verus! {

/// The poll fetches the open chat and no other, exactly where its provider is
/// connected and no fetch is under way.
pub proof fn polls_fetch_the_open_chat(
    st: LoopState,
    open: Option<ChatIdV>,
    connected: Seq<Provider>,
    n: i64,
    raw: Seq<char>,
)
    ensures
        poll_target(st, open, connected) is Some ==> poll_target(st, open, connected) == open,
        st.history_refresh_in_flight ==> poll_target(st, open, connected) is None,
        open == Some(ChatIdV::Telegram(n)) && !st.history_refresh_in_flight ==> (poll_target(
            st,
            open,
            connected,
        ) is Some <==> connected.contains(Provider::Telegram)),
        open == Some(ChatIdV::WhatsApp(raw)) && !st.history_refresh_in_flight ==> (poll_target(
            st,
            open,
            connected,
        ) is Some <==> connected.contains(Provider::WhatsApp)),
        provider_of(ChatIdV::Telegram(n)) == Provider::Telegram,
        provider_of(ChatIdV::WhatsApp(raw)) == Provider::WhatsApp,
{
}

/// A round of chat lists begins only after the first list and while no other is
/// under way; it counts what it asked for, and each list that arrives counts one
/// down.
pub proof fn rounds_count_their_lists(
    st: LoopState,
    connected: Seq<Provider>,
    c: ProvidersConfig,
    asked: int,
)
    requires
        0 <= asked <= usize::MAX,
    ensures
        !st.chats_loaded || st.chatlist_sync_in_flight ==> to_fetch(st, connected, c).len() == 0
            && after_tick(st, asked) == st,
        st.chats_loaded && !st.chatlist_sync_in_flight ==> after_tick(
            st,
            asked,
        ).chatlist_sync_pending == asked && (after_tick(st, asked).chatlist_sync_in_flight
            <==> asked > 0),
        st.chatlist_sync_pending > 0 ==> after_list(st).chatlist_sync_pending
            == st.chatlist_sync_pending - 1,
        st.chatlist_sync_pending == 0 ==> after_list(st).chatlist_sync_pending == 0,
        after_list(st).chatlist_sync_in_flight <==> st.chatlist_sync_pending > 1,
        after_list(st).chats_loaded == st.chats_loaded,
        after_list(st).history_refresh_in_flight == st.history_refresh_in_flight,
        after_tick(st, asked).history_refresh_in_flight == st.history_refresh_in_flight,
{
}

/// Older messages are asked for from before the oldest known one, where its id
/// is a number.
pub proof fn pages_end_before_the_oldest_message(history: Seq<MessageV>)
    ensures
        history.len() == 0 ==> first_number(history) is None,
        history.len() > 0 && int_value(history[0].message_id) is None ==> first_number(
            history,
        ) is None,
        history.len() > 0 && first_number(history) is Some ==> int_value(history[0].message_id)
            == Some(first_number(history).unwrap() as int),
        history.len() > 0 && int_value(history[0].message_id) is Some && i32::MIN <= int_value(
            history[0].message_id,
        ).unwrap() <= i32::MAX ==> first_number(history) is Some,
{
}

/// A filtered list draws the chats of the rows that match, each in its place.
pub proof fn filtered_lists_draw_the_matching_rows(chats: Seq<ChatV>, rows: Seq<usize>)
    requires
        forall|k: int| 0 <= k < rows.len() ==> #[trigger] rows[k] < chats.len(),
    ensures
        drawn_chats(chats, rows).len() == rows.len(),
        forall|k: int|
            0 <= k < rows.len() ==> #[trigger] drawn_chats(chats, rows)[k] == chats[rows[k] as int],
    decreases rows.len(),
{
    if rows.len() > 0 {
        let d = rows.drop_last();
        assert forall|k: int| 0 <= k < d.len() implies #[trigger] d[k] < chats.len() by {
            assert(d[k] == rows[k]);
        }
        filtered_lists_draw_the_matching_rows(chats, d);
        assert forall|k: int| 0 <= k < rows.len() implies #[trigger] drawn_chats(chats, rows)[k]
            == chats[rows[k] as int] by {
            if k < d.len() {
                assert(drawn_chats(chats, d)[k] == chats[d[k] as int]);
            }
        }
    }
}

/// Playing hands a waiting source over, opening an output where there is none,
/// lets an attached one go on, decodes kept bytes again, and does nothing
/// without a session.
pub proof fn playing_does_what_the_session_needs(e: Engine)
    ensures
        play_step(e) == PlayStep::Nothing <==> !e.loaded && !e.kept,
        play_step(e) == PlayStep::Reload <==> !e.loaded && e.kept,
        play_step(e) == PlayStep::Resume <==> e.loaded && !e.pending,
        play_step(e) is Attach <==> e.loaded && e.pending,
        e.loaded && e.pending ==> play_step(e) == (PlayStep::Attach { open: !e.attached }),
{
}

/// A pause holds a playing session and no other, and playing goes on where it was
/// held; a source that found no output still waits, so that playing can be asked
/// for again.
pub proof fn paused_sessions_go_on(e: Engine, opened: bool)
    requires
        e.wf(),
    ensures
        e.status == PlayState::Playing ==> session_paused(e).status == PlayState::Paused
            && play_step(session_paused(e)) == PlayStep::Resume && play_asked(session_paused(e))
            == e,
        e.status != PlayState::Playing ==> session_paused(e) == e,
        e.pending ==> session_attached(e, true).status == PlayState::Playing && !session_attached(
            e,
            true,
        ).pending && session_attached(e, true).attached,
        e.pending ==> session_attached(e, false).status == PlayState::Error && play_step(
            session_attached(e, false),
        ) is Attach,
        play_step(e) is Resume ==> play_asked(e).status == PlayState::Playing,
        play_step(e) is Nothing ==> play_asked(e).status == PlayState::Stopped,
        play_step(e) is Attach || play_step(e) is Reload ==> play_asked(e) == e,
        play_asked(e).wf(),
        session_paused(e).wf(),
        e.pending ==> session_attached(e, opened).wf(),
{
}

/// A session ends by itself only while it plays and its output has run empty;
/// it then keeps its bytes. Loading forgets whatever was there.
pub proof fn sessions_end_when_the_output_is_empty(e: Engine, empty: bool, decoded: bool)
    ensures
        session_polled(e, empty) != e ==> e.status == PlayState::Playing && e.attached && empty,
        e.status == PlayState::Playing && e.attached && empty ==> session_polled(e, empty).status
            == PlayState::Stopped && !session_polled(e, empty).loaded && !session_polled(
            e,
            empty,
        ).attached && session_polled(e, empty).kept == e.kept,
        session_loaded(e, decoded).loaded == decoded,
        session_loaded(e, decoded).kept == decoded,
        !session_loaded(e, decoded).attached,
        !decoded ==> session_loaded(e, decoded).status == PlayState::Error,
        no_session().status == PlayState::Stopped,
        !no_session().kept && !no_session().loaded,
{
}

/// The length shown before the first decode is the one the provider gave of
/// audio; of anything else it is none.
pub proof fn reported_lengths_are_of_audio(m: MessageV)
    ensures
        m.media is None ==> reported_secs(m) == 0,
        m.media is Some && !(m.media.unwrap().kind is Audio) ==> reported_secs(m) == 0,
        m.media is Some && m.media.unwrap().kind is Audio
            && m.media.unwrap().kind->duration_secs is Some ==> reported_secs(m)
            == m.media.unwrap().kind->duration_secs.unwrap(),
        m.media is Some && m.media.unwrap().kind is Audio
            && m.media.unwrap().kind->duration_secs is None ==> reported_secs(m) == 0,
{
}

/// Whatever the rows, only chats of the list are drawn, at most one for each row.
pub proof fn only_listed_chats_are_drawn(chats: Seq<ChatV>, rows: Seq<usize>, j: int)
    requires
        0 <= j < drawn_chats(chats, rows).len(),
    ensures
        drawn_chats(chats, rows).len() <= rows.len(),
        chats.contains(drawn_chats(chats, rows)[j]),
    decreases rows.len(),
{
    drawn_at_most(chats, rows);
    if rows.len() > 0 {
        let d = rows.drop_last();
        if j < drawn_chats(chats, d).len() {
            only_listed_chats_are_drawn(chats, d, j);
        } else {
            assert(drawn_chats(chats, rows)[j] == chats[rows.last() as int]);
        }
    }
}

proof fn drawn_at_most(chats: Seq<ChatV>, rows: Seq<usize>)
    ensures
        drawn_chats(chats, rows).len() <= rows.len(),
    decreases rows.len(),
{
    if rows.len() > 0 {
        drawn_at_most(chats, rows.drop_last());
    }
}

}
