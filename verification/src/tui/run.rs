//! The event loop's decisions: what each timer tick and each result leads to.
use vstd::prelude::*;

use crate::backend::{
    opt_view, switched_on, BackendError, BackendEvent, Chat, ChatId, ChatIdV, ChatV, Message,
    MessageV, Provider,
};
use crate::config::ProvidersConfig;
use crate::order::seen;
use crate::text::{int_value, same};
use crate::tui::chat::ChatState;
use crate::tui::chat_model::{history_refreshed, opened, reconciled};

verus! {

/// What is under way in the background.
#[derive(Clone, Copy, Debug, PartialEq, Eq, Structural)]
pub struct LoopState {
    /// Whether the first complete chat list has arrived.
    pub chats_loaded: bool,
    pub history_refresh_in_flight: bool,
    pub chatlist_sync_in_flight: bool,
    /// Chat lists that are still to come.
    pub chatlist_sync_pending: usize,
}

/// The provider of a chat.
pub open spec fn provider_of(id: ChatIdV) -> Provider {
    match id {
        ChatIdV::Telegram(_) => Provider::Telegram,
        _ => Provider::WhatsApp,
    }
}

/// The chat to fetch when the poll timer ticks: the open one, where its
/// provider is connected and no fetch is under way.
pub open spec fn poll_target(
    st: LoopState,
    open: Option<ChatIdV>,
    connected: Seq<Provider>,
) -> Option<ChatIdV> {
    match open {
        Some(id) => if connected.contains(provider_of(id)) && !st.history_refresh_in_flight {
            Some(id)
        } else {
            None
        },
        None => None,
    }
}

fn has_provider(v: &Vec<Provider>, p: Provider) -> (r: bool)
    ensures
        r == v@.contains(p),
{
    let mut i: usize = 0;
    while i < v.len()
        invariant
            i <= v@.len(),
            forall|k: int| 0 <= k < i ==> v@[k] != p,
        decreases v@.len() - i,
    {
        if v[i] == p {
            assert(v@[i as int] == p);
            return true;
        }
        i += 1;
    }
    false
}

/// The providers whose chat list is to be fetched: those switched on.
pub open spec fn enabled_ones(v: Seq<Provider>, c: ProvidersConfig) -> Seq<Provider>
    decreases v.len(),
{
    if v.len() == 0 {
        v
    } else {
        let rest = enabled_ones(v.drop_last(), c);
        if switched_on(v.last(), c) {
            rest.push(v.last())
        } else {
            rest
        }
    }
}

/// The providers whose chat list is fetched when the list timer ticks: those
/// switched on, once the first list arrived and while no round is under way.
pub open spec fn to_fetch(
    st: LoopState,
    connected: Seq<Provider>,
    c: ProvidersConfig,
) -> Seq<Provider> {
    if !st.chats_loaded || st.chatlist_sync_in_flight {
        Seq::empty()
    } else {
        enabled_ones(connected, c)
    }
}

/// What is under way after the list timer ticked and `asked` lists are fetched:
/// a round lasts as long as one of them is still to come.
pub open spec fn after_tick(st: LoopState, asked: int) -> LoopState {
    if !st.chats_loaded || st.chatlist_sync_in_flight {
        st
    } else {
        LoopState {
            chatlist_sync_in_flight: asked > 0,
            chatlist_sync_pending: asked as usize,
            ..st
        }
    }
}

/// What is under way after a chat list arrived.
pub open spec fn after_list(st: LoopState) -> LoopState {
    let pending = if st.chatlist_sync_pending > 0 {
        st.chatlist_sync_pending - 1
    } else {
        0
    };
    LoopState {
        chatlist_sync_in_flight: pending > 0,
        chatlist_sync_pending: pending as usize,
        ..st
    }
}

/// What is under way after `n` chat lists arrived.
pub open spec fn after_lists(st: LoopState, n: nat) -> LoopState
    decreases n,
{
    if n == 0 {
        st
    } else {
        after_list(after_lists(st, (n - 1) as nat))
    }
}

proof fn lists_count_down(st: LoopState, n: nat)
    requires
        st.wf(),
        n <= st.chatlist_sync_pending,
    ensures
        after_lists(st, n) == (LoopState {
            chatlist_sync_in_flight: st.chatlist_sync_pending > n,
            chatlist_sync_pending: (st.chatlist_sync_pending - n) as usize,
            ..st
        }),
    decreases n,
{
    if n > 0 {
        lists_count_down(st, (n - 1) as nat);
    }
}

/// Chat lists are fetched at each tick of the list timer: once as many lists
/// arrived as were asked for, the next tick asks every provider that is then
/// connected and switched on; before that it asks nobody.
pub proof fn each_round_is_followed_by_another(
    st: LoopState,
    connected: Seq<Provider>,
    c: ProvidersConfig,
    arrived: nat,
    connected_then: Seq<Provider>,
    then: ProvidersConfig,
)
    requires
        st.wf(),
        st.chats_loaded,
        !st.chatlist_sync_in_flight,
        enabled_ones(connected, c).len() <= usize::MAX,
        arrived <= to_fetch(st, connected, c).len(),
    ensures
        ({
            let asked = to_fetch(st, connected, c).len();
            let now = after_lists(after_tick(st, asked as int), arrived);
            &&& to_fetch(st, connected, c) == enabled_ones(connected, c)
            &&& now.wf()
            &&& to_fetch(now, connected_then, then) == if arrived == asked {
                enabled_ones(connected_then, then)
            } else {
                Seq::<Provider>::empty()
            }
        }),
{
    lists_count_down(after_tick(st, to_fetch(st, connected, c).len() as int), arrived);
}

/// A provider that is switched off is never asked for its chat list, and one
/// that is connected and switched on is asked in each round.
pub proof fn only_enabled_providers_are_asked(v: Seq<Provider>, c: ProvidersConfig, p: Provider)
    ensures
        enabled_ones(v, c).contains(p) <==> v.contains(p) && switched_on(p, c),
    decreases v.len(),
{
    if v.len() > 0 {
        let front = v.drop_last();
        let rest = enabled_ones(front, c);
        only_enabled_providers_are_asked(front, c, p);
        assert(v =~= front.push(v.last()));
        assert(v.contains(p) <==> front.contains(p) || p == v.last()) by {
            if v.contains(p) {
                let i = choose|i: int| 0 <= i < v.len() && v[i] == p;
                if i < front.len() {
                    assert(front[i] == p);
                }
            }
            if front.contains(p) {
                let i = choose|i: int| 0 <= i < front.len() && front[i] == p;
                assert(v[i] == p);
            }
            assert(v[v.len() - 1] == v.last());
        }
        if switched_on(v.last(), c) {
            let out = rest.push(v.last());
            assert(out.contains(p) <==> rest.contains(p) || p == v.last()) by {
                if out.contains(p) {
                    let i = choose|i: int| 0 <= i < out.len() && out[i] == p;
                    if i < rest.len() {
                        assert(rest[i] == p);
                    }
                }
                if rest.contains(p) {
                    let i = choose|i: int| 0 <= i < rest.len() && rest[i] == p;
                    assert(out[i] == p);
                }
                assert(out[out.len() - 1] == v.last());
            }
        }
    }
}

impl LoopState {
    /// A round of chat lists is under way as long as lists are to come.
    pub open spec fn wf(self) -> bool {
        self.chatlist_sync_in_flight == (self.chatlist_sync_pending > 0)
    }

    /// Nothing is under way.
    pub fn new() -> (r: Self)
        ensures
            r == (LoopState {
                chats_loaded: false,
                history_refresh_in_flight: false,
                chatlist_sync_in_flight: false,
                chatlist_sync_pending: 0,
            }),
            r.wf(),
    {
        LoopState {
            chats_loaded: false,
            history_refresh_in_flight: false,
            chatlist_sync_in_flight: false,
            chatlist_sync_pending: 0,
        }
    }

    /// The poll timer ticked: the chat to fetch, if any.
    pub fn poll_tick(&mut self, open: Option<&ChatId>, connected: &Vec<Provider>) -> (r: Option<
        ChatId,
    >)
        requires
            open is Some ==> open.unwrap()@ != ChatIdV::Myself,
        ensures
            opt_view(r) == poll_target(
                *old(self),
                match open {
                    Some(id) => Some(id@),
                    None => None,
                },
                connected@,
            ),
            *final(self) == (LoopState {
                history_refresh_in_flight: old(self).history_refresh_in_flight || r is Some,
                ..*old(self)
            }),
            old(self).wf() ==> final(self).wf(),
    {
        match open {
            Some(id) => {
                if has_provider(connected, id.to_provider()) && !self.history_refresh_in_flight {
                    self.history_refresh_in_flight = true;
                    Some(id.clone())
                } else {
                    None
                }
            },
            None => None,
        }
    }

    /// The chat list timer ticked: the providers whose list to fetch, which are
    /// those switched on. Nothing happens before the first list arrived or while
    /// a round is under way.
    pub fn sync_tick(&mut self, connected: &Vec<Provider>, providers: &ProvidersConfig) -> (r: Vec<
        Provider,
    >)
        ensures
            r@ == to_fetch(*old(self), connected@, *providers),
            *final(self) == after_tick(*old(self), r@.len() as int),
            old(self).wf() ==> final(self).wf(),
    {
        let mut out: Vec<Provider> = Vec::new();
        if !self.chats_loaded || self.chatlist_sync_in_flight {
            return out;
        }
        let mut i: usize = 0;
        assert(out@ =~= enabled_ones(connected@.take(0), *providers));
        while i < connected.len()
            invariant
                i <= connected@.len(),
                out@ == enabled_ones(connected@.take(i as int), *providers),
            decreases connected@.len() - i,
        {
            assert(connected@.take(i as int + 1).drop_last() =~= connected@.take(i as int));
            if connected[i].is_enabled(providers) {
                out.push(connected[i]);
            }
            i += 1;
        }
        assert(connected@.take(i as int) =~= connected@);
        self.chatlist_sync_pending = out.len();
        self.chatlist_sync_in_flight = out.len() > 0;
        out
    }

    /// A fetch of the open chat ended: it is merged where that chat is still
    /// open and the fetch succeeded. Returns whether it was.
    pub fn history_result(
        &mut self,
        chats: &mut ChatState,
        id: &ChatId,
        result: Result<Vec<Message>, BackendError>,
    ) -> (r: bool)
        ensures
            *final(self) == (LoopState { history_refresh_in_flight: false, ..*old(self) }),
            old(self).wf() ==> final(self).wf(),
            r == (opened(old(chats)@, id@) && result is Ok),
            final(chats)@ == if r {
                history_refreshed(old(chats)@, id@, seen(result.unwrap()@))
            } else {
                old(chats)@
            },
    {
        self.history_refresh_in_flight = false;
        if !chats.is_open(id) {
            return false;
        }
        match result {
            Ok(history) => {
                chats.refresh_chat_history(id, history);
                true
            },
            Err(_) => false,
        }
    }

    /// A chat list of the round arrived: it is taken over where it could be
    /// fetched. Returns whether the list changed and is to be saved.
    pub fn chat_list_result(
        &mut self,
        chats: &mut ChatState,
        provider: Provider,
        result: Result<Vec<Chat>, BackendError>,
    ) -> (r: bool)
        ensures
            *final(self) == after_list(*old(self)),
            final(self).wf(),
            final(chats)@ == match result {
                Ok(list) => reconciled(old(chats)@, provider, seen(list@)),
                Err(_) => old(chats)@,
            },
            r == (final(chats)@.chats != old(chats)@.chats),
    {
        if self.chatlist_sync_pending > 0 {
            self.chatlist_sync_pending = self.chatlist_sync_pending - 1;
        }
        self.chatlist_sync_in_flight = self.chatlist_sync_pending > 0;
        match result {
            Ok(list) => chats.reconcile_provider_chats(provider, list),
            Err(_) => false,
        }
    }
}

/// Whether a provider's report asks for all chat lists to be fetched anew.
pub fn needs_reload(event: &BackendEvent) -> (r: bool)
    ensures
        r == (*event is Connected),
{
    match event {
        BackendEvent::Connected => true,
        _ => false,
    }
}

/// Whether the program runs inside iTerm2, by the terminal's variables.
pub fn is_iterm2(term_program: Option<&str>, lc_terminal: Option<&str>) -> (r: bool)
    ensures
        r == ((term_program is Some && term_program.unwrap()@ == "iTerm.app"@) || (lc_terminal is Some
            && lc_terminal.unwrap()@ == "iTerm2"@)),
{
    let a: bool = match term_program {
        Some(s) => same(s, "iTerm.app"),
        None => false,
    };
    let b: bool = match lc_terminal {
        Some(s) => same(s, "iTerm2"),
        None => false,
    };
    a || b
}

/// Whether the login screen is shown at the start. `authenticated` is known
/// where Telegram is connected.
pub fn telegram_needs_login(providers: &ProvidersConfig, authenticated: Option<bool>) -> (r: bool)
    ensures
        r == (providers.telegram.enabled && authenticated == Some(false)),
{
    if !providers.telegram.enabled {
        return false;
    }
    match authenticated {
        Some(a) => !a,
        None => false,
    }
}

/// A page of older messages to fetch: its chat, and the numeric id before
/// which it ends where the provider uses numbers.
pub struct PageRequest {
    pub chat: ChatId,
    pub offset_id: Option<i32>,
}

/// The number of messages on a page of older messages.
pub const HISTORY_PAGE: usize = 25;

/// The page of older messages to fetch: none where no chat is open, its
/// provider is not connected, or all of its messages are known.
pub fn load_more_history(chats: &ChatState, connected: &Vec<Provider>) -> (r: Option<PageRequest>)
    requires
        chats@.open_chat is Some ==> chats@.open_chat.unwrap().chat.id != ChatIdV::Myself,
    ensures
        match r {
            Some(p) => chats@.open_chat is Some && connected@.contains(
                provider_of(chats@.open_chat.unwrap().chat.id),
            ) && chats@.open_chat.unwrap().has_more_history && p.chat@
                == chats@.open_chat.unwrap().chat.id && p.offset_id == first_number(
                chats@.open_chat.unwrap().history,
            ),
            None => chats@.open_chat is None || !connected@.contains(
                provider_of(chats@.open_chat.unwrap().chat.id),
            ) || !chats@.open_chat.unwrap().has_more_history,
        },
{
    match &chats.open_chat {
        Some(open) => {
            if !has_provider(connected, open.chat.id.to_provider()) || !open.has_more_history {
                return None;
            }
            let offset_id: Option<i32> = if open.history.len() > 0 {
                open.history[0].message_id.to_i32()
            } else {
                None
            };
            assert(open@.history.len() == open.history@.len());
            Some(PageRequest { chat: open.chat.id.clone(), offset_id })
        },
        None => None,
    }
}

/// The numeric id of the oldest message, where it has one.
pub open spec fn first_number(history: Seq<MessageV>) -> Option<i32> {
    if history.len() > 0 {
        match int_value(history[0].message_id) {
            Some(n) => if i32::MIN <= n <= i32::MAX {
                Some(n as i32)
            } else {
                None
            },
            None => None,
        }
    } else {
        None
    }
}

/// The chats of the list that are drawn: those that match, or all of them where
/// no row is filtered.
pub open spec fn drawn_chats(chats: Seq<ChatV>, rows: Seq<usize>) -> Seq<ChatV>
    decreases rows.len(),
{
    if rows.len() == 0 {
        Seq::empty()
    } else {
        let rest = drawn_chats(chats, rows.drop_last());
        if rows.last() < chats.len() {
            rest.push(chats[rows.last() as int])
        } else {
            rest
        }
    }
}

/// The chats of the list that are drawn.
pub fn chats_to_draw(state: &ChatState) -> (r: Vec<Chat>)
    ensures
        seen(r@) == if state@.search.visible.len() == 0 {
            state@.chats
        } else {
            drawn_chats(state@.chats, state@.search.visible)
        },
{
    let rows: Vec<usize> = state.visible_indices();
    let mut out: Vec<Chat> = Vec::new();
    let ghost all = state@.chats;
    let mut i: usize = 0;
    if rows.len() == 0 {
        assert(seen(out@) =~= all.take(0));
        while i < state.chats.len()
            invariant
                i <= state.chats@.len(),
                all == seen(state.chats@),
                seen(out@) == all.take(i as int),
            decreases state.chats@.len() - i,
        {
            let ghost before = out@;
            out.push(state.chats[i].clone());
            assert(seen(out@) =~= seen(before).push(all[i as int]));
            assert(all.take(i as int + 1) =~= all.take(i as int).push(all[i as int]));
            i += 1;
        }
        assert(all.take(i as int) =~= all);
        return out;
    }
    assert(seen(out@) =~= drawn_chats(all, rows@.take(0)));
    while i < rows.len()
        invariant
            i <= rows@.len(),
            all == seen(state.chats@),
            seen(out@) == drawn_chats(all, rows@.take(i as int)),
        decreases rows@.len() - i,
    {
        let ghost before = out@;
        assert(rows@.take(i as int + 1).drop_last() =~= rows@.take(i as int));
        assert(all.len() == state.chats@.len());
        if rows[i] < state.chats.len() {
            out.push(state.chats[rows[i]].clone());
            assert(seen(out@) =~= seen(before).push(all[rows@[i as int] as int]));
        }
        i += 1;
    }
    assert(rows@.take(i as int) =~= rows@);
    out
}

}
