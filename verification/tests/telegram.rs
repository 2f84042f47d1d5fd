use sender::backend::telegram::{
    chats_of_dialogs, handle_stream_failure, handle_update, history_page, is_session_invalid,
    login_placeholder, login_plan, message_chat_id, normalize_telegram_message, password_result,
    pretty_peer_name, quote_of, reconnect_delay, sent_message, sign_in_result, sleep_with_cancel,
    telegram_chat, telegram_media_target, telegram_message_media, telegram_message_target, telegram_status_label,
    ChatsCache, ChatsStep, FetchStep, LazyStart, Listener, LoginRequest, MessageRequest,
    SignInOutcome, SleepStep, StreamEnd, TgDialog, TgMedia, TgMessage, TgStatus, TgUpdate,
    TokenKind,
};
use sender::backend::{
    BackendError, BackendEvent, Chat, ChatId, LoginStepState, MediaKind, MessageId,
};

fn message(id: i32, text: &str) -> TgMessage {
    TgMessage {
        id,
        text: text.to_string(),
        outgoing: false,
        sender_name: Some("Alice".to_string()),
        peer_name: Some("Friends".to_string()),
        peer_bare_id: Some(77),
        peer_id: Some(77),
        date: 500,
        reply_to: None,
        media: None,
    }
}

fn dialog(id: i64, name: &str) -> TgDialog {
    TgDialog {
        bare_id: Some(id),
        name: Some(name.to_string()),
        last_message_ts: Some(9),
        unread_count: 2,
        pinned: false,
        status: None,
    }
}

#[test]
fn listener_is_lazy_and_gated_on_enabled() {
    let mut lazy = LazyStart::new(false);
    assert!(lazy.parked, "no eager listener");
    assert!(!lazy.maybe_start());
    assert!(lazy.parked, "disabled subscribe stays inert");
    assert!(lazy.set_enabled(true));
    assert!(!lazy.parked, "enabled subscribe starts listener");
    assert!(!lazy.set_enabled(true));
    assert!(!lazy.parked, "listener started only once");
}

#[test]
fn a_message_becomes_a_message_of_its_chat() {
    let m = normalize_telegram_message(&message(5, "hi"), &ChatId::Telegram(77), &None, None);
    assert_eq!(m.message_id, MessageId::from("5"));
    assert_eq!(m.sender, "Alice");
    assert_eq!(m.text, "hi");
    assert_eq!(m.timestamp, 500);
    assert_eq!(message_chat_id(&message(5, "hi")), Some(ChatId::Telegram(77)));
    assert_eq!(pretty_peer_name(&message(5, "hi"), "x"), "Friends");
}

#[test]
fn media_is_recognised() {
    let mut m = message(1, "caption");
    m.media = Some(TgMedia::Photo);
    assert_eq!(telegram_message_media(&m).unwrap().kind, MediaKind::Image);
    m.media = Some(TgMedia::Document {
        video: false,
        voice: true,
        name: None,
        duration_secs: Some(3),
    });
    assert!(matches!(
        telegram_message_media(&m).unwrap().kind,
        MediaKind::Audio { duration_secs: Some(3), is_voice: true, .. }
    ));
    m.media = None;
    assert!(telegram_message_media(&m).is_none());
}

#[test]
fn presence_is_put_in_words() {
    assert_eq!(telegram_status_label(TgStatus::Online, 0).as_deref(), Some("online"));
    assert_eq!(telegram_status_label(TgStatus::Empty, 0), None);
    assert_eq!(
        telegram_status_label(TgStatus::Offline { was_online: 1000 }, 8200).as_deref(),
        Some("last seen 2h ago")
    );
}

#[test]
fn an_update_becomes_events() {
    let update = TgUpdate::NewMessage { msg: message(5, "hi"), reply_ctx: None };
    let (events, _) = handle_update(update, &None, 0);
    assert!(events.iter().any(|e| matches!(e, BackendEvent::MessageReceived(m) if m.text == "hi")));
    let (events, _) = handle_update(TgUpdate::Other, &None, 0);
    assert!(events.is_empty());
    let read = TgUpdate::ReadInbox { peer_id: 4, still_unread_count: 3 };
    let (events, _) = handle_update(read, &None, 0);
    assert!(matches!(
        events[0],
        BackendEvent::UnreadUpdated { chat: ChatId::Telegram(4), unread: true, unread_count: 3 }
    ));
}

#[test]
fn a_lost_session_is_not_tried_again() {
    assert!(is_session_invalid("AUTH_KEY_UNREGISTERED", true));
    assert!(!is_session_invalid("timeout", false));
    let lost = handle_stream_failure("AUTH_KEY_UNREGISTERED", 0, true, 5);
    assert!(matches!(lost.event, Some(BackendEvent::AuthInvalid(_))));
    assert_eq!(lost.delay, None);
    let late = handle_stream_failure("timeout", 5, false, 5);
    assert!(late.connection_lost);
    assert_eq!(late.delay, None);
    let early = handle_stream_failure("timeout", 0, false, 5);
    assert_eq!(early.delay, Some(reconnect_delay("timeout", 0, false)));
}

#[test]
fn a_listener_counts_its_attempts() {
    let mut listener = Listener::new();
    let next = listener.ended(StreamEnd::Failed("timeout".to_string()), false, false);
    assert_eq!(next.retry_after, Some(1));
    assert_eq!(listener.attempt, 1);
    assert!(!listener.reconnect(false, true), "nothing was lost yet");
    listener.connection_lost = true;
    assert!(!listener.reconnect(false, false), "a disabled provider stays away");
    assert!(listener.reconnect(false, true));
    let events = listener.started();
    assert!(matches!(events[0], BackendEvent::Connected));
    assert_eq!(listener.attempt, 0);
}

#[test]
fn a_wish_to_connect_again_counts_the_attempts_anew() {
    let failed = || StreamEnd::NotStarted("timeout".to_string());
    let mut listener = Listener::new();
    let mut last = listener.ended(failed(), false, false);
    while last.retry_after.is_some() {
        last = listener.ended(failed(), false, false);
    }
    assert_eq!(listener.attempt, 5);
    assert!(listener.connection_lost);
    assert!(!listener.reconnect(true, true), "the program is ending");
    assert_eq!(listener.attempt, 5);
    assert!(listener.reconnect(false, true));
    assert_eq!(listener.attempt, 0);
    assert_eq!(listener.ended(failed(), false, false).retry_after, Some(1));
}

#[test]
fn dialogs_become_rows_once_each() {
    let mut nameless = dialog(3, "x");
    nameless.bare_id = None;
    let chats = chats_of_dialogs(&vec![dialog(1, "A"), dialog(2, "B"), dialog(1, "A"), nameless]);
    let ids: Vec<ChatId> = chats.iter().map(|c| c.id.clone()).collect();
    assert_eq!(ids, vec![ChatId::Telegram(1), ChatId::Telegram(2)]);
    assert_eq!(chats[0].unread_count, 2);
}

#[test]
fn a_fresh_list_is_used_again() {
    let mut cache = ChatsCache::new();
    assert!(matches!(cache.next(0), ChatsStep::Fetch));
    let step = cache.fetched(0, Ok(vec![Chat::default()]));
    assert!(matches!(step, FetchStep::Done { ref chats, .. } if chats.len() == 1));
    assert!(matches!(cache.next(1), ChatsStep::UseCached(ref c) if c.len() == 1));
    cache.invalidate();
    assert!(matches!(cache.next(1), ChatsStep::Fetch));
}

#[test]
fn a_long_limit_fails_and_a_short_one_is_waited_out() {
    let mut cache = ChatsCache::new();
    let long = cache.fetched(0, Err(BackendError::FloodWait(100_000)));
    assert!(matches!(long, FetchStep::Fail { error: BackendError::FloodWait(_), .. }));
    let mut cache = ChatsCache::new();
    let short = cache.fetched(0, Err(BackendError::FloodWait(2)));
    assert!(matches!(short, FetchStep::WaitAndRetry { seconds: 2, .. }));
    let mut cache = ChatsCache::new();
    let other = cache.fetched(0, Err(BackendError::NotAuthenticated));
    assert!(matches!(other, FetchStep::Fail { error: BackendError::NotAuthenticated, .. }));
}

#[test]
fn a_wait_can_be_cancelled() {
    assert!(matches!(sleep_with_cancel(5000, 0, false), SleepStep::Sleep { millis: 250 }));
    assert!(matches!(sleep_with_cancel(5000, 5000, false), SleepStep::Over));
    assert!(matches!(
        sleep_with_cancel(5000, 1000, true),
        SleepStep::Cancelled(BackendError::FloodWait(4))
    ));
}

#[test]
fn requests_need_telegram_chats_and_numbers() {
    assert_eq!(telegram_chat(&ChatId::Telegram(4)), Ok(4));
    assert!(telegram_chat(&ChatId::WhatsApp("x".to_string())).is_err());
    let chat = ChatId::Telegram(4);
    assert_eq!(
        telegram_message_target(&chat, &MessageId::from("12"), MessageRequest::Edit),
        Ok((4, 12))
    );
    assert_eq!(
        telegram_message_target(&chat, &MessageId::from("local-1"), MessageRequest::Delete),
        Err(BackendError::Other("telegram delete needs a numeric message id".to_string()))
    );
}

#[test]
fn media_of_local_messages_is_nowhere() {
    let chat = ChatId::Telegram(4);
    assert_eq!(telegram_media_target(&chat, &MessageId::from("12")), Ok(Some((4, 12))));
    assert_eq!(telegram_media_target(&chat, &MessageId::from("local-1")), Ok(None));
    assert!(telegram_media_target(&ChatId::Myself, &MessageId::from("12")).is_err());
}

#[test]
fn a_page_is_turned_oldest_first() {
    let page = history_page(
        &vec![message(3, "new"), message(2, "old")],
        &ChatId::Telegram(77),
        &None,
    );
    assert_eq!(page[0].text, "old");
    assert_eq!(page[1].text, "new");
    assert_eq!(quote_of(&message(2, "old")).text, "old");
    let sent = sent_message(&message(9, "mine"), &ChatId::Telegram(77), None);
    assert_eq!(sent.message_id, MessageId::from("9"));
}

#[test]
fn signing_in_goes_step_by_step() {
    assert_eq!(login_plan(0, None), Ok(LoginRequest::RequestCode));
    assert_eq!(login_plan(1, Some(TokenKind::CodeRequested)), Ok(LoginRequest::SignIn));
    assert!(login_plan(1, None).is_err());
    assert!(login_plan(1, Some(TokenKind::PasswordRequired)).is_err());
    assert_eq!(login_plan(2, Some(TokenKind::PasswordRequired)), Ok(LoginRequest::CheckPassword));
    assert_eq!(sign_in_result(&SignInOutcome::SignedIn), Ok(LoginStepState::Done));
    assert_eq!(
        sign_in_result(&SignInOutcome::PasswordRequired { text: String::new() }),
        Ok(LoginStepState::NextStep)
    );
    assert!(sign_in_result(&SignInOutcome::InvalidCode { text: "bad".to_string() }).is_err());
    assert_eq!(password_result(&SignInOutcome::SignedIn), Ok(LoginStepState::Done));
    assert!(password_result(&SignInOutcome::InvalidPassword { text: "bad".to_string() }).is_err());
    assert_ne!(login_placeholder(0), login_placeholder(1));
}
