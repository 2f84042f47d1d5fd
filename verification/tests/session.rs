use sender::backend::whatsapp::{
    handle_wa_media, is_self_chat, name_of_result, pairing_step, pn_chat_id, preview_line,
    reply_stanza_id, seed_chats, wa_target, UsyncResult, WaContent, WaEvent, WaInbound, WaInfo, WaQuote,
    WaTarget, WhatsAppState,
};
use sender::backend::{
    AuthSteps, BackendError, BackendEvent, Chat, ChatId, ClientFailure, LoginStepState, MediaKind,
    Message, MessageId, Provider, RpcFailure, SendFailure, TelegramFailure,
};
use sender::config::{Config, ProvidersConfig};
use sender::jid::JidParts;
use sender::layout::Rect;
use sender::order::order;
use sender::table::{ChatMap, TextMap};
use sender::text::{
    format_i64, is_blank, lines, parse_i32, parse_i64, split, split_once, split_whitespace, trim,
};
use sender::tui::chat::{ChatState, OpenChat};
use sender::tui::chat_widget::{chat_pane, chat_pane_in, stamps_of, Focus};
use sender::tui::run::{
    chats_to_draw, is_iterm2, load_more_history, needs_reload, telegram_needs_login, LoopState,
};
use sender::tui::screens::{
    chat_row_line, loading_content, overlay_area, plan_chat_list, plan_login, plan_login_in,
    progress, settings_row_text, spinner_symbol, LoadingSpinner,
};

fn text(body: &str) -> WaContent {
    WaContent {
        image: false,
        video: false,
        audio: false,
        sticker: false,
        document: false,
        caption: None,
        file_name: None,
        text: Some(body.to_string()),
        text_quote: None,
        image_quote: None,
        video_quote: None,
        document_quote: None,
    }
}

fn inbound(chat: &str, sender: &str, id: &str, at: i64, from_me: bool, body: &str) -> WaInbound {
    WaInbound {
        chat: chat.to_string(),
        broadcast: false,
        info: WaInfo {
            id: id.to_string(),
            sender: JidParts::parse(sender).unwrap(),
            push_name: "Alice".to_string(),
            timestamp: at,
            from_me,
        },
        content: text(body),
    }
}

fn row(id: &str, name: &str) -> Chat {
    Chat {
        id: ChatId::WhatsApp(id.to_string()),
        contact_name: name.to_string(),
        ..Default::default()
    }
}

const ALICE: &str = "15550000001@s.whatsapp.net";

#[test]
fn an_arriving_message_is_unread_and_kept_once() {
    let mut st = WhatsAppState::default();
    let m = inbound(ALICE, ALICE, "m1", 100, false, "hi");
    let got = st.ingest(&m, &TextMap::new()).unwrap();
    assert_eq!(got.text, "hi");
    assert_eq!(st.chats[0].unread_count, 1);
    assert!(st.chats[0].unread);
    st.ingest(&m, &TextMap::new());
    let id = ChatId::WhatsApp(ALICE.to_string());
    assert_eq!(st.history(&id).len(), 1);
}

#[test]
fn broadcasts_are_not_chats() {
    let mut st = WhatsAppState::default();
    let mut m = inbound(ALICE, ALICE, "m1", 100, false, "hi");
    m.broadcast = true;
    assert!(st.ingest(&m, &TextMap::new()).is_none());
    assert!(st.chats.is_empty());
}

#[test]
fn both_addresses_of_a_peer_become_one_row() {
    let mut st = WhatsAppState::default();
    st.chats.push(row(ALICE, "Alice"));
    st.chats.push(row("255202829570287@lid", "255202829570287"));
    assert_eq!(st.lid_bases(), ["255202829570287"]);
    let mut found = TextMap::new();
    found.insert("255202829570287".to_string(), "15550000001".to_string());
    let (merged, events) = st.merge_lid_duplicates(&found);
    assert_eq!(merged, 1);
    assert_eq!(st.chats.len(), 1);
    assert_eq!(st.chats[0].contact_name, "Alice");
    assert!(events.iter().any(|e| matches!(e, BackendEvent::ChatRemoved { .. })));
}

#[test]
fn the_directory_names_unknown_peers() {
    let mut st = WhatsAppState::default();
    st.chats.push(row("255202829570287@lid", "255202829570287"));
    let asked = st.enrich_candidates(&Vec::new());
    assert_eq!(asked.len(), 1);
    let answer = UsyncResult {
        jid: asked[0].clone(),
        pn_jid: None,
        username: None,
        verified_name: Some(Some("ACME Bots".to_string())),
        is_business: true,
    };
    assert_eq!(
        name_of_result(&answer, &TextMap::new(), &TextMap::new()).as_deref(),
        Some("ACME Bots")
    );
    let events = st.enrich_chat_names(&vec![answer], &TextMap::new());
    assert_eq!(st.chats[0].contact_name, "ACME Bots");
    assert!(st.chats[0].verified);
    assert!(matches!(&events[0], BackendEvent::ChatList(c) if c.len() == 1));
    assert!(matches!(&events[1], BackendEvent::Status(s) if s == "names updated"));
    assert!(st.enrich_candidates(&Vec::new()).is_empty(), "nobody is asked for twice");
}

#[test]
fn events_of_the_phone_change_the_rows() {
    let mut st = WhatsAppState::default();
    st.chats.push(row(ALICE, "Alice"));
    st.handle_event(WaEvent::Pin { jid: ALICE.to_string(), pinned: Some(true) }, 0);
    assert!(st.chats[0].fixed);
    let out = st.handle_event(
        WaEvent::Presence {
            from: JidParts::parse(ALICE).unwrap(),
            unavailable: false,
            last_seen: None,
        },
        0,
    );
    assert_eq!(out.events.len(), 1);
    assert_eq!(st.status(&JidParts::parse(ALICE).unwrap(), 0).as_deref(), Some("online"));
    st.handle_event(WaEvent::DeleteChat { jid: ALICE.to_string() }, 0);
    assert!(st.chats.is_empty());
    let out = st.handle_event(WaEvent::PairingQrCode("code".to_string()), 0);
    assert!(matches!(&out.events[0], BackendEvent::QrCode(q) if q == "code"));
}

#[test]
fn reading_clears_the_counter_and_names_the_last_message() {
    let mut st = WhatsAppState::default();
    st.ingest(&inbound(ALICE, ALICE, "m1", 100, false, "hi"), &TextMap::new());
    let jid = JidParts::parse(ALICE).unwrap();
    let (chat, receipt) = st.read_receipt(&jid, ALICE);
    assert_eq!(receipt.unwrap().message_id, MessageId::from("m1"));
    st.set_read(&chat, &chat);
    assert_eq!(st.chats[0].unread_count, 0);
    assert!(!st.chats[0].unread);
}

#[test]
fn a_sent_message_is_kept() {
    let mut st = WhatsAppState::default();
    let id = ChatId::WhatsApp(ALICE.to_string());
    st.ingest(&inbound(ALICE, ALICE, "m1", 100, false, "hi"), &TextMap::new());
    let sent = st.record_sent(&id, "m2".to_string(), "hello", Some(MessageId::from("m1")), 200);
    assert!(sent.from_me);
    assert_eq!(st.history(&id).len(), 2);
    assert_eq!(st.reply_context(&id, &MessageId::from("m2")).unwrap().text, "hi");
    assert!(st.reply_context(&id, &MessageId::from("m1")).is_none());
    assert_eq!(st.previews.get(&id).unwrap(), "You: hello");
}

#[test]
fn media_and_quotes_are_found() {
    let mut c = text("x");
    c.text = None;
    c.image = true;
    c.caption = Some("sun".to_string());
    let media = handle_wa_media(&c).unwrap();
    assert_eq!(media.kind, MediaKind::Image);
    assert_eq!(media.caption.as_deref(), Some("sun"));
    assert!(handle_wa_media(&text("x")).is_none());
    c.image_quote = Some(WaQuote { stanza_id: Some("q1".to_string()) });
    assert_eq!(reply_stanza_id(&c).as_deref(), Some("q1"));
    assert_eq!(reply_stanza_id(&text("x")), None);
}

#[test]
fn small_rules_of_the_phone_network() {
    assert_eq!(preview_line("Bob", "hey", false), "Bob: hey");
    assert_eq!(preview_line("Bob", "hey", true), "You: hey");
    assert_eq!(pn_chat_id("15550000001"), ChatId::WhatsApp(ALICE.to_string()));
    assert!(is_self_chat(&ChatId::WhatsApp(ALICE.to_string()), &None, &Some(ALICE.to_string())));
    assert_eq!(pairing_step(true), LoginStepState::Done);
    let saved = vec![row(ALICE, "Alice"), Chat { id: ChatId::Telegram(1), ..Default::default() }];
    assert_eq!(seed_chats(&saved).len(), 1);
}

#[test]
fn requests_need_an_address() {
    assert!(matches!(
        wa_target(&ChatId::WhatsApp(ALICE.to_string())),
        WaTarget::Address(ref j) if j.user == "15550000001"
    ));
    assert_eq!(wa_target(&ChatId::Telegram(1)), WaTarget::Foreign);
    assert_eq!(
        wa_target(&ChatId::WhatsApp("not-a-jid".to_string())),
        WaTarget::Malformed(
            "WhatsApp: invalid chat jid: Invalid JID format: unknown server 'not-a-jid'".to_string()
        )
    );
}

#[test]
fn addresses_are_read() {
    let device = JidParts::parse("15550000001:7@s.whatsapp.net").unwrap();
    assert_eq!(device.to_non_ad_string(), ALICE);
    assert_eq!(device.user_base(), "15550000001");
    assert!(device.is_pn() && !device.is_lid() && !device.is_group());
    assert!(JidParts::parse("1-2@g.us").unwrap().is_group());
    assert!(JidParts::parse("5@lid").unwrap().is_lid());
}

#[test]
fn faults_become_errors() {
    let flood = TelegramFailure {
        authentication: false,
        rpc: Some(RpcFailure { code: 420, name: "FLOOD_WAIT".to_string(), value: Some(7) }),
        text: "flood".to_string(),
    };
    assert_eq!(BackendError::from_telegram(&flood), BackendError::FloodWait(7));
    assert_eq!(
        BackendError::from_client(&ClientFailure::NotConnected).message(),
        "operation failed: WhatsApp: not connected"
    );
    assert_eq!(
        BackendError::from_send(&SendFailure::NotLoggedIn),
        BackendError::NotAuthenticated
    );
    assert_eq!(BackendError::NotAuthenticated.message(), "not authenticated");
}

#[test]
fn chat_ids_are_written_and_read() {
    for id in [ChatId::Telegram(-5), ChatId::WhatsApp(ALICE.to_string()), ChatId::Myself] {
        assert_eq!(ChatId::from_text(&id.to_text()), Some(id));
    }
    assert_eq!(ChatId::from_text("nonsense"), None);
}

#[test]
fn a_history_poll_waits_for_the_one_before() {
    let mut run = LoopState::new();
    run.chats_loaded = true;
    let open = ChatId::Telegram(1);
    let connected = vec![Provider::Telegram];
    assert_eq!(run.poll_tick(Some(&open), &connected), Some(open.clone()));
    assert_eq!(run.poll_tick(Some(&open), &connected), None);
    let mut chats = ChatState::default();
    run.history_result(&mut chats, &open, Err(BackendError::NotAuthenticated));
    assert_eq!(run.poll_tick(Some(&open), &Vec::new()), None);
    assert_eq!(run.poll_tick(Some(&open), &connected), Some(open));
}

#[test]
fn a_list_sync_ends_with_its_last_answer() {
    let mut config = Config::default();
    config.providers.telegram.enabled = true;
    config.providers.whatsapp = true;
    let mut run = LoopState::new();
    run.chats_loaded = true;
    let connected = vec![Provider::Telegram, Provider::WhatsApp];
    let asked = run.sync_tick(&connected, &config.providers);
    assert_eq!(asked, connected);
    assert!(run.sync_tick(&connected, &config.providers).is_empty());
    let mut chats = ChatState::default();
    let fresh = vec![Chat { id: ChatId::Telegram(1), ..Default::default() }];
    assert!(run.chat_list_result(&mut chats, Provider::Telegram, Ok(fresh)));
    assert!(run.chatlist_sync_in_flight);
    run.chat_list_result(&mut chats, Provider::WhatsApp, Err(BackendError::NotAuthenticated));
    assert!(!run.chatlist_sync_in_flight);
    assert_eq!(chats.chats.len(), 1);
}

#[test]
fn a_provider_that_is_off_does_not_hold_up_the_list_sync() {
    let mut config = Config::default();
    config.providers.telegram.enabled = true;
    config.providers.whatsapp = false;
    let mut run = LoopState::new();
    let connected = vec![Provider::Telegram, Provider::WhatsApp];
    assert!(run.sync_tick(&connected, &config.providers).is_empty(), "no list arrived yet");
    run.chats_loaded = true;
    let mut chats = ChatState::default();
    for _ in 0..3 {
        assert_eq!(run.sync_tick(&connected, &config.providers), [Provider::Telegram]);
        assert_eq!(run.chatlist_sync_pending, 1);
        run.chat_list_result(&mut chats, Provider::Telegram, Ok(Vec::new()));
        assert!(!run.chatlist_sync_in_flight);
    }
    config.providers.telegram.enabled = false;
    assert!(run.sync_tick(&connected, &config.providers).is_empty());
    assert!(!run.chatlist_sync_in_flight, "a round without lists is over at once");
    config.providers.whatsapp = true;
    assert_eq!(run.sync_tick(&connected, &config.providers), [Provider::WhatsApp]);
}

#[test]
fn older_messages_are_asked_for_before_the_first_numbered_one() {
    let m = |id: &str| Message {
        message_id: MessageId::from(id),
        chat: ChatId::Telegram(1),
        sender: "A".into(),
        author_id: None,
        text: "x".into(),
        timestamp: 0,
        from_me: false,
        msg_actions: Vec::new(),
        media: None,
        reply_to_id: None,
        reply_ctx: None,
        pending: false,
        failed: false,
    };
    let mut state = ChatState {
        chats: vec![Chat { id: ChatId::Telegram(1), ..Default::default() }],
        open_chat: Some(OpenChat {
            chat: Chat { id: ChatId::Telegram(1), ..Default::default() },
            history: vec![m("12"), m("13")],
            has_more_history: true,
        }),
        ..Default::default()
    };
    let page = load_more_history(&state, &vec![Provider::Telegram]).unwrap();
    assert_eq!(page.offset_id, Some(12));
    state.open_chat.as_mut().unwrap().has_more_history = false;
    assert!(load_more_history(&state, &vec![Provider::Telegram]).is_none());
    let area = Rect { x: 0, y: 0, width: 60, height: 20 };
    state.chat_list_state.select(Some(0));
    let stamps = stamps_of(&state.open_chat.as_ref().unwrap().history);
    let pane = chat_pane(&mut state, &stamps, Focus::Chat, &vec![String::new()], 5, None, area);
    assert_eq!(pane.items.unwrap().len(), 2);
    assert_eq!(pane.areas.messages, Rect { x: 0, y: 0, width: 60, height: 17 });
    assert_eq!(pane.areas.write, Rect { x: 0, y: 17, width: 60, height: 3 });
    assert_eq!(pane.areas.content, Rect { x: 1, y: 1, width: 56, height: 15 });
    assert_eq!(pane.areas.scrollbar, Rect { x: 58, y: 1, width: 1, height: 15 });
    assert_eq!(state.visible_page, 15);
    let mut areas = pane.areas;
    areas.inner.height = 4;
    let pane = chat_pane_in(&mut state, &stamps, Focus::Chat, None, areas);
    assert_eq!(pane.areas, areas);
    assert_eq!(state.visible_page, 4);
    assert_eq!(chats_to_draw(&state).len(), 1);
}

#[test]
fn environment_and_reload_rules() {
    assert!(is_iterm2(Some("iTerm.app"), None));
    assert!(is_iterm2(None, Some("iTerm2")));
    assert!(!is_iterm2(Some("xterm"), None));
    assert!(!needs_reload(&BackendEvent::QrCode(String::new())));
    let mut providers = ProvidersConfig::default();
    assert!(!telegram_needs_login(&providers, Some(false)));
    providers.telegram.enabled = true;
    providers.telegram.api_id = 1;
    providers.telegram.api_hash = "h".to_string();
    assert!(telegram_needs_login(&providers, Some(false)));
    assert!(!telegram_needs_login(&providers, Some(true)));
}

#[test]
fn screens_are_planned() {
    let mut chat = row(ALICE, "Alice");
    chat.unread = true;
    chat.unread_count = 4;
    chat.fixed = true;
    let line = chat_row_line(&chat).to_text();
    assert!(line.contains("Alice") && line.contains('4'), "got {line}");
    let plan = plan_chat_list(&vec![chat], None, Focus::ChatList, false, None);
    assert_eq!(plan.rows.len(), 1);
    assert_eq!(plan.title.to_text(), " Chats ");
    assert!(settings_row_text(Provider::WhatsApp, &ProvidersConfig::default()).contains("WhatsApp"));
    let steps = vec![AuthSteps::Phone, AuthSteps::Code];
    assert!(progress(&steps, 0).to_text().contains(AuthSteps::Phone.label()));
    let inner = Rect { x: 0, y: 0, width: 40, height: 10 };
    let login = plan_login(Provider::Telegram, &steps, 1, Some("wrong"), inner);
    assert!(login.error.contains("wrong"));
    assert!(!login.masked);
    let at = |y: u16, height: u16| Rect { y, height, ..inner };
    assert_eq!(login.progress_area, at(0, 1));
    assert_eq!(login.label_area, at(2, 1));
    assert_eq!(login.input_area, at(3, 3));
    assert_eq!(login.error_area, at(8, 1));
    let rows: Vec<Rect> = (0..7).map(|i| at(i, 2)).collect();
    let given = plan_login_in(Provider::Telegram, &steps, 1, None, &rows);
    assert_eq!((given.input_area, given.error_area), (at(3, 3), at(5, 2)));
    assert_eq!(given.error, "");
    let mut spinner = LoadingSpinner::new();
    spinner.tick();
    assert_eq!(spinner.frame(), 1);
    assert_ne!(spinner_symbol(0), spinner_symbol(1));
    assert!(!loading_content(Some("Loading"), 0).is_empty());
    assert!(overlay_area(Rect { x: 0, y: 0, width: 80, height: 24 }).is_some());
}

#[test]
fn ordering_is_by_pin_then_time_and_stable() {
    let mut rows: Vec<Chat> = (0..4)
        .map(|i| Chat { id: ChatId::Telegram(i), last_message_ts: Some(5), ..Default::default() })
        .collect();
    rows[2].fixed = true;
    rows[3].last_message_ts = Some(9);
    order(&mut rows);
    let ids: Vec<ChatId> = rows.iter().map(|c| c.id.clone()).collect();
    assert_eq!(
        ids,
        [ChatId::Telegram(2), ChatId::Telegram(3), ChatId::Telegram(0), ChatId::Telegram(1)]
    );
    let before = rows.clone();
    order(&mut rows);
    assert_eq!(rows, before);
}

#[test]
fn tables_keep_the_last_value_of_a_key() {
    let mut table: ChatMap<String> = ChatMap::new();
    table.insert(ChatId::Telegram(1), "a".to_string());
    table.insert(ChatId::Telegram(1), "b".to_string());
    assert_eq!(table.get(&ChatId::Telegram(1)).unwrap(), "b");
    table.remove(&ChatId::Telegram(1));
    assert!(!table.contains_key(&ChatId::Telegram(1)));
}

#[test]
fn text_is_cut_as_expected() {
    assert_eq!(trim("\u{a0} a b \t"), "a b");
    assert!(is_blank(" \n"));
    assert_eq!(split("a+b+", '+'), ["a", "b", ""]);
    assert_eq!(split_once("a@b@c", '@'), Some(("a".to_string(), "b@c".to_string())));
    assert_eq!(lines("a\r\nb\n"), ["a", "b"]);
    assert_eq!(split_whitespace("  a \t b "), ["a", "b"]);
    assert_eq!(format_i64(i64::MIN), "-9223372036854775808");
    assert_eq!(parse_i64("-9223372036854775808"), Some(i64::MIN));
    assert_eq!(parse_i64("9223372036854775808"), None);
    assert_eq!(parse_i32("+7"), Some(7));
    assert_eq!(parse_i32("2147483648"), None);
    assert_eq!(parse_i32(""), None);
}
