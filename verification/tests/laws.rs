use sender::backend::telegram::{chats_of_dialogs, reconnect_delay, TgDialog};
use sender::backend::{Chat, ChatId, Message, MessageId, Provider};
use sender::config::ProvidersConfig;
use sender::helpers::{calc_height, wrap_text};
use sender::layout::Rect;
use sender::text::{format_i64, parse_i64};
use sender::tui::chat::{ChatState, OpenChat};
use sender::tui::chat_widget::{body_spans, message_lines_at, write_box_height};
use sender::tui::line::{Color, Style};

fn message(id: &str, timestamp: i64) -> Message {
    Message {
        message_id: MessageId::from(id),
        chat: ChatId::Telegram(1),
        sender: "A".into(),
        author_id: None,
        text: id.into(),
        timestamp,
        from_me: false,
        msg_actions: Vec::new(),
        media: None,
        reply_to_id: None,
        reply_ctx: None,
        pending: false,
        failed: false,
    }
}

fn open(history: Vec<Message>) -> ChatState {
    ChatState {
        open_chat: Some(OpenChat {
            chat: Chat { id: ChatId::Telegram(1), ..Default::default() },
            history,
            has_more_history: true,
        }),
        ..Default::default()
    }
}

fn ids(state: &ChatState) -> Vec<String> {
    let history = &state.open_chat.as_ref().unwrap().history;
    history.iter().map(|m| m.message_id.0.clone()).collect()
}

#[test]
fn drafts_come_back_and_blank_ones_do_not() {
    let mut state = ChatState::default();
    let (a, b) = (ChatId::Telegram(1), ChatId::Telegram(2));
    state.save_draft(&a, "half a".to_string());
    state.save_draft(&b, "other".to_string());
    assert_eq!(state.load_draft(&a), Some("half a"));
    state.save_draft(&a, "  \n".to_string());
    assert_eq!(state.load_draft(&a), None);
    assert_eq!(state.load_draft(&b), Some("other"));
}

#[test]
fn the_selected_message_comes_back() {
    let mut state = open(vec![message("1", 1), message("2", 2), message("3", 3)]);
    state.message_list_state.select(Some(1));
    state.save_message_selection();
    state.message_list_state.select(None);
    state.restore_message_selection(3);
    assert_eq!(state.message_list_state.selected(), Some(1));
    state.restore_message_selection(1);
    assert_eq!(state.message_list_state.selected(), Some(0));
    state.restore_message_selection(0);
    assert_eq!(state.message_list_state.selected(), None);
}

#[test]
fn a_refresh_merges_by_id_and_orders_by_time() {
    let mut state = open(vec![message("1", 1), message("3", 3)]);
    let mut edited = message("3", 3);
    edited.text = "edited".into();
    state.refresh_chat_history(&ChatId::Telegram(1), vec![edited, message("2", 2)]);
    assert_eq!(ids(&state), ["1", "2", "3"]);
    assert_eq!(state.open_chat.as_ref().unwrap().history[2].text, "edited");
}

#[test]
fn replacing_failing_and_removing_messages() {
    let mut state = open(vec![message("local-1", 1), message("2", 2)]);
    assert!(state.mark_failed(&MessageId::from("local-1")));
    assert!(state.find_message(&MessageId::from("local-1")).unwrap().failed);
    assert!(state.replace_message(&MessageId::from("local-1"), message("7", 1)));
    assert_eq!(ids(&state), ["7", "2"]);
    assert!(state.update_message_text(&MessageId::from("2"), "new"));
    assert_eq!(state.find_message(&MessageId::from("2")).unwrap().text, "new");
    assert!(state.remove_message(&MessageId::from("7")));
    assert!(!state.remove_message(&MessageId::from("7")));
    assert_eq!(ids(&state), ["2"]);
}

#[test]
fn reading_a_chat_clears_its_row() {
    let mut state = ChatState {
        chats: vec![Chat {
            id: ChatId::Telegram(1),
            unread: true,
            unread_count: 3,
            ..Default::default()
        }],
        ..Default::default()
    };
    state.mark_read(&ChatId::Telegram(1));
    assert!(!state.chats[0].unread);
    assert_eq!(state.chats[0].unread_count, 0);
}

#[test]
fn level_chats_of_two_providers_keep_the_order_of_arrival() {
    let tg = vec![Chat { id: ChatId::Telegram(1), ..Default::default() }];
    let wa = vec![Chat { id: ChatId::WhatsApp("a".into()), ..Default::default() }];
    let mut first = ChatState::default();
    first.reconcile_provider_chats(Provider::Telegram, tg.clone());
    first.reconcile_provider_chats(Provider::WhatsApp, wa.clone());
    let mut second = ChatState::default();
    second.reconcile_provider_chats(Provider::WhatsApp, wa);
    second.reconcile_provider_chats(Provider::Telegram, tg);
    assert_eq!(first.chats[0].id, ChatId::Telegram(1));
    assert_eq!(second.chats[0].id, ChatId::WhatsApp("a".into()));
}

#[test]
fn a_repeated_report_changes_nothing_even_after_repeated_rows() {
    let row = |id: i64, ts: i64| Chat {
        id: ChatId::Telegram(id),
        last_message_ts: Some(ts),
        ..Default::default()
    };
    let other = |ts: i64| Chat {
        id: ChatId::WhatsApp("1@s.whatsapp.net".to_string()),
        last_message_ts: Some(ts),
        ..Default::default()
    };
    let mut state = ChatState::default();
    state.chats = vec![other(5), row(9, 1), other(5), other(2)];
    let report = vec![row(1, 5), row(2, 2), row(1, 7)];
    assert!(state.reconcile_provider_chats(Provider::Telegram, report.clone()));
    let once = state.chats.clone();
    assert_eq!(once.len(), 3, "each id is listed once");
    assert!(!state.reconcile_provider_chats(Provider::Telegram, report));
    assert_eq!(state.chats, once);
}

#[test]
fn a_switch_turned_twice_is_where_it_was() {
    let mut providers = ProvidersConfig::default();
    for provider in Provider::all() {
        let before = provider.is_enabled(&providers);
        provider.toggle_enabled(&mut providers);
        assert_ne!(provider.is_enabled(&providers), before);
        provider.toggle_enabled(&mut providers);
        assert_eq!(provider.is_enabled(&providers), before);
    }
}

#[test]
fn waits_double_up_to_half_a_minute() {
    let waits: Vec<u64> = (0..8).map(|n| reconnect_delay("timeout", n, false)).collect();
    assert_eq!(waits, [1, 2, 4, 8, 16, 30, 30, 30]);
    assert_eq!(reconnect_delay("request dropped", 3, false), 0);
    assert_eq!(reconnect_delay("FLOOD_WAIT_9", 0, false), 30);
}

#[test]
fn dialogs_without_a_number_are_passed_over() {
    let dialog = |id: i64| TgDialog {
        bare_id: Some(id),
        name: None,
        last_message_ts: None,
        unread_count: 0,
        pinned: true,
        status: None,
    };
    let chats = chats_of_dialogs(&vec![dialog(0), dialog(5)]);
    assert_eq!(chats.len(), 1);
    assert_eq!(chats[0].contact_name, "Unknown");
    assert!(chats[0].fixed);
}

#[test]
fn wrapped_lines_fit_and_lose_no_word() {
    let lines = wrap_text("the quick  brown fox", 9);
    assert_eq!(lines, ["the quick", "brown fox"]);
    assert_eq!(lines.join(" "), "the quick brown fox");
    assert!(wrap_text("incomprehensible", 5).iter().all(|l| l.chars().count() <= 5));
    let lines = wrap_text("an incomprehensible word", 7);
    assert_eq!(lines, ["an", "incomp…", "word"]);
    assert_eq!(lines.join(" "), "an incomp… word");
    assert_eq!(wrap_text("ab c", 1), ["…", "c"]);
}

#[test]
fn popups_grow_with_their_text() {
    let area = Rect { x: 0, y: 0, width: 80, height: 24 };
    assert_eq!(calc_height("one\n\ntwo", 40, area, false), 7);
    assert_eq!(calc_height("one\n\ntwo", 40, area, true), 9);
    assert_eq!(calc_height(&"x".repeat(72), 40, area, false), 6);
    assert_eq!(calc_height("\n\n", 2, area, false), 6);
    let tall = Rect { x: 0, y: 0, width: 80, height: u16::MAX };
    assert_eq!(calc_height(&"x\n".repeat(70_000), 40, tall, false), 65_531);
    assert_eq!(calc_height(&"x\n".repeat(65_536), 40, tall, true), 65_531);
}

#[test]
fn highlighting_changes_no_character() {
    let text = "Ünïcode Hello hELLo";
    let line = body_spans(text, Some("HELLO"), Style::fg(Color::Gray));
    assert_eq!(line.to_text(), text);
    assert!(line.spans.len() > 1);
}

#[test]
fn a_reply_takes_one_line_more() {
    let plain = message("words", 0);
    let mut reply = plain.clone();
    reply.reply_to_id = Some(MessageId::from("x"));
    let height = |m: &Message| message_lines_at(m, "now", 40, Some(5), None).len();
    assert_eq!(height(&reply), height(&plain) + 1);
    assert!(write_box_height(100, 100, 10) <= 10);
    assert_eq!(write_box_height(70_000, usize::MAX, 40), 40);
}

#[test]
fn integers_are_read_back() {
    for n in [0, 7, -7, i64::MAX, i64::MIN] {
        assert_eq!(parse_i64(&format_i64(n)), Some(n));
    }
}
