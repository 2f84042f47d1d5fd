use sender::backend::{
    BackendError, Chat, ChatId, MediaKind, Message, MessageAction, MessageId, MessageMedia,
    Provider, ReplyContext,
};
use sender::config::{Config, Keymap, KeymapConfig};
use sender::keys::{to_ascii_lower, to_ascii_upper, KeyCode, KeyEvent, KeyModifiers};
use sender::layout::{inner_area, popup_area, split_columns, split_rows, Part, Rect};
use sender::tui::chat::{ChatState, OpenChat};
use sender::tui::chat_widget::Focus;
use sender::tui::line::Color;
use sender::tui::list_state::ListState;
use sender::tui::popup::{
    image_plan_in, message_actions_line, message_plan_in, notice_plan, plan_popup, question_plan,
};
use sender::tui::ui::{
    audio_note, handle_key, handle_login_key, handle_main_key, handle_popup_key,
    handle_settings_key, message_popup, popup_awaits, AudioAction, KeyRoute,
    LoginAction, MainAction, MainContext, PopupAction, PopupKind, PopupState, Screen,
    SettingsAction,
};

fn press(code: KeyCode) -> KeyEvent {
    KeyEvent::new(code, KeyModifiers::none())
}

fn keymap() -> Keymap {
    KeymapConfig::default().parse().unwrap()
}

fn audio_demo_message() -> Message {
    Message {
        message_id: MessageId::from("audio-1"),
        chat: ChatId::Myself,
        sender: "Maria".into(),
        author_id: None,
        text: String::new(),
        timestamp: 100,
        from_me: false,
        msg_actions: vec![MessageAction::Reply, MessageAction::Delete],
        media: Some(MessageMedia {
            kind: MediaKind::Audio { duration_secs: Some(2), is_voice: true, waveform: None },
            caption: Some("voice note".into()),
            file_name: Some("voice.ogg".into()),
        }),
        reply_to_id: None,
        reply_ctx: None,
        pending: false,
        failed: false,
    }
}

fn audio_popup() -> PopupState {
    PopupState {
        popup_type: PopupKind::Audio { msg: audio_demo_message(), error_note: None },
        scroll_idx: 0,
    }
}

fn context(focus: Focus) -> MainContext {
    MainContext {
        insert: false,
        focus,
        list_search_active: false,
        list_search_typing: false,
        message_search_active: false,
        message_search_typing: false,
        rate_limited: false,
        selected_chat: Some(0),
    }
}

#[test]
fn audio_popup_digit_routes_to_message_action() {
    let id = MessageId::from("audio-1");
    let (popup, action) =
        handle_popup_key(audio_popup(), Some(&id), false, &keymap(), press(KeyCode::Char('1')));
    assert!(popup.is_none());
    assert!(matches!(
        action,
        PopupAction::Reply { ref id, was_audio: true } if *id == MessageId::from("audio-1")
    ));
}

#[test]
fn dismissing_audio_popup_is_clean() {
    let id = MessageId::from("audio-1");
    let (popup, action) =
        handle_popup_key(audio_popup(), Some(&id), false, &keymap(), press(KeyCode::Esc));
    assert!(popup.is_none());
    assert!(matches!(action, PopupAction::Dismissed { was_audio: true }));
}

#[test]
fn audio_keys_work_only_on_audio() {
    let (popup, action) =
        handle_popup_key(audio_popup(), None, false, &keymap(), press(KeyCode::Char(' ')));
    assert!(popup.is_some());
    assert!(matches!(action, PopupAction::Audio(AudioAction::PlayPause)));
    let note = PopupState { popup_type: PopupKind::Info("x".into()), scroll_idx: 0 };
    let (_, action) = handle_popup_key(note, None, false, &keymap(), press(KeyCode::Char('<')));
    assert!(matches!(action, PopupAction::Nothing));
}

#[test]
fn a_popup_takes_every_key_but_quit() {
    let km = keymap();
    let quit = KeyEvent::new(KeyCode::Char('c'), KeyModifiers::control());
    assert_eq!(handle_key(&km, quit, true, Screen::Main), KeyRoute::Quit);
    let j = press(KeyCode::Char('j'));
    assert_eq!(handle_key(&km, j, true, Screen::Settings), KeyRoute::Popup);
    assert_eq!(handle_key(&km, j, false, Screen::Settings), KeyRoute::Settings);
    assert_eq!(handle_key(&km, j, false, Screen::Login), KeyRoute::Login);
    assert_eq!(handle_key(&km, j, false, Screen::Main), KeyRoute::Main);
}

#[test]
fn settings_toggle_the_selected_provider() {
    let km = keymap();
    let mut list = ListState::default();
    list.select(Some(1));
    let action = handle_settings_key(&km, km.select, &mut list);
    assert!(matches!(action, SettingsAction::Toggle(Provider::WhatsApp)));
    let mut config = Config::default();
    Provider::WhatsApp.toggle_enabled(&mut config.providers);
    assert!(Provider::WhatsApp.is_enabled(&config.providers));
    assert!(matches!(
        handle_settings_key(&km, km.dismiss, &mut list),
        SettingsAction::Close
    ));
}

#[test]
fn login_keys_submit_cancel_or_type() {
    let km = keymap();
    assert!(matches!(handle_login_key(&km, press(KeyCode::Enter)), LoginAction::Submit));
    assert!(matches!(handle_login_key(&km, press(KeyCode::Esc)), LoginAction::Cancel));
    assert!(matches!(handle_login_key(&km, press(KeyCode::Char('7'))), LoginAction::Type));
}

#[test]
fn selecting_a_chat_loads_it() {
    let km = keymap();
    let mut state = ChatState {
        chats: vec![Chat { id: ChatId::Telegram(1), ..Default::default() }],
        ..Default::default()
    };
    state.chat_list_state.select(Some(0));
    let action = handle_main_key(&mut state, context(Focus::ChatList), &km, km.select);
    assert!(matches!(action, MainAction::LoadChat(0)));
}

#[test]
fn typing_goes_to_the_search_field() {
    let km = keymap();
    let mut state = ChatState {
        chats: vec![Chat {
            id: ChatId::Telegram(1),
            contact_name: "Quinn".into(),
            ..Default::default()
        }],
        ..Default::default()
    };
    state.begin_search();
    let cx = MainContext {
        list_search_active: true,
        list_search_typing: true,
        ..context(Focus::ChatList)
    };
    handle_main_key(&mut state, cx, &km, press(KeyCode::Char('q')));
    assert_eq!(state.search.query_text(), "q");
    assert_eq!(state.search.indices(), &[0]);
}

#[test]
fn scrolling_moves_the_selected_message() {
    let km = keymap();
    let mut a = audio_demo_message();
    a.chat = ChatId::Telegram(1);
    let mut b = a.clone();
    b.message_id = MessageId::from("audio-2");
    let mut state = ChatState {
        open_chat: Some(OpenChat {
            chat: Chat { id: ChatId::Telegram(1), ..Default::default() },
            history: vec![a, b],
            has_more_history: false,
        }),
        ..Default::default()
    };
    state.message_list_state.select(Some(1));
    handle_main_key(&mut state, context(Focus::Chat), &km, km.scroll_up);
    assert_eq!(state.message_list_state.selected(), Some(0));
}

#[test]
fn the_kind_of_message_decides_the_popup() {
    assert!(matches!(message_popup(audio_demo_message(), None), PopupKind::Audio { .. }));
    let mut picture = audio_demo_message();
    picture.media = Some(MessageMedia { kind: MediaKind::Image, caption: None, file_name: None });
    assert!(matches!(message_popup(picture, None), PopupKind::Image(_)));
    let mut text = audio_demo_message();
    text.media = None;
    let quote = ReplyContext {
        id: MessageId::from("q"),
        sender: "Bob".into(),
        text: "before".into(),
        timestamp: 1,
    };
    match message_popup(text, Some(quote)) {
        PopupKind::Message(m) => assert_eq!(m.reply_ctx.unwrap().text, "before"),
        other => panic!("expected a message, got {other:?}"),
    }
}

#[test]
fn a_download_is_kept_only_for_its_popup() {
    let popup = Some(audio_popup());
    let id = MessageId::from("audio-1");
    assert!(popup_awaits(&popup, true, &ChatId::Myself, &id));
    assert!(!popup_awaits(&popup, true, &ChatId::Myself, &MessageId::from("other")));
    assert!(!popup_awaits(&popup, false, &ChatId::Myself, &id));
    assert!(!popup_awaits(&None, true, &ChatId::Myself, &id));
    assert_eq!(audio_note(&Ok(Some(vec![1]))), None);
    assert!(audio_note(&Ok(None)).is_some());
    assert!(audio_note(&Err(BackendError::NotAuthenticated)).is_some());
}

#[test]
fn popups_lie_inside_their_area() {
    let area = Rect { x: 0, y: 0, width: 80, height: 24 };
    let popup = popup_area(area, 40, 10);
    assert_eq!(popup, Rect { x: 20, y: 7, width: 40, height: 10 });
    let plan = notice_plan("something happened", "Info", Color::Green, area);
    assert!(plan.area.width <= area.width && plan.area.height <= area.height);
    assert!(plan.lines.iter().any(|l| l.to_text().contains("something happened")));
    let question = question_plan("Delete it?", 0, area);
    assert!(question.lines.iter().any(|l| l.to_text().contains("Delete it?")));
    let tall = Rect { x: 0, y: 0, width: 80, height: u16::MAX };
    assert_eq!(question_plan(&"?\n".repeat(65_536), 0, tall).area.height, 65_531);
    let kind = PopupKind::Message(audio_demo_message());
    let plan = plan_popup(&kind, 0, "01/01/1970 00:00", "", area);
    assert!(plan.actions.is_some());
}

#[test]
fn actions_are_numbered() {
    let line = message_actions_line(&audio_demo_message()).to_text();
    assert!(line.contains('1') && line.contains("Reply"), "got {line}");
}

#[test]
fn areas_are_divided() {
    let area = Rect { x: 0, y: 0, width: 10, height: 6 };
    let rows = split_rows(area, &vec![Part::Fill(1), Part::Length(2)]);
    assert_eq!(rows[0], Rect { x: 0, y: 0, width: 10, height: 4 });
    assert_eq!(rows[1], Rect { x: 0, y: 4, width: 10, height: 2 });
    let columns = split_columns(area, &vec![Part::Length(3), Part::Min(1)]);
    assert_eq!(columns[0], Rect { x: 0, y: 0, width: 3, height: 6 });
    assert_eq!(columns[1], Rect { x: 3, y: 0, width: 7, height: 6 });
    assert_eq!(inner_area(area, 1, 1), Rect { x: 1, y: 1, width: 8, height: 4 });
    assert_eq!(inner_area(area, 6, 0), Rect { x: 0, y: 0, width: 0, height: 0 });
}

fn asked(part: &Part) -> u32 {
    match *part {
        Part::Length(n) | Part::Min(n) => u32::from(n),
        Part::Fill(_) => 0,
    }
}

/// Checks a division along one direction, given the starts and sizes of the
/// rectangles.
fn check_division(start: u16, size: u16, parts: &[Part], got: &[(u16, u16)]) {
    let start = u32::from(start);
    let end = (start + u32::from(size)).min(u32::from(u16::MAX));
    assert_eq!(got.len(), parts.len());
    for (s, n) in got {
        assert!(start <= u32::from(*s), "{parts:?} {got:?}");
        assert!(u32::from(*s) + u32::from(*n) <= end, "{parts:?} {got:?}");
    }
    let total: u32 = parts.iter().map(asked).sum();
    if total > end - start {
        return;
    }
    let spare = end - start - total;
    let mut at = start;
    for (part, (s, n)) in parts.iter().zip(got) {
        let grown = if matches!(part, Part::Length(_)) { 0 } else { spare };
        assert_eq!(u32::from(*s), at, "{parts:?} {got:?}");
        assert_eq!(u32::from(*n), asked(part) + grown, "{parts:?} {got:?}");
        at += asked(part) + grown;
    }
}

#[test]
fn parts_that_fit_get_what_they_ask_for() {
    let lists = [
        vec![],
        vec![Part::Length(3)],
        vec![Part::Length(2), Part::Length(0), Part::Length(5)],
        vec![Part::Fill(1), Part::Length(4)],
        vec![Part::Fill(1), Part::Length(1), Part::Length(1)],
        vec![Part::Fill(7), Part::Length(12), Part::Length(1)],
        vec![Part::Length(1), Part::Fill(0), Part::Length(6)],
        vec![
            Part::Length(1),
            Part::Length(1),
            Part::Length(1),
            Part::Length(4),
            Part::Length(1),
            Part::Min(1),
            Part::Length(1),
        ],
        vec![Part::Length(40), Part::Min(30), Part::Length(20)],
    ];
    for parts in &lists {
        for start in [0, 1, 17, 65_000, u16::MAX] {
            for size in [0, 1, 2, 3, 5, 8, 9, 10, 11, 24, 25, 90, 131, 600, u16::MAX] {
                let area = Rect { x: start, y: 3, width: size, height: 9 };
                let columns = split_columns(area, parts);
                assert!(columns.iter().all(|c| c.y == 3 && c.height == 9));
                let got: Vec<(u16, u16)> = columns.iter().map(|c| (c.x, c.width)).collect();
                check_division(start, size, parts, &got);
                let area = Rect { x: 5, y: start, width: u16::MAX, height: size };
                let rows = split_rows(area, parts);
                assert!(rows.iter().all(|r| r.x == 5 && r.width == u16::MAX));
                let got: Vec<(u16, u16)> = rows.iter().map(|r| (r.y, r.height)).collect();
                check_division(start, size, parts, &got);
            }
        }
    }
}

#[test]
fn popups_stand_in_the_middle() {
    let area = Rect { x: 2, y: 1, width: 11, height: 6 };
    assert_eq!(popup_area(area, 4, 3), Rect { x: 6, y: 3, width: 4, height: 3 });
    assert_eq!(popup_area(area, 40, 6), area, "cut to the area");
    for start in [0, 3, 500, 65_530] {
        for room in [0, 1, 2, 3, 10, 79, 80, 255] {
            for length in [0, 1, 2, 7, 38, 80, 81, u16::MAX] {
                let area = Rect { x: start, y: start, width: room, height: room };
                let popup = popup_area(area, length, length);
                let room = room.min(u16::MAX - start);
                let size = length.min(room);
                let at = start + (room - size + 1) / 2;
                let expected = Rect { x: at, y: at, width: size, height: size };
                assert_eq!(popup, expected, "{length} in {area:?}");
            }
        }
    }
}

#[test]
fn the_action_bar_is_the_last_row() {
    let area = Rect { x: 0, y: 0, width: 80, height: 24 };
    let message = audio_demo_message();
    let plan = plan_popup(&PopupKind::Message(message.clone()), 9_999, "now", "", area);
    let bar = plan.actions.as_ref().unwrap().0;
    assert_eq!(bar.y, plan.area.y + plan.area.height - 2);
    assert_eq!((bar.x, bar.height), (plan.area.x + 1, 1));
    let image = plan_popup(&PopupKind::Image(message.clone()), 0, "now", "", area);
    let picture = image.picture.unwrap();
    assert_eq!(picture.y, image.area.y + 1);
    let caption = image.lines.len() as u16;
    assert_eq!(picture.height, image.area.height - 3 - caption);
    let rows: Vec<Rect> = (0..3).map(|i| Rect { x: 0, y: i, width: 9, height: 2 }).collect();
    let lines = plan.lines;
    let total = lines.len();
    let given = message_plan_in(&message, lines, 9_999, area, &rows);
    assert_eq!(given.scroll, total.saturating_sub(2));
    assert_eq!(given.actions.unwrap().0, rows[2]);
    let given = image_plan_in(&message, "now", Vec::new(), area, &rows);
    assert_eq!((given.picture, given.caption), (Some(rows[0]), None));
}

#[test]
fn a_shifted_letter_is_the_capital_letter() {
    let capital = press(KeyCode::Char('G'));
    let shifted = KeyEvent::new(KeyCode::Char('g'), KeyModifiers::shift());
    assert_eq!(capital, shifted);
    assert_ne!(press(KeyCode::Char('g')), shifted);
    let meta = KeyModifiers { other: true, ..KeyModifiers::none() };
    assert_ne!(press(KeyCode::Char('g')), KeyEvent::new(KeyCode::Char('g'), meta));
    assert_eq!(to_ascii_upper('z'), 'Z');
    assert_eq!(to_ascii_lower('É'), 'É');
}
