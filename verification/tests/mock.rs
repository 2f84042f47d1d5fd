use sender::backend::mock::{mock_data, mock_data_at, MockMessenger};
use sender::backend::ChatId;

#[test]
fn chats_expose_platform_name() {
    let mock = MockMessenger::new("Telegram");
    let chats = mock.chats();
    assert!(!chats.is_empty());
    assert_eq!(mock.platform(), "Telegram");
    assert!(mock.is_authenticated());
}

#[test]
fn send_emits_message_and_updates_history() {
    let mut mock = MockMessenger::new("Telegram");
    let chat = mock.chats().remove(0).id;
    let post = mock.send(&chat, "hi", 7);
    assert!(post.message.from_me && post.message.text == "hi");
    assert_eq!(post.row.map(|c| c.id), Some(chat.clone()));
    assert_eq!(post.preview, "You: hi");
    assert_eq!(mock.history(&chat).last().unwrap().message_id.as_str(), "mock-outgoing-1");
}

#[test]
fn mock_data_is_deterministic() {
    let data = mock_data("Telegram");
    assert_eq!(data.chats.len(), 4);
    assert!(data.history.entries.iter().all(|(_, h)| !h.messages.is_empty()));
    assert_eq!(data.incoming_chat, ChatId::Telegram(102));
    assert_eq!(data.echo_chat, ChatId::Telegram(104));
    assert!(data
        .chats
        .iter()
        .any(|c| c.id == data.echo_chat && c.contact_name == "Echo Bot"));
}

#[test]
fn echo_chat_replies_to_sent_message() {
    let mut mock = MockMessenger::new("Telegram");
    let echo = mock.data.echo_chat.clone();
    mock.send(&echo, "hello there", 7);
    let echoed = mock.echo(&echo, "hello there", 8).unwrap().message;
    assert_eq!(echoed.text, "hello there");
    assert_eq!(echoed.sender, "Echo Bot");
    assert!(!echoed.from_me);
    let history = mock.history(&echo);
    assert!(history.iter().any(|m| m.message_id == echoed.message_id));
}

#[test]
fn incoming_messages_are_persisted_to_history() {
    let mut mock = MockMessenger::new("Telegram");
    let incoming = mock.data.incoming_chat.clone();
    mock.incoming(1, 9);
    let history = mock.history(&incoming);
    assert!(
        history.iter().any(|m| m.sender == "Telegram Mock"),
        "expected a persisted incoming message"
    );
    let last = history.last().unwrap();
    assert_eq!(last.message_id.as_str(), "mock-Telegram-incoming-1");
    assert_eq!(last.text, "simulated incoming message #1");
}

#[test]
fn only_the_echo_chat_answers() {
    let mut mock = MockMessenger::new("Telegram");
    assert!(mock.echo(&ChatId::Telegram(101), "hi", 1).is_none());
    assert_eq!(mock.outgoing_seq, 0);
}

#[test]
fn other_names_have_other_chats() {
    let data = mock_data_at("WhatsApp", 5);
    assert_eq!(data.chats.len(), 3);
    assert_eq!(data.chats[0].contact_name, "Bob");
    assert_eq!(data.chats[0].unread_count, 5);
    let bob = data.history.get(&data.incoming_chat).unwrap();
    assert_eq!(bob.messages[0].text, "suh");
    assert_eq!(bob.messages[0].timestamp, 5);
}

#[test]
fn reading_a_mock_chat_clears_its_counter() {
    let mut mock = MockMessenger::new("Telegram");
    mock.set_read(&ChatId::Telegram(102));
    assert!(!mock.data.chats[1].unread);
    assert_eq!(mock.data.chats[1].unread_count, 0);
    assert_eq!(mock.history(&ChatId::Telegram(102)).len(), 30);
    assert_eq!(mock.history(&ChatId::Telegram(102))[29].text, "bye!");
}
