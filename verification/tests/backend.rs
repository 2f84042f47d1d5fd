use sender::backend::{Chat, ChatId, MediaKind, MessageId, OutboundMessage};

#[test]
fn chat_id_is_unique_per_platform() {
    let telegram = ChatId::Telegram(42);
    let telegram_again = ChatId::Telegram(42);
    let whatsapp = ChatId::WhatsApp("42@s.whatsapp.net".into());
    assert_eq!(telegram, telegram_again);
    assert_ne!(telegram, whatsapp);
}

#[test]
fn dialog_carries_chat_list_fields() {
    let chat = Chat {
        id: ChatId::WhatsApp("5511999999999@s.whatsapp.net".into()),
        contact_name: "Alice".into(),
        last_message_ts: Some(1_700_000_000),
        unread: true,
        unread_count: 1,
        ..Default::default()
    };
    assert_eq!(chat.contact_name, "Alice");
    assert_eq!(chat.last_message_ts, Some(1_700_000_000));
    assert!(chat.unread);
}

#[test]
fn chat_status_label_ignores_empty_status() {
    let mut chat = Chat::default();
    assert_eq!(chat.status_label(), None);

    chat.status = Some("   ".into());
    assert_eq!(chat.status_label(), None);

    chat.status = Some("online".into());
    assert_eq!(chat.status_label(), Some("online"));
}

#[test]
fn local_message_ids_are_distinguished_from_server_ids() {
    assert!(MessageId::from("local-1").is_local());
    assert!(!MessageId::from("12345").is_local());
    assert_eq!(MessageId::from("12345").to_i32(), Some(12345));
    assert_eq!(MessageId::from("local-1").to_i32(), None);
}


#[test]
fn outbound_message_distinguishes_text_from_media() {
    let text = OutboundMessage::Text { text: "hi".into() };
    let media = OutboundMessage::Media {
        kind: MediaKind::Image,
        data: vec![1, 2, 3],
        file_name: "photo.jpg".into(),
        caption: Some("caption".into()),
    };
    assert!(std::mem::discriminant(&text) != std::mem::discriminant(&media));
    assert_eq!(media, media.clone());
    assert_ne!(
        media,
        OutboundMessage::Media {
            kind: MediaKind::Audio {
                duration_secs: Some(2),
                is_voice: true,
                waveform: None,
            },
            data: vec![1, 2, 3],
            file_name: "photo.jpg".into(),
            caption: Some("caption".into()),
        }
    );
}
