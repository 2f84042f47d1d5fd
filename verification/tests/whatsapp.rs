use sender::backend::whatsapp::{
    format_pn, name_from_lid_pn, own_chat_id, presence_label, resolve_conversation_name,
    resolve_sender_name, should_skip_conversation, to_senders_msg, History, UsyncResult, WaContent,
    WaConversation, WaHistorySync, WaInbound, WaInfo, WaKey, WaPushname, WaWebMessage,
    WhatsAppState,
};
use sender::backend::{Chat, ChatId, Message, MessageAction};
use sender::helpers::now;
use sender::jid::JidParts;
use sender::table::{TextMap, TextSet};
use whatsapp_rust::Jid;

fn pn(num: &str) -> JidParts {
    JidParts::pn(num)
}

fn blank() -> WaConversation {
    WaConversation {
        id: String::new(),
        name: None,
        display_name: None,
        pn_jid: None,
        unread_count: None,
        pinned: None,
        conversation_timestamp: None,
        is_parent_group: None,
        is_marketing_message_thread: None,
        pnh_duplicate_lid_thread: None,
        suspended: None,
        terminated: None,
        read_only: None,
        messages: Vec::new(),
    }
}

fn text_message(text: &str) -> WaContent {
    WaContent {
        image: false,
        video: false,
        audio: false,
        sticker: false,
        document: false,
        caption: None,
        file_name: None,
        text: Some(text.to_string()),
        text_quote: None,
        image_quote: None,
        video_quote: None,
        document_quote: None,
    }
}

fn msg_info(sender: &JidParts, push_name: &str, id: &str, from_me: bool) -> WaInfo {
    WaInfo {
        id: id.into(),
        sender: sender.clone(),
        push_name: push_name.into(),
        timestamp: 1000,
        from_me,
    }
}

/// A message of a synced conversation.
fn web_msg(
    participant: Option<&str>,
    id: &str,
    ts: u64,
    from_me: bool,
    push_name: &str,
    text: &str,
) -> Option<WaWebMessage> {
    Some(WaWebMessage {
        key: Some(WaKey {
            id: Some(id.to_string()),
            from_me: Some(from_me),
            participant: participant.map(str::to_string),
        }),
        message: Some(text_message(text)),
        timestamp: Some(ts),
        push_name: Some(push_name.to_string()),
    })
}

fn conversation(id: &str, messages: Vec<Option<WaWebMessage>>) -> WaConversation {
    WaConversation {
        id: id.to_string(),
        messages,
        ..blank()
    }
}

#[test]
fn skip_filter_drops_ghost_lid_rows() {
    let ghost = WaConversation {
        id: "255202829570287@lid".to_string(),
        ..blank()
    };
    assert!(
        should_skip_conversation(&ghost).is_some(),
        "never-started LID row with no pn is a ghost"
    );

    // A real LID chat has thread metadata and/or a peer phone number.
    let real_lid = WaConversation {
        id: "255202829570287@lid".to_string(),
        pn_jid: Some("15550000001@s.whatsapp.net".to_string()),
        ..blank()
    };
    assert!(should_skip_conversation(&real_lid).is_none());

    let real_pn = WaConversation {
        id: "15550000002@s.whatsapp.net".to_string(),
        ..blank()
    };
    assert!(should_skip_conversation(&real_pn).is_none());

    // A group the account left (read_only) is not a chat anymore.
    let left_group = WaConversation {
        id: "111222333@g.us".to_string(),
        read_only: Some(true),
        ..blank()
    };
    assert!(should_skip_conversation(&left_group).is_some());

    // A live joined group is kept.
    let joined_group = WaConversation {
        id: "111222333@g.us".to_string(),
        read_only: Some(false),
        ..blank()
    };
    assert!(should_skip_conversation(&joined_group).is_none());

    // pnh duplicate / marketing / suspended / parent community are junk.
    for conv in [
        WaConversation {
            id: "255202829570287@lid".to_string(),
            pnh_duplicate_lid_thread: Some(true),
            ..blank()
        },
        WaConversation {
            id: "15550000003@s.whatsapp.net".to_string(),
            is_marketing_message_thread: Some(true),
            ..blank()
        },
        WaConversation {
            id: "15550000003@s.whatsapp.net".to_string(),
            suspended: Some(true),
            ..blank()
        },
    ] {
        assert!(should_skip_conversation(&conv).is_some());
    }
}

#[test]
fn lid_conversation_resolves_name_via_pn_jid() {
    let mut pushnames = TextMap::new();
    pushnames.insert(
        "15550000001@s.whatsapp.net".to_string(),
        "Alice".to_string(),
    );
    let empty = TextMap::new();
    let no_verified = TextSet::new();

    // LID-keyed thread; the contact name must come from the PN pushname.
    let lid = WaConversation {
        id: "255202829570287@lid".to_string(),
        pn_jid: Some("15550000001@s.whatsapp.net".to_string()),
        ..blank()
    };
    assert_eq!(
        resolve_conversation_name(&lid, &pushnames, &empty, &no_verified),
        ("Alice".to_string(), false),
        "LID chat resolves through pn_jid"
    );

    // PN-keyed thread without a name/display_name falls back to pushname.
    let pn_chat = WaConversation {
        id: "15550000001@s.whatsapp.net".to_string(),
        ..blank()
    };
    assert_eq!(
        resolve_conversation_name(&pn_chat, &pushnames, &empty, &no_verified),
        ("Alice".to_string(), false)
    );

    // A LID thread with no PN, no pushname and no usync name now falls
    // back to the formatted phone number when usync supplied it.
    let mut usync = TextMap::new();
    usync.insert(
        "15550000004@lid".to_string(),
        "+15 55 0000-0004".to_string(),
    );
    let lid_learned = WaConversation {
        id: "15550000004@lid".to_string(),
        ..blank()
    };
    assert_eq!(
        resolve_conversation_name(&lid_learned, &pushnames, &usync, &no_verified),
        ("+15 55 0000-0004".to_string(), false)
    );

    // A verified business peer: name resolves from usync with verified=true.
    usync.insert(
        "15550000003@s.whatsapp.net".to_string(),
        "ACME Bots".to_string(),
    );
    let mut verified = TextSet::new();
    verified.insert("15550000003@s.whatsapp.net".to_string(), ());
    let biz = WaConversation {
        id: "15550000005@lid".to_string(),
        pn_jid: Some("15550000003@s.whatsapp.net".to_string()),
        ..blank()
    };
    assert_eq!(
        resolve_conversation_name(&biz, &pushnames, &usync, &verified),
        ("ACME Bots".to_string(), true),
        "usync entry found via pn_jid overrides the raw LID"
    );

    // A LID thread with no PN, no pushname, no usync name and no phone
    // fallback keeps the bare LID.
    let bare = WaConversation {
        id: "255202829570287@lid".to_string(),
        ..blank()
    };
    assert_eq!(
        resolve_conversation_name(&bare, &pushnames, &empty, &no_verified),
        ("255202829570287".to_string(), false)
    );
}

#[test]
fn format_pn_matches_whatsapp_layout() {
    assert_eq!(format_pn("15550000003"), "+15 55 000-0003");
    assert_eq!(format_pn("15551234567"), "+15 55 123-4567");
    assert_eq!(format_pn("123"), "+123");
    assert_eq!(format_pn("15550000004@lid"), "+15 55 000-0004");
}

#[test]
fn name_from_lid_pn_formats_numbers_for_lid_keyed_chats() {
    // Fake LID↔PN mappings learned locally from message traffic, with no
    // push name cached: the formatted number must be the fallback so a
    // LID-keyed chat never shows as a bare LID.
    let empty = TextMap::new();
    let cases = [
        ("15550000001", "+15 55 000-0001"),
        ("15550000002", "+15 55 000-0002"),
        ("15550000003", "+15 55 000-0003"),
        ("15550000004", "+15 55 000-0004"),
    ];
    for (pn, expected) in cases {
        assert_eq!(name_from_lid_pn(pn, &empty), expected, "for {pn}");
    }
}

#[test]
fn name_from_lid_pn_prefers_synced_pushname() {
    let mut pushnames = TextMap::new();
    pushnames.insert(
        "15550000002@s.whatsapp.net".to_string(),
        "Test Pushname".to_string(),
    );
    assert_eq!(name_from_lid_pn("15550000002", &pushnames), "Test Pushname");
}

#[test]
fn upsert_keeps_known_group_title_when_sync_carries_raw_jid() {
    let mut st = WhatsAppState::default();
    let group = "15550000001-111222333@g.us";
    let chat_id = ChatId::jid_to_chat_id(group);

    // Full sync record with the real subject.
    let titled = WaConversation {
        id: group.to_string(),
        name: Some("Teste".to_string()),
        ..blank()
    };

    st.upsert_conversation(&titled, chat_id.clone());
    assert_eq!(st.chats[0].contact_name, "Teste");

    // Periodic sync record whose subject is the raw JID (empty on the
    // phone): must not clobber the known title.
    let raw = WaConversation {
        id: group.to_string(),
        name: Some(group.to_string()),
        ..blank()
    };
    st.upsert_conversation(&raw, chat_id.clone());
    assert_eq!(
        st.chats[0].contact_name, "Teste",
        "a raw-JID subject must not downgrade the group title"
    );

    // A genuinely new group without a subject renders its JID until a
    // real title arrives.
    let new_group = "111222333444@g.us";
    let fresh = WaConversation {
        id: new_group.to_string(),
        name: Some(new_group.to_string()),
        ..blank()
    };
    st.upsert_conversation(&fresh, ChatId::jid_to_chat_id(new_group));
    assert_eq!(st.chats[1].contact_name, new_group);
}

#[test]
fn upsert_self_chat_is_named_myself() {
    let mut st = WhatsAppState {
        own_lid: Some("123456789012345@lid".to_string()),
        own_pn: Some("15551234567@s.whatsapp.net".to_string()),
        ..Default::default()
    };

    // Self-chat keyed by the own phone number, even with a pushname that
    // would otherwise resolve.
    let conv = WaConversation {
        id: "15551234567@s.whatsapp.net".to_string(),
        name: Some("Test".to_string()),
        ..blank()
    };
    st.upsert_conversation(&conv, ChatId::jid_to_chat_id("15551234567@s.whatsapp.net"));
    assert_eq!(st.chats[0].contact_name, "Myself");
    assert!(!st.chats[0].verified);

    // Self-chat keyed by the own LID (no phone twin yet) is Myself too.
    let lid_conv = WaConversation {
        id: "123456789012345@lid".to_string(),
        conversation_timestamp: Some(1),
        ..blank()
    };
    st.upsert_conversation(&lid_conv, ChatId::jid_to_chat_id("123456789012345@lid"));
    assert_eq!(st.chats[1].contact_name, "Myself");

    // A peer chat is untouched by the self-chat rule.
    let peer = WaConversation {
        id: "15559998877@s.whatsapp.net".to_string(),
        name: Some("Alice".to_string()),
        ..blank()
    };
    st.upsert_conversation(&peer, ChatId::jid_to_chat_id("15559998877@s.whatsapp.net"));
    assert_eq!(st.chats[2].contact_name, "Alice");
}

#[test]
fn upsert_from_message_names_self_chat_myself() {
    let msg = Message {
        message_id: "s-1".into(),
        chat: ChatId::jid_to_chat_id("15551234567@s.whatsapp.net"),
        sender: "You".into(),
        text: "hello myself".into(),
        timestamp: 1,
        from_me: true,
        author_id: None,
        media: None,
        msg_actions: Vec::new(),
        reply_to_id: None,
        reply_ctx: None,
        pending: false,
        failed: false,
    };

    let mut st = WhatsAppState {
        own_pn: Some("15551234567@s.whatsapp.net".to_string()),
        ..Default::default()
    };
    st.upsert_chat_from_message(ChatId::jid_to_chat_id("15551234567@s.whatsapp.net"), &msg);
    assert_eq!(st.chats[0].contact_name, "Myself");
    assert_eq!(st.chats[0].unread_count, 0);

    // A from-me message to a peer row still uses "You".
    let mut st2 = WhatsAppState {
        own_pn: Some("15551234567@s.whatsapp.net".to_string()),
        ..Default::default()
    };
    st2.upsert_chat_from_message(ChatId::jid_to_chat_id("15559998877@s.whatsapp.net"), &msg);
    assert_eq!(st2.chats[0].contact_name, "You");

    // A self row that already exists (seeded from a previous cache with the
    // formatted own number) is renamed by an arriving self-message.
    let mut st3 = WhatsAppState {
        own_pn: Some("15551234567@s.whatsapp.net".to_string()),
        chats: vec![Chat {
            id: ChatId::WhatsApp("15551234567@s.whatsapp.net".to_string()),
            contact_name: "+15 55 123-4567".to_string(),
            ..Default::default()
        }],
        ..Default::default()
    };
    st3.upsert_chat_from_message(ChatId::jid_to_chat_id("15551234567@s.whatsapp.net"), &msg);
    assert_eq!(st3.chats[0].contact_name, "Myself");
    assert!(!st3.chats[0].verified);
}

#[test]
fn name_self_chats_renames_cached_self_rows() {
    let mut st = WhatsAppState {
        own_lid: Some("123456789012345@lid".to_string()),
        own_pn: Some("15551234567@s.whatsapp.net".to_string()),
        chats: vec![
            Chat {
                id: ChatId::WhatsApp("15551234567@s.whatsapp.net".to_string()),
                contact_name: "+15 55 123-4567".to_string(),
                verified: true,
                ..Default::default()
            },
            Chat {
                id: ChatId::WhatsApp("123456789012345@lid".to_string()),
                contact_name: "123456789012345".to_string(),
                ..Default::default()
            },
            Chat {
                id: ChatId::WhatsApp("15559998877@s.whatsapp.net".to_string()),
                contact_name: "Alice".to_string(),
                ..Default::default()
            },
        ],
        ..Default::default()
    };

    st.name_self_chats();

    assert_eq!(st.chats[0].contact_name, "Myself");
    assert!(!st.chats[0].verified);
    assert_eq!(st.chats[1].contact_name, "Myself");
    assert_eq!(st.chats[2].contact_name, "Alice");
}

#[test]
fn chat_id_drops_device_qualifier() {
    let jids = [
        "15551234567@s.whatsapp.net".parse::<Jid>().unwrap(),
        Jid::pn("15551234567").with_device(7),
        Jid::pn("15551234567"),
    ];
    let expected = ChatId::WhatsApp("15551234567@s.whatsapp.net".to_string());
    for jid in &jids {
        assert_eq!(
            ChatId::jid_to_chat_id(&jid.to_string()),
            expected,
            "for {jid}"
        );
    }
}

#[test]
fn chat_id_from_str_normalizes_group() {
    let id = ChatId::jid_to_chat_id("123456789@g.us");
    assert_eq!(id, ChatId::WhatsApp("123456789@g.us".to_string()));
    // A non-parseable string is preserved rather than dropped.
    assert_eq!(
        ChatId::jid_to_chat_id("garbage-not-a-jid"),
        ChatId::WhatsApp("garbage-not-a-jid".to_string())
    );
}

#[test]
fn sender_uses_push_name_then_cache_then_jid() {
    let sender = pn("15550000001");
    let mut pushnames = TextMap::new();
    pushnames.insert(
        "15550000001@s.whatsapp.net".to_string(),
        "Cached Name".to_string(),
    );
    let no_lid_pn = TextMap::new();

    // 1. Message push name wins.
    assert_eq!(
        resolve_sender_name("Alice", &sender, &pushnames, &no_lid_pn),
        "Alice"
    );
    // 2. Falls back to the push-name cache.
    assert_eq!(
        resolve_sender_name("", &sender, &pushnames, &no_lid_pn),
        "Cached Name"
    );
    // 3. Falls back to the bare JID user part.
    let empty = TextMap::new();
    assert_eq!(
        resolve_sender_name("", &sender, &empty, &no_lid_pn),
        "15550000001"
    );
}

#[test]
fn sender_resolves_lid_author_via_lid_pn_mapping() {
    let sender = JidParts::parse("255202829570287@lid").unwrap();
    let mut pushnames = TextMap::new();
    pushnames.insert(
        "15550000007@s.whatsapp.net".to_string(),
        "Test Sender".to_string(),
    );
    let mut lid_pn = TextMap::new();
    lid_pn.insert("255202829570287".to_string(), "15550000007".to_string());

    // Cached push name for the peer's phone number wins over the bare LID.
    assert_eq!(
        resolve_sender_name("", &sender, &pushnames, &lid_pn),
        "Test Sender"
    );

    // No cached name: formatted number, never a bare LID.
    let empty = TextMap::new();
    assert_eq!(
        resolve_sender_name("", &sender, &empty, &lid_pn),
        "+15 55 000-0007"
    );

    // Unknown mapping: falls back to the bare LID user part.
    let no_lid_pn = TextMap::new();
    assert_eq!(
        resolve_sender_name("", &sender, &empty, &no_lid_pn),
        "255202829570287"
    );
}

#[test]
fn sorted_chat_snapshot_orders_pinned_then_recency() {
    let old = Chat {
        id: ChatId::WhatsApp("15550000001@s.whatsapp.net".to_string()),
        contact_name: "Old chat".into(),
        fixed: false,
        ..Default::default()
    };
    let fresh = Chat {
        id: ChatId::WhatsApp("15550000002@s.whatsapp.net".to_string()),
        contact_name: "Fresh chat".into(),
        fixed: false,
        ..Default::default()
    };
    let pinned = Chat {
        id: ChatId::WhatsApp("15550000003@s.whatsapp.net".to_string()),
        contact_name: "Pinned chat".into(),
        fixed: true,
        ..Default::default()
    };
    let mut st = WhatsAppState {
        chats: vec![old.clone(), fresh.clone(), pinned.clone()],
        ..Default::default()
    };
    let msg = |m: &str, ts: i64, chat: &ChatId| Message {
        message_id: format!("m-{m}").into(),
        chat: chat.clone(),
        sender: "x".into(),
        text: m.into(),
        timestamp: ts,
        from_me: false,
        author_id: None,
        media: None,
        msg_actions: Vec::new(),
        reply_to_id: None,
        reply_ctx: None,
        pending: false,
        failed: false,
    };
    st.history.insert(
        old.id.clone(),
        History { messages: vec![msg("old", 1000, &old.id)] },
    );
    st.history.insert(
        fresh.id.clone(),
        History { messages: vec![msg("fresh", 3000, &fresh.id)] },
    );
    let order: Vec<_> = st.sorted_chat_snapshot()
        .into_iter()
        .map(|c| c.id)
        .collect();
    assert_eq!(
        order,
        vec![
            ChatId::WhatsApp("15550000003@s.whatsapp.net".to_string()),
            ChatId::WhatsApp("15550000002@s.whatsapp.net".to_string()),
            ChatId::WhatsApp("15550000001@s.whatsapp.net".to_string()),
        ]
    );
}

#[test]
fn normalize_inbound_detects_from_me_and_unknown() {
    let state = WhatsAppState::default();
    let chat = pn("15551234567");
    let info = msg_info(&chat, "Alice", "stanza-1", false);
    let msg = to_senders_msg(
        ChatId::jid_to_chat_id(&chat.full),
        &info,
        &text_message("hello"),
        &state,
    );
    assert_eq!(msg.sender, "Alice");
    assert!(!msg.from_me);
    assert_eq!(
        msg.chat,
        ChatId::WhatsApp("15551234567@s.whatsapp.net".to_string())
    );
    assert!(msg.msg_actions.contains(&MessageAction::Reply));
    assert!(!msg.msg_actions.contains(&MessageAction::Edit));

    let mine = msg_info(&chat, "", "stanza-2", true);
    let m = to_senders_msg(
        ChatId::jid_to_chat_id(&chat.full),
        &mine,
        &text_message("hi"),
        &state,
    );
    assert_eq!(m.sender, "You");
    assert!(m.from_me);
    assert!(m.msg_actions.contains(&MessageAction::Edit));
    assert!(m.msg_actions.contains(&MessageAction::Delete));
}

#[test]
fn own_chat_id_rewrites_self_lid_messages_to_own_pn() {
    let own_pn = Some("15551234567@s.whatsapp.net".to_string());
    let own_lid = Some("123456789012345@lid".to_string());

    // Self message keyed by our own LID -> own PN chat.
    let lid_chat = ChatId::WhatsApp("123456789012345@lid".to_string());
    assert_eq!(
        own_chat_id(&own_lid, &own_pn, lid_chat.clone(), true),
        ChatId::WhatsApp("15551234567@s.whatsapp.net".to_string())
    );

    // A same-JID chat addressed to someone else (not from_me) is untouched.
    let other_lid_chat = ChatId::WhatsApp("777777777777777@lid".to_string());
    assert_eq!(
        own_chat_id(&own_lid, &own_pn, other_lid_chat.clone(), false),
        other_lid_chat
    );

    // From-me message in a personal chat is left alone.
    let dm_chat = ChatId::WhatsApp("15559998877@s.whatsapp.net".to_string());
    assert_eq!(
        own_chat_id(&own_lid, &own_pn, dm_chat.clone(), true),
        dm_chat
    );

    // Missing own credentials fall back to the original chat.
    assert_eq!(own_chat_id(&None, &None, lid_chat.clone(), true), lid_chat);
}



#[test]
fn history_sync_ingests_chats_oldest_to_newest_and_resolves_group_senders() {
    let mut s = WhatsAppState::default();

    // One-to-one chat with a saved name in `display_name` (name empty).
    let dm_messages = vec![
        web_msg(None,
            "dm-1",
            1000,
            false,
            "DmName",
            "first",
        ),
        web_msg(None,
            "dm-2",
            1001,
            true,
            "own",
            "reply",
        ),
    ];
    let dm = WaConversation {
        id: "15550000002@s.whatsapp.net".to_string(),
        name: None,
        display_name: Some("Dm Contact".to_string()),
        messages: dm_messages,
        pinned: Some(1),
        unread_count: Some(3),
        ..blank()
    };

    // Group chat: subject name, sender resolved from participant push name.
    let group_messages = vec![
        web_msg(Some("15550000003@s.whatsapp.net"),
            "g-1",
            2000,
            false,
            "Bob",
            "hey group",
        ),
        web_msg(None, "g-2", 2001, true, "own", "yes"),
    ];
    let group_conv = WaConversation {
        id: "111222333@g.us".to_string(),
        name: Some("My Group".to_string()),
        messages: group_messages,
        ..blank()
    };

    let pushnames = vec![WaPushname {
        id: Some("15550000003@s.whatsapp.net".to_string()),
        pushname: Some("Bob".to_string()),
    }];

    let hs = WaHistorySync {
        conversations: vec![dm, group_conv],
        pushnames,
    };

    s.handle_history_sync(&hs, &TextMap::new(), None, 3000);

    assert_eq!(s.chats.len(), 2);

    let dm_chat = s
        .chats
        .iter()
        .find(|c| c.id == ChatId::WhatsApp("15550000002@s.whatsapp.net".to_string()))
        .unwrap();

    assert_eq!(dm_chat.contact_name, "Dm Contact");
    assert!(dm_chat.fixed, "pinned conversation should be marked fixed");
    assert_eq!(dm_chat.unread_count, 3);
    assert!(dm_chat.unread);
    // Preview from the newest message.
    assert_eq!(s.previews.get(&dm_chat.id).map(String::as_str), Some("You: reply"));

    let group_chat = s
        .chats
        .iter()
        .find(|c| c.id == ChatId::WhatsApp("111222333@g.us".to_string()))
        .unwrap();
    assert_eq!(group_chat.contact_name, "My Group");

    // History oldest-to-newest (dm-1 before dm-2).
    let dm_history = s
        .history
        .get(&ChatId::WhatsApp("15550000002@s.whatsapp.net".to_string()))
        .unwrap();
    let ids: Vec<_> = dm_history.messages.iter().map(|m| m.message_id.0.clone()).collect();
    assert_eq!(ids, vec!["dm-1".to_string(), "dm-2".to_string()]);

    // Group message sender resolved to the participant's name, not the group title.
    let group_history = s
        .history
        .get(&ChatId::WhatsApp("111222333@g.us".to_string()))
        .unwrap();
    let bob = group_history.messages.iter().find(|m| !m.from_me).unwrap();
    assert_eq!(bob.sender, "Bob");
    assert_ne!(bob.sender, "My Group");
}

#[test]
fn history_sync_deduplicates_and_skips_empty_messages() {
    let mut s = WhatsAppState::default();
    let chat_id = "15550000009@s.whatsapp.net";

    // Two copies of the same stanza + one empty protocol record.
    let messages = vec![
        web_msg(None, "dup-1", 1000, false, "Alice", "hello"),
        web_msg(None, "dup-1", 1000, false, "Alice", "hello"),
        None,
    ];
    let hs = WaHistorySync {
        conversations: vec![conversation(chat_id, messages)],
        pushnames: vec![],
    };

    s.handle_history_sync(&hs, &TextMap::new(), None, 3000);
    let history = s
        .history
        .get(&ChatId::WhatsApp(chat_id.to_string()))
        .unwrap();
    assert_eq!(
        history.messages.len(),
        1,
        "duplicate + empty must collapse to one message"
    );
}

#[test]
fn fold_lid_key_rewrites_known_lid_when_pn_row_exists() {
    let pn_chat = ChatId::WhatsApp("15550000007@s.whatsapp.net".to_string());

    let mut folded = WhatsAppState::default();
    folded.chats.push(Chat {
        id: pn_chat.clone(),
        ..Default::default()
    });
    folded
        .lid_pn
        .insert("255202829570287".to_string(), "15550000007".to_string());

    // Mapped + row exists: folded to the phone-keyed row.
    assert_eq!(folded.fold_lid_key("255202829570287@lid"), pn_chat);
    // A plain phone-keyed chat is untouched.
    assert_eq!(folded.fold_lid_key("15550000007@s.whatsapp.net"), pn_chat);

    // LID with no mapping stays put.
    assert_eq!(
        folded.fold_lid_key("777777777777777@lid"),
        ChatId::WhatsApp("777777777777777@lid".to_string())
    );

    // Mapped but no phone-keyed row on the list stays put (the peer was
    // never addressed by phone, so the LID row is what the user opens).
    let mut no_row = WhatsAppState::default();
    no_row
        .lid_pn
        .insert("255202829570287".to_string(), "15550000007".to_string());
    assert_eq!(
        no_row.fold_lid_key("255202829570287@lid"),
        ChatId::WhatsApp("255202829570287@lid".to_string())
    );

    // Unparseable keys are never rewritten.
    assert_eq!(
        folded.fold_lid_key("not-a-jid"),
        ChatId::WhatsApp("not-a-jid".to_string())
    );
}

#[test]
fn presence_label_formats_online_and_last_seen() {
    assert_eq!(presence_label(true, None), Some("online".to_string()));
    assert_eq!(
        presence_label(true, Some(1_800_000_000)),
        Some("online".to_string())
    );
    assert_eq!(presence_label(false, None), None);
    assert_eq!(
        presence_label(false, Some(now() - 300)),
        Some("last seen 5m ago".to_string())
    );
    assert_eq!(
        presence_label(false, Some(now() - 7200)),
        Some("last seen 2h ago".to_string())
    );
    assert_eq!(
        presence_label(false, Some(now() - 172800)),
        Some("last seen 2d ago".to_string())
    );
}

#[test]
fn a_redelivered_message_is_kept_once() {
    let mut s = WhatsAppState::default();
    let sender = pn("15550000011");
    let inbound = WaInbound {
        chat: "15550000011@s.whatsapp.net".to_string(),
        broadcast: false,
        info: msg_info(&sender, "Alice", "once-1", false),
        content: text_message("hello"),
    };
    s.enabled = true;
    s.ingest(&inbound, &TextMap::new());
    let batch = vec![inbound];
    s.ingest_batch(&batch, &TextMap::new());
    let chat = ChatId::WhatsApp("15550000011@s.whatsapp.net".to_string());
    assert_eq!(s.history.get(&chat).unwrap().messages.len(), 1);
    assert_eq!(s.chats.len(), 1);
    assert!(s.enabled, "messages do not switch the account");
    s.name_self_chats();
    assert!(s.enabled);
    let hs = WaHistorySync {
        conversations: vec![conversation(
            "15550000011@s.whatsapp.net",
            vec![web_msg(None, "once-1", 1000, false, "Alice", "hello")],
        )],
        pushnames: vec![],
    };
    s.handle_history_sync(&hs, &TextMap::new(), None, 3000);
    assert_eq!(s.history.get(&chat).unwrap().messages.len(), 1);
}

#[test]
fn a_merge_leaves_one_row_per_peer() {
    let mut s = WhatsAppState::default();
    let mut found = TextMap::new();
    for (lid, number) in [("900000000000001", "15550000021"), ("900000000000002", "15550000022")] {
        for raw in [format!("{lid}@lid"), format!("{number}@s.whatsapp.net")] {
            let sender = JidParts::parse(&raw).unwrap();
            let inbound = WaInbound {
                chat: raw,
                broadcast: false,
                info: msg_info(&sender, "Alice", "same-id", false),
                content: text_message("hello"),
            };
            s.ingest(&inbound, &TextMap::new());
        }
        found.insert(lid.to_string(), number.to_string());
    }
    assert_eq!(s.chats.len(), 4);
    let (count, events) = s.merge_lid_duplicates(&found);
    assert_eq!(count, 2);
    assert!(!events.is_empty());
    let ids: Vec<ChatId> = s.chats.iter().map(|c| c.id.clone()).collect();
    let rows = ["15550000021@s.whatsapp.net", "15550000022@s.whatsapp.net"];
    assert_eq!(ids, rows.map(|r| ChatId::WhatsApp(r.to_string())));
    for id in &ids {
        assert_eq!(s.history.get(id).unwrap().messages.len(), 1, "kept once");
    }
    assert_eq!(s.merge_lid_duplicates(&found).0, 0, "nothing is left to fold");
}

#[test]
fn peers_without_a_name_are_asked_about_once() {
    let mut s = WhatsAppState::default();
    s.chats.push(Chat {
        id: ChatId::WhatsApp("15550000031@s.whatsapp.net".to_string()),
        ..Default::default()
    });
    let asked = s.enrich_candidates(&Vec::new());
    assert_eq!(asked.len(), 1);
    let answer = UsyncResult {
        jid: asked[0].clone(),
        pn_jid: None,
        username: None,
        verified_name: None,
        is_business: false,
    };
    s.enrich_chat_names(&vec![answer], &TextMap::new());
    assert!(s.enrich_candidates(&Vec::new()).is_empty());
}

#[test]
fn a_snapshot_is_asked_for_again_until_a_history_sync_comes() {
    let mut s = WhatsAppState::default();
    s.chats.push(Chat::default());
    assert!(s.asks_for_snapshot(0), "saved chats are no history sync");
    assert!(s.asks_for_snapshot(1));
    assert!(!s.asks_for_snapshot(2), "not without end");
    let hs = WaHistorySync { conversations: vec![], pushnames: vec![] };
    s.handle_history_sync(&hs, &TextMap::new(), None, 3000);
    assert!(!s.asks_for_snapshot(0));
}
