use sender::backend::{ChatId, Message, MessageAction, MessageId};
use sender::helpers::{available_message_actions, now, relative, render_qr};

fn sample_message(from_me: bool, pending: bool, failed: bool) -> Message {
    Message {
        message_id: MessageId::from("msg-1"),
        chat: ChatId::Myself,
        sender: if from_me { "You".into() } else { "Them".into() },
        author_id: None,
        text: "hello".to_string(),
        timestamp: 0,
        from_me,
        msg_actions: Vec::new(),
        media: None,
        reply_to_id: None,
        reply_ctx: None,
        pending,
        failed,
    }
}

#[test]
fn incoming_messages_only_offer_reply() {
    let message = sample_message(false, false, false);
    let actions = available_message_actions(&message);
    assert_eq!(actions, vec![MessageAction::Reply]);
}

#[test]
fn outgoing_messages_offer_edit_and_delete() {
    let message = sample_message(true, false, false);
    let actions = available_message_actions(&message);
    assert_eq!(
        actions,
        vec![
            MessageAction::Reply,
            MessageAction::Edit,
            MessageAction::Delete
        ]
    );
}

#[test]
fn pending_or_failed_messages_offer_no_actions() {
    let pending = sample_message(true, true, false);
    let failed = sample_message(false, false, true);
    assert!(available_message_actions(&pending).is_empty());
    assert!(available_message_actions(&failed).is_empty());
}

#[test]
fn relative_buckets_are_deterministic_across_the_clock() {
    // Offsets are large enough that the bucket never straddles a boundary,
    // so these hold regardless of when the test runs.
    let anchor = now();
    assert_eq!(relative(anchor + 60), "just now");
    assert_eq!(relative(anchor - 35), "just now");
    assert_eq!(relative(anchor - 300), "5m ago");
    assert_eq!(relative(anchor - 7200), "2h ago");
    assert_eq!(relative(anchor - 90000), "1d ago");
    assert!(anchor >= 0 && relative(-86_400).ends_with("d ago"));
}

#[test]
fn relative_accepts_narrower_integer_time_types() {
    let anchor = now();
    assert_eq!(relative(anchor), relative((anchor as i32).into()));
}

#[test]
fn render_qr_produces_a_block_qr_for_a_valid_payload() {
    let art = render_qr("wa.me/some-pairing-payload");
    assert!(!art.is_empty(), "QR should render to a non-empty string");
    // A rendered QR contains the dark block glyph and newlines.
    assert!(art.contains('█'), "QR should use the dark block character");
    assert!(art.contains('\n'), "QR should be multi-line");
    // Quiet zone means a leading blank line of spaces.
    let first = art.lines().next().unwrap_or_default();
    assert!(
        first.chars().all(|c| c == ' '),
        "quiet zone should be blank"
    );

    // Dense1x2 packs two vertical modules per line, so the result is compact
    // (~half as many rows as columns). This keeps the QR square on screen
    // while fitting short terminals, and is the property login.rs relies on
    // to size the QR area.
    let width = art.lines().map(|l| l.chars().count()).max().unwrap_or(0);
    let height = art.lines().count();
    assert!(
        height < width,
        "QR should be packed vertically (height {height} < width {width})"
    );
}

#[test]
fn render_qr_fits_a_small_terminal() {
    // A realistic WhatsApp pairing payload must render compactly enough to
    // fit a roughly 50-col x 30-row login box (borders/rows included).
    let art =
        render_qr("2@uc_GT9B2wFQ6s8dVçY7tXm4pRjLnH3cKaZbNeMfDhOgPiAkJwE0xS1yT5uVzC9qWo");
    let width = art.lines().map(|l| l.chars().count()).max().unwrap_or(0);
    let height = art.lines().count();
    assert!(
        width <= 50 && height <= 30,
        "QR should fit a small terminal, got {width}x{height}"
    );
}

#[test]
fn render_qr_falls_back_for_empty_payload() {
    let art = render_qr("");
    assert!(
        art.contains("Waiting for a QR code..."),
        "empty payload should show a waiting notice, got: {art:?}"
    );
}
