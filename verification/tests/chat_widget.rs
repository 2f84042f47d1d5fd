use ratatui::buffer::Buffer;
use ratatui::layout::Rect;
use ratatui::widgets::{Scrollbar, ScrollbarOrientation, ScrollbarState, StatefulWidget};
use sender::backend::{ChatId, MediaKind, Message, MessageMedia};
use sender::tui::chat_widget::{
    body_spans, format_timestamp, format_timestamp_at, message_lines, message_lines_at, scroll_plan, write_box_height, write_visual_rows,
};
use sender::tui::line::{Color, Style};

fn message(text: &str) -> Message {
    Message {
        message_id: "m".into(),
        chat: ChatId::Telegram(1),
        sender: "Alice".into(),
        author_id: None,
        text: text.into(),
        timestamp: 0,
        from_me: false,
        msg_actions: Vec::new(),
        media: None,
        reply_to_id: None,
        reply_ctx: None,
        pending: false,
        failed: false,
    }
}

fn media_message(kind: MediaKind, caption: Option<&str>) -> Message {
    let mut msg = message("ignored by the media render path");
    msg.media = Some(MessageMedia {
        kind,
        caption: caption.map(str::to_string),
        file_name: None,
    });
    msg
}

#[test]
fn message_lines_splits_on_newlines() {
    let lines = message_lines(&message("first\nsecond\nthird"), 80, None, None);
    assert_eq!(lines.len(), 3);
    assert!(lines[0].to_text().contains("Alice"));
    assert!(lines[0].to_text().contains("first"));
    assert_eq!(lines[1].to_text(), "second");
    assert_eq!(lines[2].to_text(), "third");
}

#[test]
fn message_lines_empty_text_keeps_header() {
    let lines = message_lines(&message(""), 80, None, None);
    assert_eq!(lines.len(), 1);
    assert!(lines[0].to_text().contains("Alice"));
}

#[test]
fn message_lines_media_with_caption_puts_label_on_its_own_line() {
    let msg = media_message(MediaKind::Image, Some("sunset over the lake"));
    let lines = message_lines_at(&msg, "31/12/1969 21:00", 80, None, None);
    assert_eq!(lines.len(), 2, "media label line + caption line");
    let label_line = lines[0].to_text();
    assert!(
        label_line.contains("Alice 31/12/1969 21:00  Image:"),
        "the media-type label leads the first line, got: {label_line}"
    );
    assert!(
        !label_line.contains("sunset"),
        "the caption must not share the media label line, got: {label_line}"
    );
    let caption_line = lines[1].to_text();
    assert!(
        !caption_line.contains("ignored by the media render path"),
        "chat view renders `media`, not `message.text`, got: {caption_line}"
    );

    let italic: Vec<String> = lines[0]
        .spans
        .iter()
        .filter(|s| s.style.italic)
        .map(|s| s.text.clone())
        .collect();
    assert_eq!(italic, ["Image:"], "colon stays attached to the label");

    let caption_span = lines[1]
        .spans
        .iter()
        .find(|s| s.text.clone().contains("sunset"))
        .unwrap();
    assert!(
        !caption_span.style.italic,
        "caption keeps the plain body style"
    );
}

#[test]
fn message_lines_media_caption_wraps_beneath_the_label() {
    let msg = media_message(
        MediaKind::Image,
        Some("a long caption that wraps across several lines at this narrow width"),
    );
    let lines = message_lines(&msg, 20, None, None);
    assert!(
        lines.len() >= 3,
        "label line + wrapped caption lines, got {}",
        lines.len()
    );
    assert!(lines[0].to_text().contains("Image:"));
    assert!(
        lines[1..].iter().all(|l| !l.to_text().contains("Image:")),
        "caption lines must not repeat the media label"
    );
}

#[test]
fn message_lines_media_without_caption_shows_italic_fallback() {
    let msg = media_message(MediaKind::Image, None);
    let lines = message_lines(&msg, 80, None, None);
    assert_eq!(lines.len(), 1);
    let body = lines[0].spans.last().unwrap();
    assert_eq!(body.text.clone(), "Image, click to show");
    assert_eq!(body.style.fg, Some(Color::DarkGray));
    assert!(body.style.italic);
}

#[test]
fn message_lines_plain_text_is_unaffected_by_media_path() {
    let msg = message("hello, nothing special");
    let lines = message_lines(&msg, 80, None, None);
    assert_eq!(lines.len(), 1);
    assert!(lines[0].to_text().contains("hello, nothing special"));
    let last = lines[0].spans.last().unwrap();
    assert!(!last.style.bold && !last.style.italic && !last.style.reversed);
}

#[test]
fn message_lines_word_wraps_long_text() {
    let msg = message("hello world this is a long line");
    let lines = message_lines(&msg, 20, None, None);
    // Header "Alice 01-01 00:00" = 17 chars, text_avail = 20-2-17-2 = -1 → fallback
    // Should produce multiple lines
    assert!(lines.len() > 1);
}

#[test]
fn message_lines_adds_hint_when_truncated() {
    let msg = message("abcdefghijklmnopqrstuvwxyz0123456789");
    let lines = message_lines(&msg, 10, None, None);
    let last = lines.last().unwrap().to_text();
    assert!(last.contains("Press Enter"));
}

#[test]
fn message_height_matches_line_count_for_height_mapping() {
    // The scrollbar height is the exact Line count from message_lines; the
    // two must never disagree.
    let msg = message("hello");
    assert_eq!(message_lines(&msg, 80, None, None).len(), 1);
}

#[test]
fn message_height_counts_reply_indicator_and_wrapped_lines() {
    let mut msg = message("some words that get soft-wrapped at this narrow width");
    msg.reply_to_id = Some("x".into());
    let count = message_lines(&msg, 20, None, None).len();
    let plain = message_lines(
        &message("some words that get soft-wrapped at this narrow width"),
        20,
        None,
        None,
    )
    .len();
    assert_eq!(count, plain + 1, "reply indicator adds exactly one line");
}

#[test]
fn message_height_caps_at_max_lines_with_hint() {
    let msg = message("a\nb\nc\nd\ne\nf");
    let lines = message_lines(&msg, 80, Some(5), None);
    assert_eq!(lines.len(), 6, "5 content lines + the hint line");
    assert!(lines.last().unwrap().to_text().contains("Press Enter"));
}

#[test]
fn write_box_height_single_line_is_three_rows() {
    assert_eq!(write_box_height(0, 5, 40), 3);
    assert_eq!(write_box_height(1, 5, 40), 3);
}

#[test]
fn write_box_height_grows_with_lines() {
    assert_eq!(write_box_height(2, 5, 40), 4);
    assert_eq!(write_box_height(5, 5, 40), 7);
}

#[test]
fn write_box_height_is_capped_by_max_lines() {
    assert_eq!(write_box_height(9, 5, 40), 7);
    assert_eq!(write_box_height(4, 2, 40), 4);
}

#[test]
fn write_box_height_never_exceeds_area() {
    assert_eq!(write_box_height(5, 5, 4), 4);
    assert_eq!(write_box_height(5, 5, 2), 2);
}

#[test]
fn write_visual_rows_counts_wrapped_lines() {
    assert_eq!(write_visual_rows(&vec!["hello".into()], 10), 1);
    assert_eq!(write_visual_rows(&vec!["hello world".into()], 5), 2);
    assert_eq!(write_visual_rows(&vec!["hello".into(), "world".into()], 100), 2);
    assert_eq!(write_visual_rows(&vec!["".into()], 10), 1);
}

#[test]
fn body_spans_highlights_case_insensitive_matches() {
    let style = Style::fg(Color::Gray);
    let spans = body_spans("say Hello then hello again", Some("hello"), style);
    assert_eq!(
        spans.spans.iter().map(|s| s.text.clone()).collect::<String>(),
        "say Hello then hello again"
    );
    let highlighted = spans
        .spans
        .iter()
        .filter(|s| s.style.bg == Some(Color::Yellow))
        .count();
    assert_eq!(highlighted, 2);
}

#[test]
fn body_spans_without_needle_is_a_single_span() {
    let style = Style::fg(Color::Gray);
    let spans = body_spans("plain text", None, style);
    assert_eq!(spans.spans.len(), 1);
}

#[test]
fn body_spans_ignores_empty_needle() {
    let style = Style::fg(Color::Gray);
    let spans = body_spans("plain text", Some(""), style);
    assert_eq!(spans.spans.len(), 1);
    assert_eq!(spans.spans[0].text.clone(), "plain text");
}

#[test]
fn message_lines_highlights_needle_occurrences_in_body() {
    let lines = message_lines(&message("say hello there"), 80, None, Some("hello"));
    let highlighted = lines[0]
        .spans
        .iter()
        .filter(|s| s.style.bg == Some(Color::Yellow))
        .count();
    assert_eq!(highlighted, 1);
    assert!(lines[0].to_text().contains("hello"));
}

#[test]
fn scrollbar_thumb_reaches_bottom_when_scrolled_to_bottom() {
    let visible = 5u16;
    let content_height = 20usize;
    let max_scroll = content_height - visible as usize;
    let plan = scroll_plan(&vec![1; content_height], max_scroll, visible as usize).unwrap();
    assert_eq!((plan.content, plan.position), (max_scroll, max_scroll));
    let mut buf = Buffer::empty(Rect::new(0, 0, 1, visible));
    let mut state = ScrollbarState::new(plan.content)
        .position(plan.position)
        .viewport_content_length(plan.viewport);
    Scrollbar::new(ScrollbarOrientation::VerticalRight)
        .begin_symbol(None)
        .end_symbol(None)
        .render(buf.area, &mut buf, &mut state);
    let symbols: Vec<&str> = buf.content().iter().map(|c| c.symbol()).collect();
    assert_eq!(symbols.last().copied(), Some("█"));
    assert_eq!(*symbols.first().unwrap(), "║");
}

#[test]
fn scrollbar_thumb_starts_at_top_when_scrolled_to_top() {
    let visible = 5u16;
    let content_height = 20usize;
    let max_scroll = content_height - visible as usize;
    let plan = scroll_plan(&vec![1; content_height], 0, visible as usize).unwrap();
    assert_eq!((plan.content, plan.position), (max_scroll, 0));
    let mut buf = Buffer::empty(Rect::new(0, 0, 1, visible));
    let mut state = ScrollbarState::new(plan.content)
        .position(plan.position)
        .viewport_content_length(plan.viewport);
    Scrollbar::new(ScrollbarOrientation::VerticalRight)
        .begin_symbol(None)
        .end_symbol(None)
        .render(buf.area, &mut buf, &mut state);
    let symbols: Vec<&str> = buf.content().iter().map(|c| c.symbol()).collect();
    assert_eq!(*symbols.first().unwrap(), "█");
}

#[test]
fn times_are_written_by_day_and_minute() {
    assert_eq!(format_timestamp_at(0, 0), "01/01/1970 00:00");
    assert_eq!(format_timestamp_at(0, -3 * 3600), "31/12/1969 21:00");
    assert_eq!(format_timestamp_at(i64::MAX, 0), "");
    assert_eq!(format_timestamp(1_700_000_000).len(), 16);
}
