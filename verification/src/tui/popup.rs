//! What popups show.
use vstd::prelude::*;

use crate::backend::{media_label, Message, MessageAction, MessageMediaV, MessageV, ReplyContextV};
use crate::helpers::{calc_height, popup_height};
use crate::layout::{
    asked_in_all, inner_area, inset, is_rows, lies_in, one_part_grows, popup_area, popup_of,
    split_rows, taken_in_all, Division, Part, Rect,
};
use crate::text::{
    blank, decimal, format_u64, is_blank, joined, joined3, line_list, lines, owned, to_chars, views,
};
use crate::tui::chat_widget::{minus, wrap_lines_into, wrapped_all};
use crate::tui::line::{fg_style, pages, plain_style, push_line, Color, Line, Span, SpanV, Style};
use crate::tui::ui::{PopupKind, PopupKindV};

verus! {

/// A line of unstyled text.
pub open spec fn raw_line(s: Seq<char>) -> Seq<SpanV> {
    seq![SpanV { text: s, style: plain_style() }]
}

/// Lines of text in one style, each after an indent.
pub open spec fn styled_lines(chunks: Seq<Seq<char>>, indent: Seq<char>, style: Style) -> Seq<
    Seq<SpanV>,
> {
    chunks.map_values(|c: Seq<char>| seq![SpanV { text: indent + c, style }])
}

/// A text as unstyled lines, broken to a width.
pub open spec fn raw_lines(text: Seq<char>, width: int) -> Seq<Seq<SpanV>> {
    styled_lines(wrapped_all(line_list(text), width), Seq::empty(), plain_style())
}

fn add_styled(out: &mut Vec<Line>, text: &str, width: usize, indent: &str, style: Style)
    ensures
        pages(final(out)@) == pages(old(out)@) + styled_lines(
            wrapped_all(line_list(text@), width as int),
            indent@,
            style,
        ),
{
    let ghost before = pages(out@);
    let ls: Vec<String> = lines(text);
    let mut chunks: Vec<String> = Vec::new();
    assert(views(chunks@) =~= Seq::<Seq<char>>::empty());
    wrap_lines_into(&mut chunks, &ls, 0, width);
    assert(views(ls@).skip(0) =~= views(ls@));
    let ghost all = wrapped_all(line_list(text@), width as int);
    assert(views(chunks@) =~= all);
    let mut i: usize = 0;
    assert(before + styled_lines(all.take(0), indent@, style) =~= before);
    while i < chunks.len()
        invariant
            i <= chunks@.len(),
            views(chunks@) == all,
            pages(out@) == before + styled_lines(all.take(i as int), indent@, style),
        decreases chunks@.len() - i,
    {
        assert(all[i as int] == chunks@[i as int]@);
        let ghost prev = pages(out@);
        push_line(out, Line::one(Span { text: joined(indent, chunks[i].as_str()), style }));
        i += 1;
        assert(styled_lines(all.take(i as int), indent@, style) =~= styled_lines(
            all.take(i as int - 1),
            indent@,
            style,
        ).push(seq![SpanV { text: indent@ + all[i as int - 1], style }]));
        assert(pages(out@) =~= before + styled_lines(all.take(i as int), indent@, style));
    }
    assert(all.take(i as int) =~= all);
}

fn add_raw(out: &mut Vec<Line>, text: &str, width: usize)
    ensures
        pages(final(out)@) == pages(old(out)@) + raw_lines(text@, width as int),
{
    add_styled(out, text, width, "", Style::plain());
    proof {
        reveal_strlit("");
        assert(""@ =~= Seq::<char>::empty());
    }
}

fn add_one(out: &mut Vec<Line>, text: String, style: Style)
    ensures
        pages(final(out)@) == pages(old(out)@).push(seq![SpanV { text: text@, style }]),
{
    push_line(out, Line::one(Span { text, style }));
}

/// The label of an action in the action bar.
pub open spec fn action_label(a: MessageAction) -> Seq<char> {
    match a {
        MessageAction::Reply => "] Reply"@,
        MessageAction::Edit => "] Edit"@,
        MessageAction::Delete => "] Delete"@,
        MessageAction::Retry => "] Retry"@,
    }
}

/// The action bar: every action behind its number.
pub open spec fn actions_bar(actions: Seq<MessageAction>) -> Seq<SpanV> {
    Seq::new(
        actions.len(),
        |i: int|
            SpanV {
                text: "  ["@ + decimal((i + 1) as nat) + action_label(actions[i]),
                style: fg_style(Color::White),
            },
    )
}

/// The action bar of a message.
pub fn message_actions_line(msg: &Message) -> (r: Line)
    ensures
        r@ == actions_bar(msg@.msg_actions),
{
    let ghost all = msg@.msg_actions;
    let mut line: Line = Line::empty();
    let mut i: usize = 0;
    assert(line@ =~= actions_bar(all.take(0)));
    while i < msg.msg_actions.len()
        invariant
            i <= msg.msg_actions@.len(),
            all == msg.msg_actions@,
            line@ == actions_bar(all.take(i as int)),
        decreases msg.msg_actions@.len() - i,
    {
        let label: &str = match msg.msg_actions[i] {
            MessageAction::Reply => "] Reply",
            MessageAction::Edit => "] Edit",
            MessageAction::Delete => "] Delete",
            MessageAction::Retry => "] Retry",
        };
        let number: String = format_u64(i as u64 + 1);
        let ghost before = line@;
        line.add(Span { text: joined3("  [", number.as_str(), label), style: Style::fg(Color::White) });
        i += 1;
        assert(line@ =~= actions_bar(all.take(i as int)));
    }
    assert(all.take(i as int) =~= all);
    line
}

pub open spec fn bold(c: Color) -> Style {
    Style { bold: true, ..fg_style(c) }
}

pub open spec fn italic(c: Color) -> Style {
    Style { italic: true, ..fg_style(c) }
}

/// The head of a message in a popup.
pub open spec fn popup_head(m: MessageV, stamp: Seq<char>) -> Seq<char> {
    m.sender + " "@ + stamp + if m.failed {
        " ⚠ failed"@
    } else if m.pending {
        " … sending"@
    } else {
        ""@
    }
}

/// The media of a message in a popup: its kind, a notice, and the caption.
pub open spec fn popup_media(media: MessageMediaV, width: int) -> Seq<Seq<SpanV>> {
    seq![
        seq![
            SpanV {
                text: "  "@ + media_label(media.kind) + ": click to show"@,
                style: bold(Color::Cyan),
            },
        ],
        seq![
            SpanV {
                text: "  Terminal media preview is not implemented yet "@,
                style: italic(Color::DarkGray),
            },
        ],
    ] + match media.caption {
        Some(c) => if blank(c) {
            Seq::empty()
        } else {
            seq![raw_line(""@)] + raw_lines(c, width)
        },
        None => Seq::empty(),
    }
}

/// The quote of a message in a popup.
pub open spec fn popup_quote(q: ReplyContextV, stamp: Seq<char>, width: int) -> Seq<Seq<SpanV>> {
    seq![
        seq![SpanV { text: "  ─ Reply to:"@, style: bold(Color::DarkGray) }],
        seq![SpanV { text: "    "@ + q.sender + " "@ + stamp, style: fg_style(Color::DarkGray) }],
    ] + styled_lines(
        wrapped_all(line_list(q.text), width),
        "    "@,
        fg_style(Color::DarkGray),
    ) + seq![raw_line(""@)]
}

/// The content of a message popup: head, media, quote, and the text where
/// there is no media. `stamp` and `quote_stamp` are the times shown.
pub open spec fn message_content(
    m: MessageV,
    stamp: Seq<char>,
    quote_stamp: Seq<char>,
    width: int,
) -> Seq<Seq<SpanV>> {
    let head = seq![
        seq![SpanV { text: popup_head(m, stamp), style: bold(Color::DarkGray) }],
    ];
    let media = match m.media {
        Some(x) => popup_media(x, width),
        None => Seq::empty(),
    };
    let quote = match m.reply_ctx {
        Some(q) => popup_quote(q, quote_stamp, width),
        None => Seq::empty(),
    };
    let text = if m.media is None {
        raw_lines(m.text, width) + if m.text.len() == 0 {
            seq![raw_line(""@)]
        } else {
            Seq::empty()
        }
    } else {
        Seq::empty()
    };
    head + media + quote + text
}

/// The content of a message popup.
pub fn message_content_lines(msg: &Message, stamp: &str, quote_stamp: &str, width: usize) -> (r: Vec<
    Line,
>)
    ensures
        pages(r@) == message_content(msg@, stamp@, quote_stamp@, width as int),
{
    let ghost m = msg@;
    let mut out: Vec<Line> = Vec::new();
    assert(pages(out@) =~= Seq::<Seq<SpanV>>::empty());
    let status: &str = if msg.failed { " ⚠ failed" } else if msg.pending { " … sending" } else {
        ""
    };
    let head: String = joined3(joined(msg.sender.as_str(), " ").as_str(), stamp, status);
    add_one(&mut out, head, Style::fg(Color::DarkGray).bold());
    let ghost p0 = pages(out@);
    assert(p0 =~= seq![seq![SpanV { text: popup_head(m, stamp@), style: bold(Color::DarkGray) }]]);
    if let Some(media) = &msg.media {
        let ghost mv = media@;
        add_one(
            &mut out,
            joined3("  ", media.kind.label(), ": click to show"),
            Style::fg(Color::Cyan).bold(),
        );
        add_one(
            &mut out,
            owned("  Terminal media preview is not implemented yet "),
            Style::fg(Color::DarkGray).italic(),
        );
        if let Some(caption) = &media.caption {
            if !is_blank(caption.as_str()) {
                add_one(&mut out, owned(""), Style::plain());
                add_raw(&mut out, caption.as_str(), width);
            }
        }
        assert(pages(out@) =~= p0 + popup_media(mv, width as int));
    }
    let ghost p1 = pages(out@);
    if let Some(reply) = &msg.reply_ctx {
        let ghost q = reply@;
        add_one(&mut out, owned("  ─ Reply to:"), Style::fg(Color::DarkGray).bold());
        add_one(
            &mut out,
            joined(joined3("    ", reply.sender.as_str(), " ").as_str(), quote_stamp),
            Style::fg(Color::DarkGray),
        );
        add_styled(&mut out, reply.text.as_str(), width, "    ", Style::fg(Color::DarkGray));
        add_one(&mut out, owned(""), Style::plain());
        assert(pages(out@) =~= p1 + popup_quote(q, quote_stamp@, width as int));
    }
    let ghost p2 = pages(out@);
    if msg.media.is_none() {
        add_raw(&mut out, msg.text.as_str(), width);
        let empty: bool = to_chars(msg.text.as_str()).len() == 0;
        if empty {
            add_one(&mut out, owned(""), Style::plain());
        }
    }
    assert(pages(out@) =~= message_content(m, stamp@, quote_stamp@, width as int));
    out
}

/// Width of a popup of text.
pub open spec fn popup_width(area: Rect) -> u16 {
    let room = minus(area.width as int, 4);
    (if room < 80 { room } else { 80 }) as u16
}

/// Height of a popup of `n` lines: three rows more, within the area, and at
/// least five.
pub open spec fn list_height(n: int, area: Rect) -> u16 {
    let room = minus(area.height as int, 4);
    let h = if n + 3 < room { n + 3 } else { room };
    (if h < 5 { 5 } else { h }) as u16
}

fn width_of_popup(area: Rect) -> (r: u16)
    ensures
        r == popup_width(area),
{
    let room: u16 = if area.width > 4 { area.width - 4 } else { 0 };
    if room < 80 { room } else { 80 }
}

fn height_of_list(n: usize, area: Rect) -> (r: u16)
    ensures
        r == list_height(n as int, area),
{
    let room: u32 = if area.height > 4 { (area.height - 4) as u32 } else { 0 };
    let h: u32 = if n < 0x10000 && n as u32 + 3 < room { n as u32 + 3 } else { room };
    (if h < 5 { 5 } else { h }) as u16
}

/// Width of a picture popup: nine tenths of the area, at least thirty columns
/// where there is room.
pub open spec fn image_width(area: Rect) -> u16 {
    let max = minus(area.width as int, 2);
    clamped(area.width as int * 9 / 10, if 30 < max { 30 } else { max }, if max > 30 { max } else {
        30
    }) as u16
}

/// Height of a picture popup: nine tenths of the area, at least five rows where
/// there is room.
pub open spec fn image_height(area: Rect) -> u16 {
    let max = minus(area.height as int, 1);
    clamped(area.height as int * 9 / 10, if 5 < max { 5 } else { max }, if max > 5 { max } else {
        5
    }) as u16
}

pub open spec fn clamped(x: int, low: int, high: int) -> int {
    if x < low {
        low
    } else if x > high {
        high
    } else {
        x
    }
}

fn clamp(x: u32, low: u32, high: u32) -> (r: u32)
    ensures
        r == clamped(x as int, low as int, high as int),
{
    if x < low {
        low
    } else if x > high {
        high
    } else {
        x
    }
}

/// Everything a popup draws.
pub struct PopupPlan {
    pub area: Rect,
    pub title: String,
    pub border: Style,
    pub lines: Vec<Line>,
    /// First line drawn.
    pub scroll: usize,
    /// Where a picture goes.
    pub picture: Option<Rect>,
    /// Where the caption of a picture goes; it is `lines`.
    pub caption: Option<Rect>,
    /// The action bar and where it goes.
    pub actions: Option<(Rect, Line)>,
}

pub open spec fn popup_border(c: Color) -> Style {
    Style { bg: Some(Color::Black), ..fg_style(c) }
}

/// The text of a notice, with how to close it.
pub open spec fn notice_text(data: Seq<char>) -> Seq<char> {
    data + "\n\nPress ESC to close"@
}

/// A notice popup.
pub open spec fn is_notice_plan(
    p: PopupPlan,
    data: Seq<char>,
    title: Seq<char>,
    color: Color,
    area: Rect,
) -> bool {
    let width = popup_width(area);
    &&& p.area == popup_of(
        area,
        width,
        popup_height(notice_text(data), width, area.height, false),
    )
    &&& p.title@ == title
    &&& p.border == popup_border(color)
    &&& pages(p.lines@) == raw_lines(notice_text(data), minus(width as int, 2))
    &&& p.scroll == 0
    &&& p.picture is None
    &&& p.caption is None
    &&& p.actions is None
}

/// Works out a notice popup.
pub fn notice_plan(data: &str, title: &str, color: Color, area: Rect) -> (r: PopupPlan)
    requires
        area.width > 8,
    ensures
        is_notice_plan(r, data@, title@, color, area),
{
    let width: u16 = width_of_popup(area);
    let content: usize = if width > 2 { (width - 2) as usize } else { 0 };
    let msg: String = joined(data, "\n\nPress ESC to close");
    let height: u16 = calc_height(msg.as_str(), width, area, false);
    let mut out: Vec<Line> = Vec::new();
    assert(pages(out@) =~= Seq::<Seq<SpanV>>::empty());
    add_raw(&mut out, msg.as_str(), content);
    assert(pages(out@) =~= raw_lines(msg@, content as int));
    PopupPlan {
        area: popup_area(area, width, height),
        title: owned(title),
        border: Style::fg(color).on(Color::Black),
        lines: out,
        scroll: 0,
        picture: None,
        caption: None,
        actions: None,
    }
}

/// The text of a question, with its answers.
pub open spec fn question_text(data: Seq<char>) -> Seq<char> {
    data + "\n\n [1] Yes  [2] No "@
}

/// A question popup.
pub open spec fn is_question_plan(p: PopupPlan, data: Seq<char>, scroll: usize, area: Rect) -> bool {
    &&& p.area == popup_of(
        area,
        popup_width(area),
        list_height(line_list(data).len() as int, area),
    )
    &&& p.title@ == " ? "@
    &&& p.border == popup_border(Color::Red)
    &&& pages(p.lines@) == line_list(question_text(data)).map_values(|l: Seq<char>| raw_line(l))
    &&& p.scroll == scroll
    &&& p.picture is None
    &&& p.caption is None
    &&& p.actions is None
}

/// Works out a question popup.
pub fn question_plan(data: &str, scroll: usize, area: Rect) -> (r: PopupPlan)
    ensures
        is_question_plan(r, data@, scroll, area),
{
    let ls: Vec<String> = lines(data);
    assert(views(ls@).len() == ls@.len());
    let height: u16 = height_of_list(ls.len(), area);
    let text: String = joined(data, "\n\n [1] Yes  [2] No ");
    let all: Vec<String> = lines(text.as_str());
    let ghost av = line_list(text@);
    let mut out: Vec<Line> = Vec::new();
    let mut i: usize = 0;
    assert(pages(out@) =~= av.take(0).map_values(|l: Seq<char>| raw_line(l)));
    while i < all.len()
        invariant
            i <= all@.len(),
            av == views(all@),
            pages(out@) == av.take(i as int).map_values(|l: Seq<char>| raw_line(l)),
        decreases all@.len() - i,
    {
        assert(av[i as int] == all@[i as int]@);
        add_one(&mut out, all[i].clone(), Style::plain());
        i += 1;
        assert(av.take(i as int).map_values(|l: Seq<char>| raw_line(l)) =~= av.take(
            i as int - 1,
        ).map_values(|l: Seq<char>| raw_line(l)).push(raw_line(av[i as int - 1])));
    }
    assert(av.take(i as int) =~= av);
    PopupPlan {
        area: popup_area(area, width_of_popup(area), height),
        title: owned(" ? "),
        border: Style::fg(Color::Red).on(Color::Black),
        lines: out,
        scroll,
        picture: None,
        caption: None,
        actions: None,
    }
}

/// The rows of a popup with an action bar: what it shows, `below` rows under it,
/// and the bar.
pub open spec fn bar_parts(below: u16) -> Seq<Part> {
    seq![Part::Fill(1), Part::Length(below), Part::Length(1)]
}

fn split_bar(inner: Rect, below: u16) -> (r: Vec<Rect>)
    ensures
        is_rows(inner, bar_parts(below), r@),
{
    let parts: Vec<Part> = vec![Part::Fill(1), Part::Length(below), Part::Length(1)];
    assert(parts@ =~= bar_parts(below));
    proof {
        one_part_grows(parts@, 0);
    }
    split_rows(inner, &parts)
}

/// Where a popup is high enough, the action bar is its last row, and what it
/// shows takes the rows that are left.
pub proof fn action_bar_is_the_last_row(inner: Rect, below: u16, rows: Seq<Rect>)
    requires
        is_rows(inner, bar_parts(below), rows),
        inner.height > below,
        inner.y + inner.height <= u16::MAX,
    ensures
        rows == seq![
            Rect { height: (inner.height - below - 1) as u16, ..inner },
            Rect { y: (inner.y + inner.height - below - 1) as u16, height: below, ..inner },
            Rect { y: (inner.y + inner.height - 1) as u16, height: 1, ..inner },
        ],
{
    let parts = bar_parts(below);
    let spare = inner.height - below - 1;
    reveal_with_fuel(asked_in_all, 4);
    reveal_with_fuel(taken_in_all, 4);
    assert(parts.drop_last() =~= seq![Part::Fill(1), Part::Length(below)]);
    assert(parts.drop_last().drop_last() =~= seq![Part::Fill(1)]);
    assert(parts.take(2) =~= parts.drop_last());
    assert(parts.take(1) =~= parts.drop_last().drop_last());
    assert(parts.take(0) =~= Seq::<Part>::empty());
    assert(asked_in_all(parts) == below + 1);
    let how = Division { vertical: true, centered: false };
    assert forall|i: int| 0 <= i < 3 implies lies_in(how, inner, #[trigger] rows[i]) by {}
    assert(rows =~= seq![
        Rect { height: (inner.height - below - 1) as u16, ..inner },
        Rect { y: (inner.y + inner.height - below - 1) as u16, height: below, ..inner },
        Rect { y: (inner.y + inner.height - 1) as u16, height: 1, ..inner },
    ]);
}

/// A message popup in given areas: the scroll position stays where the content
/// fills the view.
pub open spec fn is_message_plan_in(
    p: PopupPlan,
    m: MessageV,
    content: Seq<Seq<SpanV>>,
    scroll: usize,
    at: Rect,
    rows: Seq<Rect>,
) -> bool {
    let last = minus(content.len() as int, rows[0].height as int);
    &&& p.area == at
    &&& p.title@ == " Message "@
    &&& p.border == popup_border(Color::Cyan)
    &&& pages(p.lines@) == content
    &&& p.scroll == if scroll < last { scroll as int } else { last }
    &&& p.picture is None
    &&& p.caption is None
    &&& p.actions is Some
    &&& p.actions.unwrap().0 == rows[2]
    &&& p.actions.unwrap().1@ == actions_bar(m.msg_actions)
}

/// A message popup: it is as high as its content where that fits, with the
/// action bar in the last of its rows.
pub open spec fn is_message_plan(
    p: PopupPlan,
    m: MessageV,
    stamp: Seq<char>,
    quote_stamp: Seq<char>,
    scroll: usize,
    area: Rect,
) -> bool {
    let width = popup_width(area);
    let content = message_content(m, stamp, quote_stamp, minus(width as int, 2));
    let at = popup_of(area, width, list_height(content.len() as int, area));
    exists|rows: Seq<Rect>| #[trigger]
        is_rows(inset(at, 1, 1), bar_parts(1), rows) && is_message_plan_in(
            p,
            m,
            content,
            scroll,
            at,
            rows,
        )
}

/// Works out a message popup in given areas.
pub fn message_plan_in(msg: &Message, content: Vec<Line>, scroll: usize, at: Rect, rows: &Vec<Rect>)
    -> (r: PopupPlan)
    requires
        rows@.len() == 3,
    ensures
        is_message_plan_in(r, msg@, pages(content@), scroll, at, rows@),
{
    let total: usize = content.len();
    assert(pages(content@).len() == total);
    let view: usize = rows[0].height as usize;
    let last: usize = if total > view { total - view } else { 0 };
    PopupPlan {
        area: at,
        title: owned(" Message "),
        border: Style::fg(Color::Cyan).on(Color::Black),
        lines: content,
        scroll: if scroll < last { scroll } else { last },
        picture: None,
        caption: None,
        actions: Some((rows[2], message_actions_line(msg))),
    }
}

/// Works out a message popup.
pub fn message_plan(msg: &Message, stamp: &str, quote_stamp: &str, scroll: usize, area: Rect) -> (r:
    PopupPlan)
    ensures
        is_message_plan(r, msg@, stamp@, quote_stamp@, scroll, area),
{
    let width: u16 = width_of_popup(area);
    let content: usize = if width > 2 { (width - 2) as usize } else { 0 };
    let out: Vec<Line> = message_content_lines(msg, stamp, quote_stamp, content);
    let total: usize = out.len();
    assert(pages(out@).len() == total);
    let at: Rect = popup_area(area, width, height_of_list(total, area));
    let rows: Vec<Rect> = split_bar(inner_area(at, 1, 1), 1);
    let p: PopupPlan = message_plan_in(msg, out, scroll, at, &rows);
    proof {
        let shown = message_content(msg@, stamp@, quote_stamp@, minus(width as int, 2));
        assert(is_rows(inset(at, 1, 1), bar_parts(1), rows@));
        assert(is_message_plan_in(p, msg@, shown, scroll, at, rows@));
    }
    p
}

/// The caption under a picture.
pub open spec fn picture_caption(m: MessageV, width: int) -> Seq<Seq<SpanV>> {
    match m.media {
        Some(media) => match media.caption {
            Some(c) => if blank(c) {
                Seq::empty()
            } else {
                raw_lines(c, width)
            },
            None => Seq::empty(),
        },
        None => Seq::empty(),
    }
}

/// A picture popup in given areas: the picture, its caption, and the action
/// bar.
pub open spec fn is_image_plan_in(
    p: PopupPlan,
    m: MessageV,
    stamp: Seq<char>,
    caption: Seq<Seq<SpanV>>,
    at: Rect,
    rows: Seq<Rect>,
) -> bool {
    &&& p.area == at
    &&& p.title@ == " "@ + m.sender + " "@ + stamp + " "@
    &&& p.border == popup_border(Color::Cyan)
    &&& pages(p.lines@) == caption
    &&& p.scroll == 0
    &&& p.picture == Some(rows[0])
    &&& p.caption == if caption.len() > 0 {
        Some(rows[1])
    } else {
        None
    }
    &&& p.actions is Some
    &&& p.actions.unwrap().0 == rows[2]
    &&& p.actions.unwrap().1@ == actions_bar(m.msg_actions)
}

/// The rows asked for `n` lines: one each, as far as an area can have them.
pub open spec fn rows_for(n: int) -> u16 {
    (if n < u16::MAX { n } else { u16::MAX as int }) as u16
}

/// A picture popup: the caption gets as many rows as it has lines, and the
/// picture what is left above it.
pub open spec fn is_image_plan(p: PopupPlan, m: MessageV, stamp: Seq<char>, area: Rect) -> bool {
    let at = popup_of(area, image_width(area), image_height(area));
    let inner = inset(at, 1, 1);
    let caption = picture_caption(m, inner.width as int);
    exists|rows: Seq<Rect>| #[trigger]
        is_rows(inner, bar_parts(rows_for(caption.len() as int)), rows) && is_image_plan_in(
            p,
            m,
            stamp,
            caption,
            at,
            rows,
        )
}

/// Works out a picture popup in given areas.
pub fn image_plan_in(msg: &Message, stamp: &str, caption: Vec<Line>, at: Rect, rows: &Vec<Rect>) -> (r:
    PopupPlan)
    requires
        rows@.len() == 3,
    ensures
        is_image_plan_in(r, msg@, stamp@, pages(caption@), at, rows@),
{
    let n: usize = caption.len();
    assert(pages(caption@).len() == n);
    let title: String = joined3(
        joined3(" ", msg.sender.as_str(), " ").as_str(),
        stamp,
        " ",
    );
    PopupPlan {
        area: at,
        title,
        border: Style::fg(Color::Cyan).on(Color::Black),
        lines: caption,
        scroll: 0,
        picture: Some(rows[0]),
        caption: if n > 0 { Some(rows[1]) } else { None },
        actions: Some((rows[2], message_actions_line(msg))),
    }
}

/// Works out a picture popup.
pub fn image_plan(msg: &Message, stamp: &str, area: Rect) -> (r: PopupPlan)
    ensures
        is_image_plan(r, msg@, stamp@, area),
{
    let max_w: u32 = if area.width > 2 { (area.width - 2) as u32 } else { 0 };
    let w: u32 = clamp(
        area.width as u32 * 9 / 10,
        if 30 < max_w { 30 } else { max_w },
        if max_w > 30 { max_w } else { 30 },
    );
    let max_h: u32 = if area.height > 1 { (area.height - 1) as u32 } else { 0 };
    let h: u32 = clamp(
        area.height as u32 * 9 / 10,
        if 5 < max_h { 5 } else { max_h },
        if max_h > 5 { max_h } else { 5 },
    );
    let at: Rect = popup_area(area, w as u16, h as u16);
    let inner: Rect = inner_area(at, 1, 1);
    let mut out: Vec<Line> = Vec::new();
    assert(pages(out@) =~= Seq::<Seq<SpanV>>::empty());
    if let Some(media) = &msg.media {
        if let Some(caption) = &media.caption {
            if !is_blank(caption.as_str()) {
                add_raw(&mut out, caption.as_str(), inner.width as usize);
            }
        }
    }
    assert(pages(out@) =~= picture_caption(msg@, inner.width as int));
    let n: usize = out.len();
    assert(pages(out@).len() == n);
    let rows: Vec<Rect> = split_bar(inner, if n < 0xffff { n as u16 } else { 0xffff });
    let p: PopupPlan = image_plan_in(msg, stamp, out, at, &rows);
    proof {
        let caption = picture_caption(msg@, inner.width as int);
        assert(at == popup_of(area, image_width(area), image_height(area)));
        assert(is_rows(inner, bar_parts(rows_for(caption.len() as int)), rows@));
        assert(is_image_plan_in(p, msg@, stamp@, caption, at, rows@));
    }
    p
}

/// What a popup draws, by its kind. A message with audio is drawn as a message.
pub fn plan_popup(
    kind: &PopupKind,
    scroll: usize,
    stamp: &str,
    quote_stamp: &str,
    area: Rect,
) -> (r: PopupPlan)
    requires
        kind@ is Info || kind@ is Error || kind@ is Warn ==> area.width > 8,
    ensures
        match kind@ {
            PopupKindV::Info(s) => is_notice_plan(r, s, " Info "@, Color::Blue, area),
            PopupKindV::Error(s) => is_notice_plan(r, s, " Error "@, Color::Red, area),
            PopupKindV::Warn(s) => is_notice_plan(r, s, " Warning "@, Color::Yellow, area),
            PopupKindV::Message(m) => is_message_plan(r, m, stamp@, quote_stamp@, scroll, area),
            PopupKindV::Audio { msg, .. } => is_message_plan(
                r,
                msg,
                stamp@,
                quote_stamp@,
                scroll,
                area,
            ),
            PopupKindV::Image(m) => is_image_plan(r, m, stamp@, area),
            PopupKindV::Question(s) => is_question_plan(r, s, scroll, area),
        },
{
    match kind {
        PopupKind::Info(s) => notice_plan(s.as_str(), " Info ", Color::Blue, area),
        PopupKind::Error(s) => notice_plan(s.as_str(), " Error ", Color::Red, area),
        PopupKind::Warn(s) => notice_plan(s.as_str(), " Warning ", Color::Yellow, area),
        PopupKind::Message(m) => message_plan(m, stamp, quote_stamp, scroll, area),
        PopupKind::Audio { msg, .. } => message_plan(msg, stamp, quote_stamp, scroll, area),
        PopupKind::Image(m) => image_plan(m, stamp, area),
        PopupKind::Question(s) => question_plan(s.as_str(), scroll, area),
    }
}

}
