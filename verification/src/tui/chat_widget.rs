//! The pane of the open chat: its messages, its title, and the write box.
use vstd::prelude::*;
use vstd::string::StringExecFns;

use crate::backend::{media_label, tag_of, Chat, ChatV, Message, MessageMediaV, MessageV};
use crate::config::text_of;
use crate::helpers::{wrap_text, wrapped};
use crate::layout::{
    inner_area, inset, is_columns, is_rows, one_part_grows, split_columns, split_rows, Part, Rect,
};
use crate::order::seen;
use crate::text::{
    blank, from_range, joined, joined3, line_list, lines, lowercase, owned, same, to_chars,
    to_lowercase, trim, trimmed, views,
};
use crate::tui::chat::ChatState;
use crate::tui::chat_model::{selected_chat_of, ChatStateV};
use crate::tui::line::{
    fg_style, line_text, pages, plain_style, push_line, Color, Line, Span, SpanV, Style,
};

verus! {

/// Which pane has the keyboard.
#[derive(Clone, Copy, Debug, PartialEq, Eq, Structural)]
pub enum Focus {
    ChatList,
    Chat,
    Write,
    Popup,
}

/// A time, in seconds since the Unix epoch, as `DateTime::format` writes its
/// day, month, year, hour and minute at a distance from UTC in seconds.
pub uninterp spec fn stamp_text(secs: i64, offset: i32) -> Seq<char>;

/// `Local.offset_from_utc_datetime`: how far this machine's time zone is from
/// UTC at a time, in seconds. Claimed is only that it is less than a day.
#[verifier::external_body]
fn local_offset(secs: i64) -> (r: i32)
    ensures
        -86_400 < r < 86_400,
{
    match chrono::DateTime::from_timestamp(secs, 0) {
        Some(utc) => utc.with_timezone(&chrono::Local).offset().local_minus_utc(),
        None => 0,
    }
}

/// `DateTime::from_timestamp`, `with_timezone` and `format`: a time at a
/// distance from UTC, a function of both; empty for a time out of range.
#[verifier::external_body]
fn stamp_at(secs: i64, offset: i32) -> (r: String)
    requires
        -86_400 < offset < 86_400,
    ensures
        r@ == stamp_text(secs, offset),
{
    match (chrono::DateTime::from_timestamp(secs, 0), chrono::FixedOffset::east_opt(offset)) {
        (Some(utc), Some(zone)) => utc.with_timezone(&zone).format("%d/%m/%Y %H:%M").to_string(),
        _ => String::new(),
    }
}

/// Whether a text is a time as it is written somewhere on earth.
pub open spec fn is_stamp(secs: i64, text: Seq<char>) -> bool {
    exists|offset: i32| -86_400 < offset < 86_400 && text == #[trigger] stamp_text(secs, offset)
}

/// A time at a distance from UTC.
pub fn format_timestamp_at(secs: i64, offset: i32) -> (r: String)
    requires
        -86_400 < offset < 86_400,
    ensures
        r@ == stamp_text(secs, offset),
{
    stamp_at(secs, offset)
}

/// A time in the time zone of this machine.
pub fn format_timestamp(secs: i64) -> (r: String)
    ensures
        is_stamp(secs, r@),
{
    let offset: i32 = local_offset(secs);
    stamp_at(secs, offset)
}

// Highlighted text.

/// Whether the characters of `s` at `i` are the needle, ignoring case.
pub open spec fn hit(s: Seq<char>, needle: Seq<char>, i: int) -> bool {
    0 <= i && i + needle.len() <= s.len() && lowercase(s.subrange(i, i + needle.len())) == needle
}

/// The next position at or after `i` where the needle stands; the end of the
/// text where there is none.
pub open spec fn next_hit(s: Seq<char>, needle: Seq<char>, i: int) -> int
    decreases s.len() - i,
{
    if i >= s.len() || i < 0 || hit(s, needle, i) {
        i
    } else {
        next_hit(s, needle, i + 1)
    }
}

pub proof fn next_hit_bounds(s: Seq<char>, needle: Seq<char>, i: int)
    requires
        0 <= i <= s.len(),
    ensures
        i <= next_hit(s, needle, i) <= s.len(),
        next_hit(s, needle, i) < s.len() ==> hit(s, needle, next_hit(s, needle, i)),
        i < s.len() && !hit(s, needle, i) ==> i < next_hit(s, needle, i),
        forall|k: int| i <= k < next_hit(s, needle, i) ==> !hit(s, needle, k),
    decreases s.len() - i,
{
    if i < s.len() && !hit(s, needle, i) {
        next_hit_bounds(s, needle, i + 1);
    }
}

/// The style of a match.
pub open spec fn match_style() -> Style {
    Style {
        fg: Some(Color::Black),
        bg: Some(Color::Yellow),
        bold: true,
        italic: false,
        reversed: false,
    }
}

/// A text from position `i` on, every match of the needle in its own span.
pub open spec fn marked(s: Seq<char>, needle: Seq<char>, style: Style, i: int) -> Seq<SpanV>
    decreases s.len() - i,
{
    if i < 0 || i >= s.len() || needle.len() == 0 {
        Seq::empty()
    } else if hit(s, needle, i) {
        seq![SpanV { text: s.subrange(i, i + needle.len()), style: match_style() }] + marked(
            s,
            needle,
            style,
            i + needle.len(),
        )
    } else {
        let j = next_hit(s, needle, i);
        if i < j <= s.len() {
            seq![SpanV { text: s.subrange(i, j), style }] + marked(s, needle, style, j)
        } else {
            Seq::empty()
        }
    }
}

/// A text with every match of a needle highlighted.
pub open spec fn spans_of(s: Seq<char>, needle: Option<Seq<char>>, style: Style) -> Seq<SpanV> {
    match needle {
        Some(n) => if lowercase(n).len() > 0 {
            marked(s, lowercase(n), style, 0)
        } else {
            seq![SpanV { text: s, style }]
        },
        None => seq![SpanV { text: s, style }],
    }
}

fn is_hit(chars: &Vec<char>, needle: &str, n: usize, i: usize) -> (r: bool)
    requires
        n == needle@.len(),
        i <= chars@.len(),
    ensures
        r == hit(chars@, needle@, i as int),
{
    if n > chars.len() - i {
        return false;
    }
    let piece: String = from_range(chars, i, i + n);
    let lower: String = to_lowercase(piece.as_str());
    same(lower.as_str(), needle)
}

/// A text with every match of a needle highlighted.
pub fn body_spans(text: &str, needle: Option<&str>, style: Style) -> (r: Line)
    ensures
        r@ == spans_of(
            text@,
            text_of(needle),
            style,
        ),
{
    let lower: String = match needle {
        Some(n) => to_lowercase(n),
        None => String::new(),
    };
    let n: usize = to_chars(lower.as_str()).len();
    if n == 0 {
        return Line::one(Span::new(text, style));
    }
    let chars: Vec<char> = to_chars(text);
    let mut line: Line = Line::empty();
    let mut i: usize = 0;
    assert(line@ + marked(text@, lower@, style, 0) =~= marked(text@, lower@, style, 0));
    while i < chars.len()
        invariant
            chars@ == text@,
            n == lower@.len(),
            n > 0,
            i <= chars@.len(),
            line@ + marked(text@, lower@, style, i as int) == marked(text@, lower@, style, 0),
        decreases chars@.len() - i,
    {
        let ghost done = line@;
        if is_hit(&chars, lower.as_str(), n, i) {
            let span = Span {
                text: from_range(&chars, i, i + n),
                style: Style::fg(Color::Black).on(Color::Yellow).bold(),
            };
            proof {
                assert(span@ == SpanV {
                    text: text@.subrange(i as int, i + n),
                    style: match_style(),
                });
                assert(done + marked(text@, lower@, style, i as int) =~= done.push(span@) + marked(
                    text@,
                    lower@,
                    style,
                    i + n,
                ));
            }
            line.add(span);
            i = i + n;
        } else {
            let mut j: usize = i + 1;
            while j < chars.len() && !is_hit(&chars, lower.as_str(), n, j)
                invariant
                    chars@ == text@,
                    n == lower@.len(),
                    i < j <= chars@.len(),
                    next_hit(text@, lower@, i as int) == next_hit(text@, lower@, j as int),
                decreases chars@.len() - j,
            {
                j += 1;
            }
            let span = Span { text: from_range(&chars, i, j), style };
            proof {
                assert(next_hit(text@, lower@, i as int) == j);
                assert(done + marked(text@, lower@, style, i as int) =~= done.push(span@) + marked(
                    text@,
                    lower@,
                    style,
                    j as int,
                ));
            }
            line.add(span);
            i = j;
        }
    }
    assert(line@ + Seq::<SpanV>::empty() =~= line@);
    line
}

proof fn line_text_concat(a: Seq<SpanV>, b: Seq<SpanV>)
    ensures
        line_text(a + b) == line_text(a) + line_text(b),
    decreases b.len(),
{
    if b.len() == 0 {
        assert(a + b =~= a);
        assert(line_text(a) + line_text(b) =~= line_text(a));
    } else {
        line_text_concat(a, b.drop_last());
        assert((a + b).drop_last() =~= a + b.drop_last());
        assert((a + b).last() == b.last());
        assert(line_text(a + b) =~= line_text(a) + line_text(b));
    }
}

proof fn marked_text(s: Seq<char>, needle: Seq<char>, style: Style, i: int)
    requires
        0 <= i <= s.len(),
        needle.len() > 0,
    ensures
        line_text(marked(s, needle, style, i)) == s.skip(i),
    decreases s.len() - i,
{
    if i >= s.len() {
        assert(s.skip(i) =~= Seq::<char>::empty());
    } else {
        next_hit_bounds(s, needle, i);
        let k = if hit(s, needle, i) { i + needle.len() } else { next_hit(s, needle, i) };
        let st = if hit(s, needle, i) { match_style() } else { style };
        let head = seq![SpanV { text: s.subrange(i, k), style: st }];
        marked_text(s, needle, style, k);
        line_text_concat(head, marked(s, needle, style, k));
        assert(head.drop_last() =~= Seq::<SpanV>::empty());
        assert(line_text(head) =~= s.subrange(i, k)) by {
            reveal_with_fuel(line_text, 2);
        }
        assert(s.subrange(i, k) + s.skip(k) =~= s.skip(i));
    }
}

/// Highlighting changes no character of a text.
pub proof fn highlighting_keeps_the_text(s: Seq<char>, needle: Option<Seq<char>>, style: Style)
    ensures
        line_text(spans_of(s, needle, style)) == s,
{
    match needle {
        Some(n) => if lowercase(n).len() > 0 {
            marked_text(s, lowercase(n), style, 0);
            assert(s.skip(0) =~= s);
        } else {
            reveal_with_fuel(line_text, 2);
            assert(seq![SpanV { text: s, style }].drop_last() =~= Seq::<SpanV>::empty());
            assert(line_text(spans_of(s, needle, style)) =~= s);
        },
        None => {
            reveal_with_fuel(line_text, 2);
            assert(seq![SpanV { text: s, style }].drop_last() =~= Seq::<SpanV>::empty());
            assert(line_text(spans_of(s, needle, style)) =~= s);
        },
    }
}

// Messages.

/// Bytes that a character takes in UTF-8.
pub open spec fn utf8_width(c: char) -> int {
    if (c as u32) < 0x80 { 1 } else if (c as u32) < 0x800 { 2 } else if (c as u32) < 0x10000 { 3 }
    else { 4 }
}

/// Bytes that a text takes in UTF-8.
pub open spec fn utf8_len(s: Seq<char>) -> int
    decreases s.len(),
{
    if s.len() == 0 {
        0
    } else {
        utf8_len(s.drop_last()) + utf8_width(s.last())
    }
}

/// `a - b`, or zero where `b` is larger.
pub open spec fn minus(a: int, b: int) -> int {
    if a > b {
        a - b
    } else {
        0
    }
}

/// Columns of `width` left beside a text of `utf8_len(head)` bytes and two
/// spaces.
fn room_beside(head: &str, available: usize) -> (r: usize)
    ensures
        r == minus(available as int, utf8_len(head@) + 2),
{
    if available <= 2 {
        proof {
            utf8_len_is_nat(head@);
        }
        return 0;
    }
    let chars: Vec<char> = to_chars(head);
    let mut left: usize = available - 2;
    let mut i: usize = 0;
    proof {
        assert(chars@.take(0) =~= Seq::<char>::empty());
    }
    while i < chars.len()
        invariant
            chars@ == head@,
            i <= chars@.len(),
            available > 2,
            left <= available - 2,
            left == minus(available as int, utf8_len(chars@.take(i as int)) + 2),
        decreases chars@.len() - i,
    {
        let n: u32 = chars[i] as u32;
        let w: usize = if n < 0x80 { 1 } else if n < 0x800 { 2 } else if n < 0x10000 { 3 } else {
            4
        };
        assert(chars@.take(i as int + 1).drop_last() =~= chars@.take(i as int));
        left = if left > w { left - w } else { 0 };
        i += 1;
    }
    assert(chars@.take(i as int) =~= chars@);
    left
}

proof fn utf8_len_is_nat(s: Seq<char>)
    ensures
        utf8_len(s) >= s.len(),
    decreases s.len(),
{
    if s.len() > 0 {
        utf8_len_is_nat(s.drop_last());
    }
}

/// Each line of a list broken to a width, one after the other.
pub open spec fn wrapped_all(ls: Seq<Seq<char>>, width: int) -> Seq<Seq<char>>
    decreases ls.len(),
{
    if ls.len() == 0 {
        Seq::empty()
    } else {
        wrapped_all(ls.drop_last(), width) + wrapped(ls.last(), width)
    }
}

/// Whether one of the broken lines had to cut a word.
pub open spec fn some_cut(chunks: Seq<Seq<char>>) -> bool {
    exists|i: int|
        0 <= i < chunks.len() && (#[trigger] chunks[i]).len() > 0 && chunks[i].last() == '…'
}

pub open spec fn at_least_one(n: int) -> int {
    if n < 1 {
        1
    } else {
        n
    }
}

/// The lines of a message text: the first beside the head where there is room
/// for it, the others over the full width.
pub open spec fn text_chunks(text: Seq<char>, beside: int, available: int) -> Seq<Seq<char>> {
    let ls = line_list(text);
    if ls.len() == 0 {
        Seq::empty()
    } else {
        wrapped(ls[0], if beside > 0 { beside } else { at_least_one(available) }) + wrapped_all(
            ls.skip(1),
            available,
        )
    }
}

/// Who a message is from, as it is shown.
pub open spec fn author_of(m: MessageV) -> Seq<char> {
    if m.from_me {
        "You"@
    } else {
        m.sender
    }
}

pub open spec fn note_style() -> Style {
    Style { italic: true, ..fg_style(Color::DarkGray) }
}

pub open spec fn head_style() -> Style {
    Style { bold: true, ..fg_style(Color::DarkGray) }
}

pub open spec fn body_style(m: MessageV) -> Style {
    fg_style(if m.pending || m.failed { Color::DarkGray } else { Color::Gray })
}

/// The head of a message: author, time, and whether it was sent.
pub open spec fn head_of(m: MessageV, stamp: Seq<char>) -> Seq<char> {
    author_of(m) + " "@ + stamp + if m.failed {
        " ⚠ failed"@
    } else if m.pending {
        " …"@
    } else {
        ""@
    }
}

/// The caption of media, where it has one to show.
pub open spec fn caption_of(media: MessageMediaV) -> Option<Seq<char>> {
    match media.caption {
        Some(c) => if trimmed(c).len() > 0 {
            Some(trimmed(c))
        } else {
            None
        },
        None => None,
    }
}

/// The broken lines of a message's body, without media labels.
pub open spec fn body_chunks(m: MessageV, stamp: Seq<char>, width: u16) -> Seq<Seq<char>> {
    let available = minus(width as int, 2);
    match m.media {
        Some(media) => match caption_of(media) {
            Some(c) => wrapped_all(line_list(c), at_least_one(available)),
            None => Seq::empty(),
        },
        None => text_chunks(
            m.text,
            minus(available, utf8_len(head_of(m, stamp)) + 2),
            available,
        ),
    }
}

/// The lines of a message's body: for media its kind first, then the caption;
/// else the text.
pub open spec fn body_lines(
    m: MessageV,
    stamp: Seq<char>,
    width: u16,
    needle: Option<Seq<char>>,
) -> Seq<Seq<SpanV>> {
    let chunks = body_chunks(m, stamp, width).map_values(
        |c: Seq<char>| spans_of(c, needle, body_style(m)),
    );
    match m.media {
        Some(media) => match caption_of(media) {
            Some(c) => seq![
                seq![SpanV { text: media_label(media.kind) + ":"@, style: note_style() }],
            ] + chunks,
            None => seq![
                seq![
                    SpanV {
                        text: media_label(media.kind) + ", click to show"@,
                        style: note_style(),
                    },
                ],
            ],
        },
        None => chunks,
    }
}

/// The reply notice above a message that quotes another.
pub open spec fn reply_lines(m: MessageV) -> Seq<Seq<SpanV>> {
    if m.reply_to_id is Some {
        seq![
            seq![SpanV { text: "  "@ + author_of(m) + " replied"@, style: note_style() }],
        ]
    } else {
        Seq::empty()
    }
}

/// A message as lines, before they are capped: the reply notice, then the head
/// with the first line of the body behind it, then the rest of the body.
pub open spec fn full_lines(
    m: MessageV,
    stamp: Seq<char>,
    width: u16,
    needle: Option<Seq<char>>,
) -> Seq<Seq<SpanV>> {
    let body = body_lines(m, stamp, width, needle);
    let head = seq![
        SpanV { text: head_of(m, stamp), style: head_style() },
        SpanV { text: "  "@, style: plain_style() },
    ];
    if body.len() > 0 {
        reply_lines(m) + seq![head + body[0]] + body.skip(1)
    } else {
        reply_lines(m) + seq![head]
    }
}

pub open spec fn hint_line() -> Seq<SpanV> {
    seq![SpanV { text: "  Press Enter for full message…"@, style: note_style() }]
}

/// A message as lines: at most `max_lines`, and a hint where lines were left
/// out or a word was cut.
pub open spec fn lines_of(
    m: MessageV,
    stamp: Seq<char>,
    width: u16,
    max_lines: Option<usize>,
    needle: Option<Seq<char>>,
) -> Seq<Seq<SpanV>> {
    let full = full_lines(m, stamp, width, needle);
    if max_lines is Some && full.len() > max_lines.unwrap() {
        full.take(max_lines.unwrap() as int).push(hint_line())
    } else if some_cut(body_chunks(m, stamp, width)) {
        full.push(hint_line())
    } else {
        full
    }
}

fn wrap_into(out: &mut Vec<String>, line: &str, width: usize)
    ensures
        views(final(out)@) == views(old(out)@) + wrapped(line@, width as int),
{
    let ghost before = out@;
    let mut more: Vec<String> = wrap_text(line, width);
    let ghost m = more@;
    out.append(&mut more);
    assert(views(out@) =~= views(before) + views(m));
}

pub(crate) fn wrap_lines_into(out: &mut Vec<String>, ls: &Vec<String>, from: usize, width: usize)
    requires
        from <= ls@.len(),
    ensures
        views(final(out)@) == views(old(out)@) + wrapped_all(
            views(ls@).skip(from as int),
            width as int,
        ),
{
    let ghost before = views(out@);
    let ghost all = views(ls@).skip(from as int);
    let mut i: usize = from;
    assert(before + wrapped_all(all.take(0), width as int) =~= before);
    while i < ls.len()
        invariant
            from <= i <= ls@.len(),
            all == views(ls@).skip(from as int),
            views(out@) == before + wrapped_all(all.take(i - from), width as int),
        decreases ls@.len() - i,
    {
        let ghost prev = views(out@);
        wrap_into(out, ls[i].as_str(), width);
        proof {
            assert(all[i - from] == ls@[i as int]@);
            assert(all.take(i - from + 1).drop_last() =~= all.take(i - from));
            assert(views(out@) =~= before + (wrapped_all(all.take(i - from), width as int)
                + wrapped(ls@[i as int]@, width as int)));
        }
        i += 1;
    }
    assert(all.take(ls@.len() - from) =~= all);
}

fn chunks_of_text(text: &str, beside: usize, available: usize) -> (r: Vec<String>)
    ensures
        views(r@) == text_chunks(text@, beside as int, available as int),
{
    let ls: Vec<String> = lines(text);
    let mut out: Vec<String> = Vec::new();
    proof {
        assert(views(ls@).len() == ls@.len());
        assert(views(out@) =~= Seq::<Seq<char>>::empty());
    }
    if ls.len() == 0 {
        return out;
    }
    assert(views(ls@)[0] == ls@[0]@);
    let first: usize = if beside > 0 { beside } else if available < 1 { 1 } else { available };
    wrap_into(&mut out, ls[0].as_str(), first);
    wrap_lines_into(&mut out, &ls, 1, available);
    assert(views(out@) =~= text_chunks(text@, beside as int, available as int));
    out
}

fn any_cut(chunks: &Vec<String>) -> (r: bool)
    ensures
        r == some_cut(views(chunks@)),
{
    let ghost all = views(chunks@);
    let mut i: usize = 0;
    while i < chunks.len()
        invariant
            i <= chunks@.len(),
            all == views(chunks@),
            forall|k: int|
                0 <= k < i ==> !((#[trigger] all[k]).len() > 0 && all[k].last() == '…'),
        decreases chunks@.len() - i,
    {
        let c: Vec<char> = to_chars(chunks[i].as_str());
        assert(all[i as int] == c@);
        if c.len() > 0 && c[c.len() - 1] == '…' {
            assert(all[i as int].len() > 0 && all[i as int].last() == '…');
            return true;
        }
        i += 1;
    }
    false
}

fn author(message: &Message) -> (r: String)
    ensures
        r@ == author_of(message@),
{
    if message.from_me {
        owned("You")
    } else {
        message.sender.clone()
    }
}

pub(crate) fn append_lines(out: &mut Vec<Line>, more: Vec<Line>)
    ensures
        pages(final(out)@) == pages(old(out)@) + pages(more@),
{
    let ghost a = out@;
    let ghost b = more@;
    let mut more: Vec<Line> = more;
    out.append(&mut more);
    assert(pages(out@) =~= pages(a) + pages(b));
}

/// A message as lines, given the time it is shown with.
pub fn message_lines_at(
    message: &Message,
    stamp: &str,
    width: u16,
    max_lines: Option<usize>,
    needle: Option<&str>,
) -> (r: Vec<Line>)
    ensures
        pages(r@) == lines_of(
            message@,
            stamp@,
            width,
            max_lines,
            text_of(needle),
        ),
{
    let ghost m = message@;
    let ghost nv = text_of(needle);
    let mut result: Vec<Line> = Vec::new();
    assert(pages(result@) =~= Seq::<Seq<SpanV>>::empty());
    if message.reply_to_id.is_some() {
        let who: String = author(message);
        push_line(
            &mut result,
            Line::one(
                Span {
                    text: joined3("  ", who.as_str(), " replied"),
                    style: Style::fg(Color::DarkGray).italic(),
                },
            ),
        );
    }
    assert(pages(result@) =~= reply_lines(m));
    let body: Style = Style::fg(
        if message.pending || message.failed { Color::DarkGray } else { Color::Gray },
    );
    let suffix: &str = if message.failed { " ⚠ failed" } else if message.pending { " …" } else {
        ""
    };
    let who: String = author(message);
    let head: String = joined3(joined(who.as_str(), " ").as_str(), stamp, suffix);
    assert(head@ =~= head_of(m, stamp@));
    let available: usize = if width > 2 { (width - 2) as usize } else { 0 };
    let beside: usize = room_beside(head.as_str(), available);
    let note: Style = Style::fg(Color::DarkGray).italic();
    let mut lead: Vec<Line> = Vec::new();
    assert(pages(lead@) =~= Seq::<Seq<SpanV>>::empty());
    let mut chunks: Vec<String> = Vec::new();
    assert(views(chunks@) =~= Seq::<Seq<char>>::empty());
    match &message.media {
        Some(media) => {
            let caption: String = match &media.caption {
                Some(c) => trim(c.as_str()),
                None => String::new(),
            };
            let shown: bool = to_chars(caption.as_str()).len() > 0;
            if shown {
                push_line(
                    &mut lead,
                    Line::one(Span { text: joined(media.kind.label(), ":"), style: note }),
                );
                let ls: Vec<String> = lines(caption.as_str());
                wrap_lines_into(
                    &mut chunks,
                    &ls,
                    0,
                    if available < 1 { 1 } else { available },
                );
                assert(views(ls@).skip(0) =~= views(ls@));
                assert(views(chunks@) =~= body_chunks(m, stamp@, width));
            } else {
                push_line(
                    &mut lead,
                    Line::one(
                        Span { text: joined(media.kind.label(), ", click to show"), style: note },
                    ),
                );
            }
        },
        None => {
            chunks = chunks_of_text(message.text.as_str(), beside, available);
        },
    }
    let ghost bc = body_chunks(m, stamp@, width);
    assert(views(chunks@) == bc);
    let truncated: bool = any_cut(&chunks);
    let mut lines_out: Vec<Line> = lead;
    let ghost lead_v = pages(lines_out@);
    let ghost bs = body_style(m);
    let mut i: usize = 0;
    assert(lead_v + bc.take(0).map_values(|c: Seq<char>| spans_of(c, nv, bs)) =~= lead_v);
    while i < chunks.len()
        invariant
            i <= chunks@.len(),
            views(chunks@) == bc,
            body == bs,
            nv == text_of(needle),
            pages(lines_out@) == lead_v + bc.take(i as int).map_values(
                |c: Seq<char>| spans_of(c, nv, bs),
            ),
        decreases chunks@.len() - i,
    {
        assert(bc[i as int] == chunks@[i as int]@);
        push_line(&mut lines_out, body_spans(chunks[i].as_str(), needle, body));
        i += 1;
        assert(bc.take(i as int).map_values(|c: Seq<char>| spans_of(c, nv, bs)) =~= bc.take(
            i as int - 1,
        ).map_values(|c: Seq<char>| spans_of(c, nv, bs)).push(
            spans_of(bc[i as int - 1], nv, bs),
        ));
    }
    assert(bc.take(i as int) =~= bc);
    let ghost bl = body_lines(m, stamp@, width, nv);
    assert(pages(lines_out@) =~= bl);
    let mut first: Line = Line::empty();
    first.add(Span { text: head, style: Style::fg(Color::DarkGray).bold() });
    first.add(Span::new("  ", Style::plain()));
    let ghost hd = first@;
    assert(hd =~= seq![
        SpanV { text: head_of(m, stamp@), style: head_style() },
        SpanV { text: "  "@, style: plain_style() },
    ]);
    proof {
        assert(pages(lines_out@).len() == lines_out@.len());
    }
    if lines_out.len() > 0 {
        let mut line0: Line = lines_out.remove(0);
        assert(line0@ == bl[0]);
        let ghost s0 = line0.spans@;
        let ghost f0 = first.spans@;
        first.spans.append(&mut line0.spans);
        assert(first@ =~= hd + bl[0]) by {
            assert(first.spans@ =~= f0 + s0);
        }
        assert(pages(lines_out@) =~= bl.skip(1));
        push_line(&mut result, first);
        append_lines(&mut result, lines_out);
        assert(pages(result@) =~= full_lines(m, stamp@, width, nv));
    } else {
        push_line(&mut result, first);
        assert(pages(result@) =~= full_lines(m, stamp@, width, nv));
    }
    let ghost full = full_lines(m, stamp@, width, nv);
    proof {
        assert(pages(result@).len() == result@.len());
    }
    let hint: Line = Line::one(Span::new("  Press Enter for full message…", note));
    assert(hint@ =~= hint_line());
    if let Some(max) = max_lines {
        if result.len() > max {
            result.truncate(max);
            assert(pages(result@) =~= full.take(max as int));
            push_line(&mut result, hint);
            return result;
        }
    }
    if truncated {
        push_line(&mut result, hint);
    }
    result
}

/// A message as lines, with the time in this machine's time zone.
pub fn message_lines(
    message: &Message,
    width: u16,
    max_lines: Option<usize>,
    needle: Option<&str>,
) -> (r: Vec<Line>)
    ensures
        exists|stamp: Seq<char>|
            is_stamp(message.timestamp, stamp) && pages(r@) == #[trigger] lines_of(
                message@,
                stamp,
                width,
                max_lines,
                text_of(needle),
            ),
{
    let stamp: String = format_timestamp(message.timestamp);
    message_lines_at(message, stamp.as_str(), width, max_lines, needle)
}

/// A capped message takes at most one line more than the cap, the hint's; a
/// reply takes exactly one line more than the same message without its quote.
pub proof fn capped_message_height(
    m: MessageV,
    stamp: Seq<char>,
    width: u16,
    max: usize,
    needle: Option<Seq<char>>,
)
    ensures
        lines_of(m, stamp, width, Some(max), needle).len() <= max + 1,
        full_lines(m, stamp, width, needle).len() >= 1,
        m.reply_to_id is Some ==> full_lines(m, stamp, width, needle).len() == full_lines(
            MessageV { reply_to_id: None, ..m },
            stamp,
            width,
            needle,
        ).len() + 1,
{
    let p = MessageV { reply_to_id: None, ..m };
    assert(body_lines(m, stamp, width, needle) =~= body_lines(p, stamp, width, needle));
}

// The write box.

/// Rows that the lines of the write box take.
pub open spec fn visual_rows(ls: Seq<Seq<char>>, width: int) -> int
    decreases ls.len(),
{
    if ls.len() == 0 {
        0
    } else {
        visual_rows(ls.drop_last(), width) + wrapped(ls.last(), width).len()
    }
}

/// Rows that the write box needs for its lines, at least one; counted up to
/// the largest count a machine word holds.
pub open spec fn write_rows(ls: Seq<Seq<char>>, width: int) -> int {
    let rows = visual_rows(ls, minus(width, 2));
    if rows > usize::MAX {
        usize::MAX as int
    } else {
        at_least_one(rows)
    }
}

/// Rows that the write box needs for its lines.
pub fn write_visual_rows(lines: &Vec<String>, width: u16) -> (r: usize)
    ensures
        r == write_rows(views(lines@), width as int),
{
    let wrap_width: usize = if width > 2 { (width - 2) as usize } else { 0 };
    let ghost all = views(lines@);
    let mut count: usize = 0;
    let mut i: usize = 0;
    assert(all.take(0) =~= Seq::<Seq<char>>::empty());
    while i < lines.len()
        invariant
            i <= lines@.len(),
            all == views(lines@),
            wrap_width == minus(width as int, 2),
            count == if visual_rows(all.take(i as int), wrap_width as int) > usize::MAX {
                usize::MAX as int
            } else {
                visual_rows(all.take(i as int), wrap_width as int)
            },
        decreases lines@.len() - i,
    {
        assert(all.take(i as int + 1).drop_last() =~= all.take(i as int));
        assert(all[i as int] == lines@[i as int]@);
        let chunks: Vec<String> = wrap_text(lines[i].as_str(), wrap_width);
        assert(views(chunks@).len() == chunks@.len());
        let n: usize = chunks.len();
        count = if count > usize::MAX - n { usize::MAX } else { count + n };
        i += 1;
    }
    assert(all.take(i as int) =~= all);
    if count < 1 {
        1
    } else {
        count
    }
}

/// Height of the write box: two border rows and up to `max_lines` rows of
/// content, within the area.
pub open spec fn box_height(rows: int, max_lines: int, area_height: int) -> int {
    let max = at_least_one(max_lines);
    let shown = if rows < 1 { 1 } else if rows > max { max } else { rows };
    let total = shown + 2;
    if total < area_height {
        total
    } else {
        area_height
    }
}

/// Height of the write box.
pub fn write_box_height(content_rows: usize, max_lines: usize, area_height: u16) -> (r: u16)
    ensures
        r == box_height(content_rows as int, max_lines as int, area_height as int),
{
    let max: usize = if max_lines < 1 { 1 } else { max_lines };
    let rows: usize = if content_rows < 1 { 1 } else if content_rows > max { max } else {
        content_rows
    };
    if rows < 0xffff && rows + 2 < area_height as usize {
        (rows + 2) as u16
    } else {
        area_height
    }
}

/// The write box never exceeds the area, and with few lines and room to spare
/// it shows them all.
pub proof fn write_box_fits(rows: int, max_lines: int, area_height: int)
    requires
        rows >= 0,
        max_lines >= 0,
        area_height >= 0,
    ensures
        box_height(rows, max_lines, area_height) <= area_height,
        1 <= rows <= max_lines && rows + 2 <= area_height ==> box_height(
            rows,
            max_lines,
            area_height,
        ) == rows + 2,
{
}

// The pane.

/// Colour of the pane of a chat that has the keyboard.
pub open spec fn tag_color(tag: Seq<char>) -> Color {
    if tag == "TG"@ {
        Color::LightBlue
    } else if tag == "WA"@ {
        Color::Green
    } else {
        Color::Yellow
    }
}

fn color_of_tag(tag: &str) -> (r: Color)
    ensures
        r == tag_color(tag@),
{
    if same(tag, "TG") {
        Color::LightBlue
    } else if same(tag, "WA") {
        Color::Green
    } else {
        Color::Yellow
    }
}

/// The tag of the selected chat, or the one of the user's own chat.
pub open spec fn shown_tag(st: ChatStateV) -> Seq<char> {
    match selected_chat_of(st) {
        Some(c) => tag_of(c.id),
        None => "ME"@,
    }
}

/// The border of the pane.
pub open spec fn pane_border(st: ChatStateV, focus: Focus) -> Style {
    if focus == Focus::Chat || focus == Focus::Write {
        fg_style(tag_color(shown_tag(st)))
    } else {
        plain_style()
    }
}

/// The status of a chat, as it is shown.
pub open spec fn status_text(c: ChatV) -> Seq<char> {
    match c.status {
        Some(s) => if blank(s) {
            ""@
        } else {
            s
        },
        None => ""@,
    }
}

/// The title of the pane: name and status of the selected chat.
pub open spec fn pane_title(st: ChatStateV) -> Seq<SpanV> {
    match selected_chat_of(st) {
        Some(c) => {
            let name = trimmed(c.contact_name);
            let label = if name.len() == 0 {
                "Unnamed chat"@
            } else {
                (if c.verified { "✓ "@ } else { ""@ }) + name
            };
            let status = status_text(c);
            seq![
                SpanV { text: " "@ + label + " "@, style: plain_style() },
                if status == "online"@ {
                    SpanV { text: "•"@, style: fg_style(Color::Green) }
                } else if status == ""@ {
                    SpanV { text: ""@, style: plain_style() }
                } else {
                    SpanV { text: "•"@, style: fg_style(Color::DarkGray) }
                },
                SpanV { text: " "@ + status + " "@, style: note_style() },
            ]
        },
        None => seq![SpanV { text: " No chat selected "@, style: plain_style() }],
    }
}

/// The title of the pane.
pub fn title_of_pane(state: &ChatState) -> (r: Line)
    ensures
        r@ == pane_title(state@),
{
    let mut line: Line = Line::empty();
    match state.selected_chat() {
        Some(chat) => {
            let name: String = trim(chat.contact_name.as_str());
            let unnamed: bool = to_chars(name.as_str()).len() == 0;
            let label: String = if unnamed {
                owned("Unnamed chat")
            } else if chat.verified {
                joined("✓ ", name.as_str())
            } else {
                joined("", name.as_str())
            };
            let status: String = match chat.status_label() {
                Some(s) => owned(s),
                None => owned(""),
            };
            line.add(Span { text: joined3(" ", label.as_str(), " "), style: Style::plain() });
            if same(status.as_str(), "online") {
                line.add(Span::new("•", Style::fg(Color::Green)));
            } else if same(status.as_str(), "") {
                line.add(Span::new("", Style::plain()));
            } else {
                line.add(Span::new("•", Style::fg(Color::DarkGray)));
            }
            line.add(
                Span {
                    text: joined3(" ", status.as_str(), " "),
                    style: Style::fg(Color::DarkGray).italic(),
                },
            );
        },
        None => {
            line.add(Span::new(" No chat selected ", Style::plain()));
        },
    }
    assert(line@ =~= pane_title(state@));
    line
}

/// The highlight of the selected message.
pub open spec fn message_highlight(st: ChatStateV, focus: Focus) -> Style {
    if focus == Focus::Chat {
        Style {
            fg: Some(Color::Black),
            bg: Some(tag_color(shown_tag(st))),
            bold: true,
            italic: false,
            reversed: false,
        }
    } else {
        Style { reversed: true, ..plain_style() }
    }
}

/// The title of the write box: what is edited or replied to.
pub open spec fn write_title(st: ChatStateV) -> Seq<char> {
    if st.pending_edit is Some {
        " Write - Editing "@ + st.pending_edit.unwrap().text + " "@
    } else if st.pending_reply is Some {
        " Write - Replying to '"@ + st.pending_reply.unwrap().sender + "': "@
            + st.pending_reply.unwrap().text + " "@
    } else {
        " Write "@
    }
}

/// The title of the write box.
pub fn title_of_write(state: &ChatState) -> (r: String)
    ensures
        r@ == write_title(state@),
{
    if let Some(m) = &state.pending_edit {
        joined3(" Write - Editing ", m.text.as_str(), " ")
    } else if let Some(m) = &state.pending_reply {
        joined3(
            joined3(" Write - Replying to '", m.sender.as_str(), "': ").as_str(),
            m.text.as_str(),
            " ",
        )
    } else {
        owned(" Write ")
    }
}

/// Whether the messages of the selected chat are loaded.
pub open spec fn shows_messages(st: ChatStateV) -> bool {
    st.open_chat is Some && selected_chat_of(st) is Some && st.open_chat.unwrap().chat.id
        == selected_chat_of(st).unwrap().id
}

/// What is shown in place of messages.
pub open spec fn pane_hint(st: ChatStateV) -> Seq<char> {
    if selected_chat_of(st) is Some {
        "Press Enter to open this chat"@
    } else {
        "No chat selected. j/k move, Enter open."@
    }
}

/// Where the parts of the pane stand.
#[derive(Clone, Copy, Debug, PartialEq, Eq, Structural)]
pub struct PaneAreas {
    pub messages: Rect,
    pub write: Rect,
    /// Inside the border of the messages.
    pub inner: Rect,
    pub content: Rect,
    pub scrollbar: Rect,
}

/// The pane from top to bottom: the messages, and the write box.
pub open spec fn pane_rows(write_height: u16) -> Seq<Part> {
    seq![Part::Fill(1), Part::Length(write_height)]
}

/// The messages from left to right: their text, a gap, and the scrollbar.
pub open spec fn pane_columns() -> Seq<Part> {
    seq![Part::Fill(1), Part::Length(1), Part::Length(1)]
}

/// Whether the parts of the pane stand where they should, for a write box of a
/// given height.
pub open spec fn is_pane(a: PaneAreas, area: Rect, write_height: u16) -> bool {
    &&& is_rows(area, pane_rows(write_height), seq![a.messages, a.write])
    &&& a.inner == inset(a.messages, 1, 1)
    &&& exists|columns: Seq<Rect>| #[trigger]
        is_columns(a.inner, pane_columns(), columns) && a.content == columns[0] && a.scrollbar
            == columns[2]
}

fn areas_of_pane(area: Rect, write_height: u16) -> (r: PaneAreas)
    ensures
        is_pane(r, area, write_height),
{
    let parts: Vec<Part> = vec![Part::Fill(1), Part::Length(write_height)];
    assert(parts@ =~= pane_rows(write_height));
    proof {
        one_part_grows(parts@, 0);
    }
    let rows: Vec<Rect> = split_rows(area, &parts);
    let inner: Rect = inner_area(rows[0], 1, 1);
    let cols: Vec<Part> = vec![Part::Fill(1), Part::Length(1), Part::Length(1)];
    assert(cols@ =~= pane_columns());
    proof {
        one_part_grows(cols@, 0);
    }
    let columns: Vec<Rect> = split_columns(inner, &cols);
    assert(rows@ =~= seq![rows@[0], rows@[1]]);
    PaneAreas {
        messages: rows[0],
        write: rows[1],
        inner,
        content: columns[0],
        scrollbar: columns[2],
    }
}

/// The height of the write box in an area, for the lines written so far.
pub open spec fn write_height(write_lines: Seq<Seq<char>>, max_write_lines: int, area: Rect) -> u16 {
    box_height(
        write_rows(write_lines, minus(area.width as int, 2)),
        at_least_one(max_write_lines),
        area.height as int,
    ) as u16
}

/// Everything the pane draws.
pub struct ChatPane {
    pub title: Line,
    pub border: Style,
    pub areas: PaneAreas,
    /// The messages as lines; none where a hint is shown instead.
    pub items: Option<Vec<Vec<Line>>>,
    pub hint: &'static str,
    pub highlight: Style,
    pub write_border: Style,
    pub write_title: String,
}

/// The times messages are shown with.
pub fn stamps_of(history: &Vec<Message>) -> (r: Vec<String>)
    ensures
        r@.len() == history@.len(),
        forall|i: int|
            0 <= i < r@.len() ==> is_stamp(history@[i].timestamp, (#[trigger] r@[i])@),
{
    let mut out: Vec<String> = Vec::new();
    let mut i: usize = 0;
    while i < history.len()
        invariant
            i <= history@.len(),
            out@.len() == i,
            forall|k: int|
                0 <= k < i ==> is_stamp(history@[k].timestamp, (#[trigger] out@[k])@),
        decreases history@.len() - i,
    {
        out.push(format_timestamp(history[i].timestamp));
        i += 1;
    }
    out
}

/// What the pane draws in given areas.
pub open spec fn is_chat_pane(
    r: ChatPane,
    st: ChatStateV,
    stamps: Seq<Seq<char>>,
    focus: Focus,
    needle: Option<Seq<char>>,
    areas: PaneAreas,
) -> bool {
    &&& r.title@ == pane_title(st)
    &&& r.border == pane_border(st, focus)
    &&& r.areas == areas
    &&& r.items is Some <==> shows_messages(st)
    &&& r.items is Some ==> r.items.unwrap()@.len() == stamps.len() && forall|i: int|
        0 <= i < stamps.len() ==> pages((#[trigger] r.items.unwrap()@[i])@) == lines_of(
            st.open_chat.unwrap().history[i],
            stamps[i],
            areas.content.width,
            Some(5),
            needle,
        )
    &&& r.hint@ == pane_hint(st)
    &&& r.highlight == message_highlight(st, focus)
    &&& r.write_border == if focus == Focus::Write { r.border } else { plain_style() }
    &&& r.write_title@ == write_title(st)
}

/// The chats once the pane was drawn in given areas: how many rows of messages
/// fit is remembered.
pub open spec fn pane_drawn(st: ChatStateV, areas: PaneAreas) -> ChatStateV {
    ChatStateV {
        visible_page: if shows_messages(st) {
            areas.inner.height as usize
        } else {
            st.visible_page
        },
        ..st
    }
}

/// Works out everything the pane draws, given the times of its messages, and
/// remembers how many rows of messages fit.
pub fn chat_pane(
    state: &mut ChatState,
    stamps: &Vec<String>,
    focus: Focus,
    write_lines: &Vec<String>,
    max_write_lines: usize,
    needle: Option<&str>,
    area: Rect,
) -> (r: ChatPane)
    requires
        old(state)@.open_chat is Some ==> stamps@.len() == old(
            state,
        )@.open_chat.unwrap().history.len(),
    ensures
        is_pane(r.areas, area, write_height(views(write_lines@), max_write_lines as int, area)),
        is_chat_pane(r, old(state)@, views(stamps@), focus, text_of(needle), r.areas),
        final(state)@ == pane_drawn(old(state)@, r.areas),
{
    let width: u16 = if area.width > 2 { area.width - 2 } else { 0 };
    let rows: usize = write_visual_rows(write_lines, width);
    let max: usize = if max_write_lines < 1 { 1 } else { max_write_lines };
    let height: u16 = write_box_height(rows, max, area.height);
    let areas: PaneAreas = areas_of_pane(area, height);
    chat_pane_in(state, stamps, focus, needle, areas)
}

/// Works out everything the pane draws in given areas.
pub fn chat_pane_in(
    state: &mut ChatState,
    stamps: &Vec<String>,
    focus: Focus,
    needle: Option<&str>,
    areas: PaneAreas,
) -> (r: ChatPane)
    requires
        old(state)@.open_chat is Some ==> stamps@.len() == old(
            state,
        )@.open_chat.unwrap().history.len(),
    ensures
        is_chat_pane(r, old(state)@, views(stamps@), focus, text_of(needle), areas),
        final(state)@ == pane_drawn(old(state)@, areas),
{
    let tag: &'static str = match state.selected_chat() {
        Some(c) => c.id.tag(),
        None => "ME",
    };
    let border: Style = if focus == Focus::Chat || focus == Focus::Write {
        Style::fg(color_of_tag(tag))
    } else {
        Style::plain()
    };
    let title: Line = title_of_pane(state);
    let opened: bool = match (state.selected_chat(), &state.open_chat) {
        (Some(c), Some(open)) => open.chat.id == c.id,
        _ => false,
    };
    let some_chat: bool = state.selected_chat().is_some();
    let hint: &'static str = if some_chat {
        "Press Enter to open this chat"
    } else {
        "No chat selected. j/k move, Enter open."
    };
    let highlight: Style = if focus == Focus::Chat {
        Style::fg(Color::Black).on(color_of_tag(tag)).bold()
    } else {
        Style { fg: None, bg: None, bold: false, italic: false, reversed: true }
    };
    let mut items: Option<Vec<Vec<Line>>> = None;
    if opened {
        state.visible_page = areas.inner.height as usize;
        if let Some(open) = &state.open_chat {
            let mut out: Vec<Vec<Line>> = Vec::new();
            let mut i: usize = 0;
            while i < open.history.len()
                invariant
                    i <= open.history@.len(),
                    open.history@.len() == stamps@.len(),
                    out@.len() == i,
                    forall|k: int|
                        0 <= k < i ==> pages((#[trigger] out@[k])@) == lines_of(
                            open.history@[k]@,
                            stamps@[k]@,
                            areas.content.width,
                            Some(5),
                            text_of(needle),
                        ),
                decreases open.history@.len() - i,
            {
                out.push(
                    message_lines_at(
                        &open.history[i],
                        stamps[i].as_str(),
                        areas.content.width,
                        Some(5),
                        needle,
                    ),
                );
                i += 1;
            }
            items = Some(out);
        }
    }
    let write_title: String = title_of_write(state);
    ChatPane {
        title,
        border,
        areas,
        items,
        hint,
        highlight,
        write_border: if focus == Focus::Write { border } else { Style::plain() },
        write_title,
    }
}

/// The scrollbar of a list of messages.
#[derive(Clone, Copy, Debug, PartialEq, Eq, Structural)]
pub struct ScrollPlan {
    pub content: usize,
    pub position: usize,
    pub viewport: usize,
}

/// Lines that a list of items takes.
pub open spec fn height_sum(heights: Seq<usize>) -> int
    decreases heights.len(),
{
    if heights.len() == 0 {
        0
    } else {
        height_sum(heights.drop_last()) + heights.last()
    }
}

proof fn height_sum_grows(h: Seq<usize>, i: int)
    requires
        0 <= i <= h.len(),
    ensures
        0 <= height_sum(h.take(i)) <= height_sum(h),
    decreases h.len(),
{
    if i < h.len() {
        height_sum_grows(h.drop_last(), i);
        assert(h.drop_last().take(i) =~= h.take(i));
    } else {
        assert(h.take(i) =~= h);
        if h.len() > 0 {
            height_sum_grows(h.drop_last(), h.len() - 1);
            assert(h.drop_last().take(h.len() - 1) =~= h.drop_last());
        }
    }
}

/// The scrollbar for messages of the given heights, `first` being the first
/// one in view; none where all of them fit.
pub fn scroll_plan(heights: &Vec<usize>, first: usize, visible: usize) -> (r: Option<ScrollPlan>)
    requires
        first <= heights@.len(),
        height_sum(heights@) <= usize::MAX,
    ensures
        match r {
            Some(p) => height_sum(heights@) > visible && p == (ScrollPlan {
                content: (height_sum(heights@) - visible) as usize,
                position: height_sum(heights@.take(first as int)) as usize,
                viewport: visible,
            }),
            None => height_sum(heights@) <= visible,
        },
{
    let mut total: usize = 0;
    let mut position: usize = 0;
    let mut i: usize = 0;
    assert(heights@.take(0) =~= Seq::<usize>::empty());
    while i < heights.len()
        invariant
            i <= heights@.len(),
            first <= heights@.len(),
            height_sum(heights@) <= usize::MAX,
            total == height_sum(heights@.take(i as int)),
            position == height_sum(heights@.take(if i < first { i as int } else { first as int })),
        decreases heights@.len() - i,
    {
        proof {
            assert(heights@.take(i as int + 1).drop_last() =~= heights@.take(i as int));
            height_sum_grows(heights@, i as int + 1);
        }
        total += heights[i];
        if i < first {
            position = total;
        }
        i += 1;
    }
    assert(heights@.take(i as int) =~= heights@);
    if total > visible {
        Some(ScrollPlan { content: total - visible, position, viewport: visible })
    } else {
        None
    }
}

}
