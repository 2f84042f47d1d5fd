//! Small computations shared by the screens and the providers.
use vstd::prelude::*;
use qrcode::render::unicode::Dense1x2;
use qrcode::QrCode;
use std::time::SystemTime;

use crate::backend::{Message, MessageAction, MessageV};
use crate::layout::Rect;
use crate::text::{
    blank, decimal, format_u64, from_chars, from_range, is_blank, joined, line_list, lines, owned,
    split_whitespace, to_chars, views, words,
};

verus! {

/// `SystemTime::now`: seconds since the Unix epoch on this machine's clock,
/// which are never negative. Nothing else is claimed of the value.
#[verifier::external_body]
pub fn now() -> (r: i64)
    ensures
        r >= 0,
{
    match SystemTime::now().duration_since(SystemTime::UNIX_EPOCH) {
        Ok(since) => i64::try_from(since.as_secs()).unwrap_or(i64::MAX),
        Err(_) => 0,
    }
}

/// How long ago `ts` was at the time `now`, in the largest whole unit.
pub open spec fn ago(now: int, ts: int) -> Seq<char> {
    let raw = now - ts;
    let delta = if raw < 0 { 0 } else if raw > i64::MAX { i64::MAX as int } else { raw };
    if delta < 60 {
        "just now"@
    } else if delta < 3600 {
        decimal((delta / 60) as nat) + "m ago"@
    } else if delta < 86400 {
        decimal((delta / 3600) as nat) + "h ago"@
    } else {
        decimal((delta / 86400) as nat) + "d ago"@
    }
}

/// How long ago `ts` was at the time `now`.
pub fn relative_at(now: i64, ts: i64) -> (r: String)
    ensures
        r@ == ago(now as int, ts as int),
{
    let delta: i64 = if now <= ts {
        0
    } else if ts < 0 && now > i64::MAX + ts {
        i64::MAX
    } else {
        now - ts
    };
    if delta < 60 {
        owned("just now")
    } else if delta < 3600 {
        joined(format_u64((delta / 60) as u64).as_str(), "m ago")
    } else if delta < 86400 {
        joined(format_u64((delta / 3600) as u64).as_str(), "h ago")
    } else {
        joined(format_u64((delta / 86400) as u64).as_str(), "d ago")
    }
}

/// How long ago `ts` was.
pub fn relative(ts: i64) -> (r: String)
    ensures
        exists|now: i64| 0 <= now && r@ == #[trigger] ago(now as int, ts as int),
{
    let t: i64 = now();
    let r: String = relative_at(t, ts);
    assert(r@ == ago(t as int, ts as int));
    r
}

/// What the user can do with a message: nothing while it is not confirmed,
/// reply to any other, and edit or delete the user's own.
pub open spec fn actions_of(m: MessageV) -> Seq<MessageAction> {
    if m.pending || m.failed {
        Seq::empty()
    } else if m.from_me {
        seq![MessageAction::Reply, MessageAction::Edit, MessageAction::Delete]
    } else {
        seq![MessageAction::Reply]
    }
}

/// What the user can do with a message.
pub fn available_message_actions(message: &Message) -> (r: Vec<MessageAction>)
    ensures
        r@ == actions_of(message@),
{
    let mut actions: Vec<MessageAction> = Vec::new();
    if message.pending || message.failed {
        assert(actions@ =~= Seq::<MessageAction>::empty());
        return actions;
    }
    actions.push(MessageAction::Reply);
    if message.from_me {
        actions.push(MessageAction::Edit);
        actions.push(MessageAction::Delete);
    }
    assert(actions@ =~= actions_of(message@));
    actions
}

/// Rows that a list of lines takes when each is broken after `width`
/// characters; a line takes at least one row.
pub open spec fn broken_rows(ls: Seq<Seq<char>>, width: int) -> int
    decreases ls.len(),
{
    if ls.len() == 0 {
        0
    } else {
        let n = ls.last().len() as int;
        broken_rows(ls.drop_last(), width) + if n == 0 || n / width < 1 { 1 } else { n / width }
    }
}

/// The height of a popup for a text: its rows, the footer's two, and four for
/// borders and padding, within the area.
pub open spec fn popup_height(msg: Seq<char>, width: u16, area_height: u16, footer: bool) -> u16 {
    let rows = broken_rows(line_list(msg), width - 4) + if footer { 2int } else { 0 };
    let room = if area_height < 4 { 0 } else { area_height - 4 };
    (if rows + 4 < room { rows + 4 } else { room }) as u16
}

/// The height of a popup for a text; a text that is not all empty lines needs
/// some room for its characters.
pub fn calc_height(msg: &str, width: u16, area: Rect, footer: bool) -> (r: u16)
    requires
        width > 4 || forall|i: int|
            0 <= i < line_list(msg@).len() ==> (#[trigger] line_list(msg@)[i]).len() == 0,
    ensures
        r == popup_height(msg@, width, area.height, footer),
{
    let available: u64 = if width > 4 { (width - 4) as u64 } else { 1 };
    let all: Vec<String> = lines(msg);
    let ghost ls = line_list(msg@);
    let mut rows: u64 = 0;
    let mut i: usize = 0;
    proof {
        assert(views(all@).len() == all@.len());
    }
    while i < all.len()
        invariant
            i <= all@.len(),
            ls == views(all@),
            width > 4 ==> available == width - 4,
            width > 4 || forall|k: int| 0 <= k < ls.len() ==> (#[trigger] ls[k]).len() == 0,
            available > 0,
            rows <= 0x10000,
            rows < 0x10000 ==> rows == broken_rows(ls.take(i as int), width - 4),
            rows <= broken_rows(ls.take(i as int), width - 4),
        decreases all@.len() - i,
    {
        let n: u64 = to_chars(all[i].as_str()).len() as u64;
        let whole: u64 = n / available;
        let more: u64 = if whole < 1 { 1 } else { whole };
        proof {
            assert(ls.take(i as int + 1).drop_last() =~= ls.take(i as int));
            assert(ls[i as int] == all@[i as int]@);
            assert(n == 0 ==> whole == 0) by (nonlinear_arith)
                requires
                    whole == n / available,
                    available > 0,
            ;
        }
        rows = if more >= 0x10000 - rows { 0x10000 } else { rows + more };
        i += 1;
    }
    assert(ls.take(i as int) =~= ls);
    let height: u64 = rows + if footer { 6 } else { 4 };
    let room: u16 = if area.height < 4 { 0 } else { area.height - 4 };
    if height < room as u64 {
        height as u16
    } else {
        room
    }
}

/// The picture that `QrCode::new` and its half-block renderer with a quiet
/// zone give for a payload; none where the payload is too long to encode.
pub uninterp spec fn qr_picture(payload: Seq<char>) -> Option<Seq<char>>;

/// `QrCode::new`, then `render::<Dense1x2>` with a quiet zone: a text picture,
/// a function of the payload alone.
#[verifier::external_body]
fn qr_art(payload: &str) -> (r: Option<String>)
    ensures
        match r {
            Some(art) => qr_picture(payload@) == Some(art@),
            None => qr_picture(payload@) is None,
        },
{
    match QrCode::new(payload) {
        Ok(code) => Some(code.render::<Dense1x2>().quiet_zone(true).build()),
        Err(_) => None,
    }
}

/// What is shown for a pairing payload, given its picture.
pub open spec fn qr_text(payload: Seq<char>, picture: Option<Seq<char>>) -> Seq<char> {
    if blank(payload) {
        "Waiting for a QR code..."@
    } else {
        match picture {
            Some(art) => art,
            None => "QR encoding failed; scan this pairing payload:\n"@ + payload,
        }
    }
}

/// What is shown for a pairing payload, given its picture: a notice while
/// there is no payload, and the payload itself where it has no picture.
pub fn render_qr_art(payload: &str, art: Option<String>) -> (r: String)
    ensures
        r@ == qr_text(
            payload@,
            match art {
                Some(a) => Some(a@),
                None => None,
            },
        ),
{
    if is_blank(payload) {
        return owned("Waiting for a QR code...");
    }
    match art {
        Some(a) => a,
        None => joined("QR encoding failed; scan this pairing payload:\n", payload),
    }
}

/// What is shown for a pairing payload.
pub fn render_qr(payload: &str) -> (r: String)
    ensures
        r@ == qr_text(payload@, qr_picture(payload@)),
{
    render_qr_art(payload, qr_art(payload))
}

/// A word cut to `width` characters, the last of them an ellipsis.
pub open spec fn cut_word(word: Seq<char>, width: int) -> Seq<char> {
    word.take(width - 1).push('…')
}

/// Finished lines and the line in progress after the words so far: a word goes
/// on the line in progress where it fits, a word too wide for any line is cut
/// and stands alone.
pub open spec fn filled(ws: Seq<Seq<char>>, width: int) -> (Seq<Seq<char>>, Seq<char>)
    decreases ws.len(),
{
    if ws.len() == 0 {
        (Seq::empty(), Seq::empty())
    } else {
        let (done, line) = filled(ws.drop_last(), width);
        let word = ws.last();
        if line.len() > 0 && line.len() + 1 + word.len() <= width {
            (done, line + seq![' '] + word)
        } else {
            let closed = if line.len() > 0 { done.push(line) } else { done };
            if word.len() > width {
                (closed.push(cut_word(word, width)), Seq::empty())
            } else {
                (closed, word)
            }
        }
    }
}

/// A text broken into lines of at most `width` characters.
pub open spec fn wrapped(text: Seq<char>, width: int) -> Seq<Seq<char>> {
    if width == 0 || words(text).len() == 0 {
        seq![text]
    } else {
        let (done, line) = filled(words(text), width);
        if line.len() > 0 {
            done.push(line)
        } else {
            done
        }
    }
}

fn push_view(out: &mut Vec<String>, s: String)
    ensures
        views(final(out)@) == views(old(out)@).push(s@),
{
    let ghost before = out@;
    let ghost v = s@;
    out.push(s);
    assert(views(out@) =~= views(before).push(v));
}

fn cut(word: &Vec<char>, width: usize) -> (r: String)
    requires
        0 < width < word@.len(),
    ensures
        r@ == cut_word(word@, width as int),
{
    let mut s: String = from_range(word, 0, width - 1);
    assert(word@.subrange(0, width - 1) =~= word@.take(width - 1));
    s.push('…');
    s
}

/// Breaks a text into lines of at most `max_width` characters, at spaces; a
/// word that is wider is cut and ends in an ellipsis.
pub fn wrap_text(text: &str, max_width: usize) -> (r: Vec<String>)
    ensures
        views(r@) == wrapped(text@, max_width as int),
        r@.len() > 0,
{
    let mut chunks: Vec<String> = Vec::new();
    assert(views(chunks@) =~= Seq::<Seq<char>>::empty());
    let ws: Vec<String> = split_whitespace(text);
    proof {
        assert(views(ws@).len() == ws@.len());
    }
    if max_width == 0 || ws.len() == 0 {
        push_view(&mut chunks, owned(text));
        assert(views(chunks@) =~= seq![text@]);
        return chunks;
    }
    let ghost all = words(text@);
    let mut line: Vec<char> = Vec::new();
    let mut i: usize = 0;
    assert(filled(all.take(0), max_width as int).1 =~= line@);
    while i < ws.len()
        invariant
            i <= ws@.len(),
            max_width > 0,
            all == views(ws@),
            views(chunks@) == filled(all.take(i as int), max_width as int).0,
            line@ == filled(all.take(i as int), max_width as int).1,
        decreases ws@.len() - i,
    {
        let word: Vec<char> = to_chars(ws[i].as_str());
        proof {
            assert(all.take(i as int + 1).drop_last() =~= all.take(i as int));
            assert(all[i as int] == word@);
        }
        let fits: bool = line.len() > 0 && line.len() < max_width && word.len() <= max_width
            - line.len() - 1;
        if fits {
            line.push(' ');
            let mut k: usize = 0;
            let ghost base = line@;
            assert(base + word@.take(0) =~= base);
            while k < word.len()
                invariant
                    k <= word@.len(),
                    line@ == base + word@.take(k as int),
                decreases word@.len() - k,
            {
                line.push(word[k]);
                k += 1;
                assert(base + word@.take(k as int) =~= (base + word@.take(k as int - 1)).push(
                    word@[k as int - 1],
                ));
            }
            assert(word@.take(k as int) =~= word@);
            assert(line@ =~= filled(all.take(i as int + 1), max_width as int).1);
        } else {
            if line.len() > 0 {
                push_view(&mut chunks, from_chars(&line));
            }
            if word.len() > max_width {
                push_view(&mut chunks, cut(&word, max_width));
                line = Vec::new();
                assert(line@ =~= Seq::<char>::empty());
            } else {
                line = word;
            }
        }
        i += 1;
    }
    assert(all.take(i as int) =~= all);
    if line.len() > 0 {
        push_view(&mut chunks, from_chars(&line));
    }
    proof {
        words_not_empty(text@, 0);
        filled_not_empty(all, max_width as int);
        assert(views(chunks@).len() == chunks@.len());
    }
    chunks
}

proof fn words_not_empty(s: Seq<char>, from: int)
    requires
        0 <= from <= s.len(),
    ensures
        forall|i: int|
            0 <= i < crate::text::words_from(s, from).len() ==> (#[trigger] crate::text::words_from(
                s,
                from,
            )[i]).len() > 0,
    decreases s.len() - from,
{
    if from < s.len() {
        if crate::text::is_space(s[from]) {
            words_not_empty(s, from + 1);
            assert(crate::text::words_from(s, from) == crate::text::words_from(s, from + 1));
        } else {
            let end = crate::text::word_end(s, from);
            crate::text::word_end_bounds(s, from);
            words_not_empty(s, end);
            let rest = crate::text::words_from(s, end);
            let all = crate::text::words_from(s, from);
            assert(all =~= seq![s.subrange(from, end)] + rest);
            assert forall|i: int| 0 <= i < all.len() implies (#[trigger] all[i]).len() > 0 by {
                if i > 0 {
                    assert(all[i] == rest[i - 1]);
                }
            }
        }
    }
}

proof fn filled_not_empty(ws: Seq<Seq<char>>, width: int)
    requires
        width > 0,
        forall|i: int| 0 <= i < ws.len() ==> (#[trigger] ws[i]).len() > 0,
    ensures
        ws.len() > 0 ==> filled(ws, width).0.len() > 0 || filled(ws, width).1.len() > 0,
{
    if ws.len() > 0 {
        assert(ws[ws.len() - 1].len() > 0);
    }
}

/// No line of a broken text is wider than asked for, where there is a word.
pub proof fn wrapped_lines_fit(text: Seq<char>, width: int)
    requires
        width > 0,
        words(text).len() > 0,
    ensures
        forall|i: int|
            0 <= i < wrapped(text, width).len() ==> (#[trigger] wrapped(text, width)[i]).len()
                <= width,
{
    filled_fits(words(text), width);
}

proof fn filled_fits(ws: Seq<Seq<char>>, width: int)
    requires
        width > 0,
    ensures
        forall|i: int|
            0 <= i < filled(ws, width).0.len() ==> (#[trigger] filled(ws, width).0[i]).len()
                <= width,
        filled(ws, width).1.len() <= width,
    decreases ws.len(),
{
    if ws.len() > 0 {
        filled_fits(ws.drop_last(), width);
    }
}

/// Words with one space between them.
pub open spec fn spaced(ws: Seq<Seq<char>>) -> Seq<char>
    decreases ws.len(),
{
    if ws.len() == 0 {
        Seq::empty()
    } else if ws.len() == 1 {
        ws[0]
    } else {
        spaced(ws.drop_last()) + seq![' '] + ws.last()
    }
}

/// Words as they stand on lines: those wider than a line are cut.
pub open spec fn cut_words(ws: Seq<Seq<char>>, width: int) -> Seq<Seq<char>> {
    ws.map_values(|w: Seq<char>| if w.len() > width { cut_word(w, width) } else { w })
}

/// Breaking a text loses nothing but the ends of words wider than a line: the
/// lines joined by spaces are the words, each cut to the width, joined by
/// spaces.
pub proof fn wrapping_loses_no_word(text: Seq<char>, width: int)
    requires
        width > 0,
        words(text).len() > 0,
    ensures
        spaced(wrapped(text, width)) == spaced(cut_words(words(text), width)),
{
    words_not_empty(text, 0);
    filled_keeps_words(words(text), width);
}

/// Where no word is wider than a line, no word is cut.
pub proof fn narrow_words_are_not_cut(ws: Seq<Seq<char>>, width: int)
    requires
        forall|i: int| 0 <= i < ws.len() ==> (#[trigger] ws[i]).len() <= width,
    ensures
        cut_words(ws, width) == ws,
{
    assert(cut_words(ws, width) =~= ws);
}

spec fn all_lines(f: (Seq<Seq<char>>, Seq<char>)) -> Seq<Seq<char>> {
    if f.1.len() > 0 {
        f.0.push(f.1)
    } else {
        f.0
    }
}

proof fn spaced_push(s: Seq<Seq<char>>, x: Seq<char>)
    ensures
        spaced(s.push(x)) == if s.len() == 0 {
            x
        } else {
            spaced(s) + seq![' '] + x
        },
{
    assert(s.push(x).drop_last() =~= s);
}

proof fn filled_keeps_words(ws: Seq<Seq<char>>, width: int)
    requires
        width > 0,
        forall|i: int| 0 <= i < ws.len() ==> 0 < (#[trigger] ws[i]).len(),
    ensures
        spaced(all_lines(filled(ws, width))) == spaced(cut_words(ws, width)),
        all_lines(filled(ws, width)).len() == 0 <==> ws.len() == 0,
    decreases ws.len(),
{
    if ws.len() > 0 {
        let d = ws.drop_last();
        let word = ws.last();
        assert(0 < ws[ws.len() - 1].len());
        assert forall|i: int| 0 <= i < d.len() implies 0 < (#[trigger] d[i]).len() by {
            assert(d[i] == ws[i]);
        }
        filled_keeps_words(d, width);
        let (done, line) = filled(d, width);
        let before = all_lines((done, line));
        let shown = if word.len() > width { cut_word(word, width) } else { word };
        assert(cut_words(ws, width) =~= cut_words(d, width).push(shown));
        spaced_push(cut_words(d, width), shown);
        if line.len() > 0 && line.len() + 1 + word.len() <= width {
            let longer = line + seq![' '] + word;
            spaced_push(done, line);
            spaced_push(done, longer);
            if done.len() > 0 {
                assert(spaced(done) + seq![' '] + longer =~= spaced(done) + seq![' '] + line
                    + seq![' '] + word);
            }
        } else {
            spaced_push(before, shown);
            assert(all_lines(filled(ws, width)) =~= before.push(shown));
        }
    } else {
        assert(cut_words(ws, width) =~= Seq::<Seq<char>>::empty());
        assert(all_lines(filled(ws, width)) =~= Seq::<Seq<char>>::empty());
    }
}

}
