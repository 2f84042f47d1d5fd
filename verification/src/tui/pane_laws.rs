//! Laws of the chat pane and of popups on the screen: matches, areas, heights.
use vstd::prelude::*;

use crate::backend::{AuthSteps, MessageV, Provider};
use crate::helpers::wrapped;
use crate::layout::{asked_in_all, inset, lies_in, popup_of, taken_in_all, Division, Part, Rect};
use crate::text::{line_list, lowercase};
use crate::tui::chat::selected_message_of;
use crate::tui::chat_model::ChatStateV;
use crate::tui::chat_widget::{
    height_sum, hit, is_chat_pane, is_pane, marked, match_style, next_hit, next_hit_bounds,
    pane_drawn, pane_rows, shows_messages, spans_of, utf8_len, visual_rows, write_rows, ChatPane,
    Focus, PaneAreas,
};
use crate::tui::line::{pages, Color, SpanV, Style};
use crate::tui::popup::{
    actions_bar, is_image_plan_in, is_message_plan, is_message_plan_in, is_notice_plan,
    is_question_plan, list_height, message_content, picture_caption, popup_width, raw_lines,
    PopupPlan,
};
use crate::tui::screens::{is_login_plan, step_label, LoginPlan};

verus! {

proof fn matches_from(s: Seq<char>, needle: Seq<char>, style: Style, i: int)
    requires
        0 <= i <= s.len(),
        needle.len() > 0,
        style != match_style(),
    ensures
        forall|j: int|
            0 <= j < marked(s, needle, style, i).len() ==> {
                let span = #[trigger] marked(s, needle, style, i)[j];
                span.style == match_style() <==> span.text.len() == needle.len() && lowercase(
                    span.text,
                ) == needle
            },
    decreases s.len() - i,
{
    if i < s.len() {
        let all = marked(s, needle, style, i);
        if hit(s, needle, i) {
            let next = i + needle.len();
            matches_from(s, needle, style, next);
            assert forall|j: int| 0 <= j < all.len() implies {
                let span = #[trigger] all[j];
                span.style == match_style() <==> span.text.len() == needle.len() && lowercase(
                    span.text,
                ) == needle
            } by {
                if j > 0 {
                    assert(all[j] == marked(s, needle, style, next)[j - 1]);
                }
            }
        } else {
            next_hit_bounds(s, needle, i);
            let next = next_hit(s, needle, i);
            matches_from(s, needle, style, next);
            assert forall|j: int| 0 <= j < all.len() implies {
                let span = #[trigger] all[j];
                span.style == match_style() <==> span.text.len() == needle.len() && lowercase(
                    span.text,
                ) == needle
            } by {
                if j > 0 {
                    assert(all[j] == marked(s, needle, style, next)[j - 1]);
                } else {
                    assert(all[0].text == s.subrange(i, next));
                }
            }
        }
    }
}

/// Exactly the pieces that match a query, in whatever case, stand out in black on
/// yellow; without a query nothing does.
pub proof fn matches_stand_out(s: Seq<char>, query: Seq<char>, style: Style, j: int)
    requires
        style.bg is None,
        lowercase(query).len() > 0,
        0 <= j < spans_of(s, Some(query), style).len(),
    ensures
        spans_of(s, Some(query), style)[j].style.bg == Some(Color::Yellow) <==> spans_of(
            s,
            Some(query),
            style,
        )[j].text.len() == lowercase(query).len() && lowercase(
            spans_of(s, Some(query), style)[j].text,
        ) == lowercase(query),
        spans_of(s, Some(query), style)[j].style.bg is None ==> spans_of(
            s,
            Some(query),
            style,
        )[j].style == style,
        spans_of(s, None, style) == seq![SpanV { text: s, style }],
{
    matches_from(s, lowercase(query), style, 0);
    two_styles(s, lowercase(query), style, 0);
}

proof fn two_styles(s: Seq<char>, needle: Seq<char>, style: Style, i: int)
    requires
        0 <= i <= s.len(),
        needle.len() > 0,
    ensures
        forall|j: int|
            0 <= j < marked(s, needle, style, i).len() ==> (#[trigger] marked(
                s,
                needle,
                style,
                i,
            )[j]).style == match_style() || marked(s, needle, style, i)[j].style == style,
    decreases s.len() - i,
{
    if i < s.len() {
        let all = marked(s, needle, style, i);
        let next = if hit(s, needle, i) { i + needle.len() } else { next_hit(s, needle, i) };
        next_hit_bounds(s, needle, i);
        two_styles(s, needle, style, next);
        assert forall|j: int| 0 <= j < all.len() implies (#[trigger] all[j]).style == match_style()
            || all[j].style == style by {
            if j > 0 {
                assert(all[j] == marked(s, needle, style, next)[j - 1]);
            }
        }
    }
}

/// The message that is selected is the one in its row of the open chat.
pub proof fn selected_messages_are_in_their_row(st: ChatStateV)
    ensures
        st.open_chat is None || st.message_list_state.selected is None ==> selected_message_of(
            st,
        ) is None,
        st.open_chat is Some && st.message_list_state.selected is Some ==> ({
            let i = st.message_list_state.selected.unwrap();
            let h = st.open_chat.unwrap().history;
            &&& i < h.len() ==> selected_message_of(st) == Some(h[i as int])
            &&& i >= h.len() ==> selected_message_of(st) is None
        }),
{
}

/// The write box stands at the bottom of the pane, over its full width, and the
/// messages take the rows above it.
pub proof fn write_boxes_stand_below_the_messages(a: PaneAreas, area: Rect, write_height: u16)
    requires
        is_pane(a, area, write_height),
        write_height <= area.height,
        area.y + area.height <= u16::MAX,
    ensures
        a.write == (Rect {
            y: (area.y + area.height - write_height) as u16,
            height: write_height,
            ..area
        }),
        a.messages == (Rect { height: (area.height - write_height) as u16, ..area }),
        a.messages.height >= 2 && a.messages.width >= 2 ==> a.inner.height + 2
            == a.messages.height && a.inner.width + 2 == a.messages.width,
{
    let parts = pane_rows(write_height);
    let rows = seq![a.messages, a.write];
    reveal_with_fuel(asked_in_all, 3);
    reveal_with_fuel(taken_in_all, 3);
    assert(parts.drop_last() =~= seq![Part::Fill(1)]);
    assert(parts.take(1) =~= parts.drop_last());
    assert(parts.take(0) =~= Seq::<Part>::empty());
    assert(asked_in_all(parts) == write_height);
    let how = Division { vertical: true, centered: false };
    assert forall|i: int| 0 <= i < 2 implies lies_in(how, area, #[trigger] rows[i]) by {}
    assert(rows[0] == a.messages && rows[1] == a.write);
}

/// A margin leaves the middle: what is left lies in the area, as far from each of
/// its sides as the margin is wide.
pub proof fn margins_are_even(area: Rect, dx: u16, dy: u16)
    requires
        2 * dx <= area.width,
        2 * dy <= area.height,
        area.x + area.width <= u16::MAX,
        area.y + area.height <= u16::MAX,
    ensures
        inset(area, dx, dy).width + 2 * dx == area.width,
        inset(area, dx, dy).height + 2 * dy == area.height,
        inset(area, dx, dy).x == area.x + dx || area.x + dx >= u16::MAX,
        inset(area, dx, dy).y == area.y + dy || area.y + dy >= u16::MAX,
{
}

/// The pane draws one item for each message of the chat it shows, and remembers
/// how many rows it has for them; nothing else of the state changes.
pub proof fn panes_draw_every_message(
    r: ChatPane,
    st: ChatStateV,
    stamps: Seq<Seq<char>>,
    focus: Focus,
    needle: Option<Seq<char>>,
    areas: PaneAreas,
)
    requires
        is_chat_pane(r, st, stamps, focus, needle, areas),
    ensures
        r.items is Some <==> shows_messages(st),
        r.items is Some ==> r.items.unwrap()@.len() == stamps.len(),
        focus == Focus::Write ==> r.write_border == r.border,
        focus != Focus::Write ==> r.write_border.fg is None,
        shows_messages(st) ==> pane_drawn(st, areas).visible_page == areas.inner.height,
        !shows_messages(st) ==> pane_drawn(st, areas) == st,
        pane_drawn(st, areas).chats == st.chats,
        pane_drawn(st, areas).open_chat == st.open_chat,
        pane_drawn(st, areas).message_list_state == st.message_list_state,
{
}

/// The write box needs a row for every line at least, and one where there is no
/// line; another line adds the rows it is broken into.
pub proof fn write_boxes_hold_every_line(ls: Seq<Seq<char>>, line: Seq<char>, width: int)
    requires
        width >= 0,
    ensures
        write_rows(Seq::empty(), width) == 1,
        visual_rows(ls, width) >= ls.len(),
        visual_rows(ls.push(line), width) == visual_rows(ls, width) + wrapped(line, width).len(),
        wrapped(line, width).len() >= 1,
        write_rows(ls, width) >= 1,
    decreases ls.len(),
{
    reveal_with_fuel(visual_rows, 2);
    assert(ls.push(line).drop_last() =~= ls);
    some_line(line, width);
    if ls.len() > 0 {
        write_boxes_hold_every_line(ls.drop_last(), ls.last(), width);
    }
}

proof fn some_line(text: Seq<char>, width: int)
    requires
        width >= 0,
    ensures
        wrapped(text, width).len() >= 1,
{
    let ws = crate::text::words(text);
    if width > 0 && ws.len() > 0 {
        crate::text_laws::words_have_no_space(text, ws.len() - 1);
    }
}

/// Heights are summed: one more message adds its own.
pub proof fn heights_are_summed(h: Seq<usize>, n: usize)
    ensures
        height_sum(Seq::<usize>::empty()) == 0,
        height_sum(h.push(n)) == height_sum(h) + n,
{
    assert(h.push(n).drop_last() =~= h);
}

/// The bytes of a text are those of its characters: one for each of ASCII, and
/// never fewer than characters.
pub proof fn texts_take_their_bytes(s: Seq<char>, c: char)
    ensures
        utf8_len(s) >= s.len(),
        (c as u32) < 0x80 ==> utf8_len(s.push(c)) == utf8_len(s) + 1,
        utf8_len(s) + 1 <= utf8_len(s.push(c)) <= utf8_len(s) + 4,
    decreases s.len(),
{
    assert(s.push(c).drop_last() =~= s);
    if s.len() > 0 {
        texts_take_their_bytes(s.drop_last(), s.last());
        assert(s.drop_last().push(s.last()) =~= s);
    }
}

/// A message popup never scrolls past its end: what is scrolled to fills the
/// popup, or is the beginning; it scrolls no further than asked.
pub proof fn popups_do_not_scroll_past_the_end(
    p: PopupPlan,
    m: MessageV,
    content: Seq<Seq<SpanV>>,
    scroll: usize,
    at: Rect,
    rows: Seq<Rect>,
)
    requires
        is_message_plan_in(p, m, content, scroll, at, rows),
    ensures
        p.scroll <= scroll,
        p.scroll == 0 || p.scroll + rows[0].height <= content.len(),
        scroll + rows[0].height <= content.len() ==> p.scroll == scroll,
        p.actions is Some && p.actions.unwrap().0 == rows[2],
        p.picture is None,
{
}

/// A picture popup is titled with the sender and the time, and its caption stands
/// below it exactly where there is one.
pub proof fn pictures_are_titled(
    p: PopupPlan,
    m: MessageV,
    stamp: Seq<char>,
    width: int,
    at: Rect,
    rows: Seq<Rect>,
)
    requires
        is_image_plan_in(p, m, stamp, picture_caption(m, width), at, rows),
    ensures
        p.title@ == " "@ + m.sender + " "@ + stamp + " "@,
        p.picture == Some(rows[0]),
        m.media is None ==> p.caption is None,
        m.media is Some && m.media.unwrap().caption is None ==> p.caption is None,
        m.media is Some && m.media.unwrap().caption is Some && !crate::text::blank(
            m.media.unwrap().caption.unwrap(),
        ) ==> picture_caption(m, width) == raw_lines(m.media.unwrap().caption.unwrap(), width),
{
}

/// The login screen is titled with the provider and the step, and hides what is
/// typed exactly where a password is asked for.
pub proof fn passwords_are_hidden(
    r: LoginPlan,
    provider: Provider,
    steps: Seq<AuthSteps>,
    step: int,
    error: Option<Seq<char>>,
    rows: Seq<Rect>,
)
    requires
        is_login_plan(r, provider, steps, step, error, rows),
    ensures
        r.masked <==> steps[step] is Password,
        provider is Telegram ==> r.title@ == " "@ + "Telegram"@ + " — "@ + step_label(steps[step])
            + " "@,
        provider is WhatsApp ==> r.title@ == " "@ + "WhatsApp"@ + " — "@ + step_label(steps[step])
            + " "@,
        r.label@ == step_label(steps[step]) + ":"@,
        error is None ==> r.error@ == ""@,
        error is Some ==> r.error@ == "An error occurred: "@ + error.unwrap(),
{
}

/// A message popup shows the message's content, is as high as that needs, and
/// stands in the middle of the area.
pub proof fn message_popups_show_their_content(
    p: PopupPlan,
    m: MessageV,
    stamp: Seq<char>,
    quote_stamp: Seq<char>,
    scroll: usize,
    area: Rect,
)
    requires
        is_message_plan(p, m, stamp, quote_stamp, scroll, area),
    ensures
        p.title@ == " Message "@,
        p.scroll <= scroll,
        p.picture is None,
        p.actions is Some && p.actions.unwrap().1@ == actions_bar(m.msg_actions),
        pages(p.lines@) == message_content(
            m,
            stamp,
            quote_stamp,
            if popup_width(area) > 2 { popup_width(area) - 2 } else { 0 },
        ),
        p.area == popup_of(
            area,
            popup_width(area),
            list_height(pages(p.lines@).len() as int, area),
        ),
{
}

/// A notice shows its text and how to close it, a question its text and the keys
/// that answer it.
pub proof fn notices_and_questions_show_their_text(
    p: PopupPlan,
    data: Seq<char>,
    title: Seq<char>,
    color: Color,
    scroll: usize,
    area: Rect,
)
    ensures
        is_notice_plan(p, data, title, color, area) ==> p.title@ == title && p.border.fg == Some(
            color,
        ) && p.border.bg == Some(Color::Black) && pages(p.lines@) == raw_lines(
            data + "\n\nPress ESC to close"@,
            if popup_width(area) > 2 { popup_width(area) - 2 } else { 0 },
        ) && p.actions is None && p.scroll == 0,
        is_question_plan(p, data, scroll, area) ==> p.title@ == " ? "@ && p.border.fg == Some(
            Color::Red,
        ) && pages(p.lines@).len() == line_list(data + "\n\n [1] Yes  [2] No "@).len() && p.actions
            is None && p.scroll == scroll,
{
}

}
