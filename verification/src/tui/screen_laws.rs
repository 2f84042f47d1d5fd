//! Laws of what the screens and popups show.
use vstd::prelude::*;

use crate::backend::{
    media_label, tag_of, AuthSteps, ChatV, MessageAction, MessageMediaV, MessageV, Provider,
    ReplyContextV,
};
use crate::config::ProvidersConfig;
use crate::helpers::wrapped;
use crate::keys::{KeyCode, KeyEvent};
use crate::layout::Rect;
use crate::text::{blank, decimal, decimal_int, line_list, trimmed};
use crate::tui::chat_model::{selected_chat_of, ChatStateV};
use crate::tui::chat_widget::{
    author_of, body_chunks, body_lines, body_style, box_height, caption_of, full_lines, head_of,
    hint_line, lines_of, message_highlight, pane_border, pane_hint, pane_title, reply_lines,
    shows_messages, some_cut, spans_of, status_text, wrapped_all, write_title, Focus,
};
use crate::tui::image::{empty_line, fetch_shown, picture_of, placeholder};
use crate::tui::line::Color;
use crate::tui::popup::{
    actions_bar, image_height, image_width, list_height, message_content, notice_text, popup_head,
    popup_media, popup_quote, popup_width, question_text, raw_line, raw_lines,
};
use crate::tui::screens::{
    chat_row, list_border, list_highlight, list_title, loading_lines, progress_line, settings_row,
    spinner_char, step_label,
};
use crate::tui::search::{field_press, search_active, search_title, SearchV};

verus! {

/// Where the name of a chat stands in its row: behind the tag, the pin and the
/// mark of a verified chat.
pub open spec fn name_place(c: ChatV) -> int {
    1 + (if c.fixed { 1int } else { 0 }) + (if c.verified { 1int } else { 0 })
}

/// A row of the list shows the tag, the pin of a pinned chat, the mark of a
/// verified one, the name, in bold while something is unread, and the count of
/// the unread messages exactly where there are any.
pub proof fn rows_show_their_chat(c: ChatV)
    ensures
        ({
            let r = chat_row(c);
            let n = name_place(c);
            let status = c.status is Some && !blank(c.status.unwrap());
            &&& r[0].text == tag_of(c.id) + " "@
            &&& c.fixed ==> r[1].text == "📌 "@
            &&& c.verified ==> r[n - 1].text == "✓ "@
            &&& r[n].text == trimmed(c.contact_name)
            &&& r[n].style.bold == c.unread
            &&& status && c.status.unwrap() == "online"@ ==> r[n + 1].text == " •"@ && r[n
                + 1].style.fg == Some(Color::Green)
            &&& status && c.status.unwrap() != "online"@ ==> r[n + 1].text == ""@
            &&& c.unread_count > 0 ==> r.last().text == " ("@ + decimal_int(c.unread_count as int)
                + ")"@
            &&& r.len() == n + 1 + (if status { 1int } else { 0 }) + (if c.unread_count > 0 {
                1int
            } else {
                0
            })
        }),
{
}

/// The list stands out while the keyboard is on it, in the colour of the selected
/// chat's provider.
pub proof fn lists_stand_out_with_the_keyboard(focus: Focus, tag: Option<Seq<char>>)
    ensures
        focus != Focus::ChatList ==> list_border(focus, tag).fg is None && list_highlight(
            focus,
            tag,
        ).reversed && !list_highlight(focus, tag).bold,
        focus == Focus::ChatList && tag == Some("TG"@) ==> list_border(focus, tag).fg == Some(
            Color::Blue,
        ) && list_highlight(focus, tag).bg == Some(Color::Blue),
        focus == Focus::ChatList && tag == Some("WA"@) ==> ("WA"@ != "TG"@) && list_border(
            focus,
            tag,
        ).fg == Some(Color::Green) && list_highlight(focus, tag).bg == Some(Color::Green),
        focus == Focus::ChatList && tag != Some("TG"@) && tag != Some("WA"@) ==> list_border(
            focus,
            tag,
        ).fg is None && list_highlight(focus, tag).bg == Some(Color::Yellow),
        focus == Focus::ChatList ==> list_highlight(focus, tag).bold && !list_highlight(
            focus,
            tag,
        ).reversed,
{
    reveal_strlit("TG");
    reveal_strlit("WA");
    assert("TG"@[0] == 'T' && "WA"@[0] == 'W');
    match tag {
        Some(t) => {
            if t == "TG"@ {
                assert(tag == Some("TG"@));
            }
            if t == "WA"@ {
                assert(tag == Some("WA"@));
            }
        },
        None => {},
    }
}

/// The animation shows four characters in turn, one after the other.
pub proof fn animations_turn(frame: u8)
    ensures
        frame % 4 == 0 ==> spinner_char(frame) == "|"@,
        frame % 4 == 1 ==> spinner_char(frame) == "/"@,
        frame % 4 == 2 ==> spinner_char(frame) == "-"@,
        frame % 4 == 3 ==> spinner_char(frame) == "\\"@,
        frame <= 251 ==> spinner_char((frame + 4) as u8) == spinner_char(frame),
{
}

/// While chats are loaded, the list's title and a loading notice show the
/// animation; what is being loaded stands on the last line.
pub proof fn loading_is_shown(info: Seq<char>, frame: u8)
    ensures
        list_title(None).len() == 1,
        list_title(Some(frame)).len() == 2,
        list_title(None)[0].text == " Chats "@,
        list_title(Some(frame))[0].text == " Chats "@,
        list_title(Some(frame))[1].text == " "@ + spinner_char(frame) + " "@,
        loading_lines(None, frame).len() == 2,
        loading_lines(Some(info), frame).len() == 4,
        loading_lines(Some(info), frame)[1][0].text == " "@ + spinner_char(frame) + " "@,
        loading_lines(Some(info), frame)[1][1].text == " Loading... "@,
        loading_lines(Some(info), frame)[3][0].text == info,
{
}

/// A row of the settings is ticked exactly where its provider is switched on,
/// and offers to switch it on only where it has its credentials.
pub proof fn settings_show_the_switches(c: ProvidersConfig)
    ensures
        c.telegram.enabled ==> settings_row(Provider::Telegram, c) == "[x] "@ + "Telegram"@
            + " — enabled"@,
        c.whatsapp ==> settings_row(Provider::WhatsApp, c) == "[x] "@ + "WhatsApp"@
            + " — enabled"@,
        !c.whatsapp ==> settings_row(Provider::WhatsApp, c) == "[ ] "@ + "WhatsApp"@
            + " — disabled — Enter to enable"@,
        !c.telegram.enabled && c.telegram.credentialed() ==> settings_row(Provider::Telegram, c)
            == "[ ] "@ + "Telegram"@ + " — disabled — Enter to enable"@,
        !c.telegram.enabled && !c.telegram.credentialed() ==> settings_row(Provider::Telegram, c)
            == "[-] "@ + "Telegram"@ + " — no credentials"@,
{
}

/// The progress of a login names every step in its order, with an arrow between
/// two: those done in green, the one at hand in bold, those to come in gray.
pub proof fn logins_show_every_step(steps: Seq<AuthSteps>, step: int, i: int)
    requires
        0 <= i < steps.len(),
    ensures
        ({
            let line = progress_line(steps, step);
            &&& line.len() == 2 * steps.len() - 1
            &&& line[2 * i].text == step_label(steps[i])
            &&& i > 0 ==> line[2 * i - 1].text == " → "@
            &&& line[2 * i].style.bold == (i == step)
            &&& i < step ==> line[2 * i].style.fg == Some(Color::Green)
            &&& i == step ==> line[2 * i].style.fg == Some(Color::Cyan)
            &&& i > step ==> line[2 * i].style.fg == Some(Color::DarkGray)
        }),
    decreases steps.len(),
{
    let d = steps.drop_last();
    if d.len() == 0 {
        assert(progress_line(d, step).len() == 0);
    } else {
        if i < d.len() {
            logins_show_every_step(d, step, i);
            assert(d[i] == steps[i]);
        } else {
            logins_show_every_step(d, step, 0);
        }
    }
}

/// Each step of a login is named for what it asks.
pub proof fn steps_are_named(payload: String)
    ensures
        step_label(AuthSteps::Phone) == "phone"@,
        step_label(AuthSteps::Code) == "code"@,
        step_label(AuthSteps::Password) == "password"@,
        step_label(AuthSteps::QrCode(payload)) == "qr code"@,
{
}

/// The action bar numbers the actions from one, each under its own name.
pub proof fn actions_are_numbered_from_one(actions: Seq<MessageAction>, i: int)
    requires
        0 <= i < actions.len(),
    ensures
        actions_bar(actions).len() == actions.len(),
        actions[i] is Reply ==> actions_bar(actions)[i].text == "  ["@ + decimal((i + 1) as nat)
            + "] Reply"@,
        actions[i] is Edit ==> actions_bar(actions)[i].text == "  ["@ + decimal((i + 1) as nat)
            + "] Edit"@,
        actions[i] is Delete ==> actions_bar(actions)[i].text == "  ["@ + decimal((i + 1) as nat)
            + "] Delete"@,
        actions[i] is Retry ==> actions_bar(actions)[i].text == "  ["@ + decimal((i + 1) as nat)
            + "] Retry"@,
{
}

/// A popup leaves a margin, is never wider than eighty columns, and a list in it
/// has three rows more than lines where there is room.
pub proof fn popups_leave_a_margin(area: Rect, n: int)
    requires
        0 <= n,
    ensures
        popup_width(area) <= 80,
        area.width >= 4 ==> popup_width(area) + 4 <= area.width,
        area.width <= 84 && area.width >= 4 ==> popup_width(area) + 4 == area.width,
        area.width > 84 ==> popup_width(area) == 80,
        list_height(n, area) >= 5,
        area.height >= 9 ==> list_height(n, area) + 4 <= area.height,
        2 <= n && n + 7 <= area.height ==> list_height(n, area) == n + 3,
        area.height >= 9 && n + 7 > area.height ==> list_height(n, area) + 4 == area.height,
{
}

/// A picture takes nine tenths of the screen, and no less than thirty columns by
/// five rows where there is room for them.
pub proof fn pictures_take_most_of_the_screen(area: Rect)
    ensures
        area.width >= 34 ==> image_width(area) == area.width as int * 9 / 10,
        32 <= area.width < 34 ==> image_width(area) == 30,
        area.height >= 10 ==> image_height(area) == area.height as int * 9 / 10,
        area.height == 6 ==> image_height(area) == 5,
        area.width >= 32 ==> image_width(area) <= area.width,
        area.height >= 6 ==> image_height(area) <= area.height,
{
}

/// A notice says how it is closed, and a question which keys answer it.
pub proof fn popups_say_how_they_are_answered(data: Seq<char>)
    ensures
        notice_text(data) == data + "\n\nPress ESC to close"@,
        question_text(data) == data + "\n\n [1] Yes  [2] No "@,
{
}

/// The popup of a message begins with its sender and time, then says whether it
/// failed or is still being sent; it shows the text of a message without media,
/// else the kind of the media, and the quote of a reply.
pub proof fn popups_show_their_message(
    m: MessageV,
    stamp: Seq<char>,
    quote_stamp: Seq<char>,
    width: int,
)
    ensures
        ({
            let all = message_content(m, stamp, quote_stamp, width);
            let media = if m.media is Some {
                popup_media(m.media.unwrap(), width).len() as int
            } else {
                0
            };
            let quote = if m.reply_ctx is Some {
                popup_quote(m.reply_ctx.unwrap(), quote_stamp, width).len() as int
            } else {
                0
            };
            &&& all[0][0].text == popup_head(m, stamp)
            &&& m.failed ==> popup_head(m, stamp) == m.sender + " "@ + stamp + " ⚠ failed"@
            &&& m.pending && !m.failed ==> popup_head(m, stamp) == m.sender + " "@ + stamp
                + " … sending"@
            &&& !m.pending && !m.failed ==> popup_head(m, stamp) == m.sender + " "@ + stamp + ""@
            &&& m.media is Some ==> all[1][0].text == "  "@ + media_label(m.media.unwrap().kind)
                + ": click to show"@
            &&& m.media is Some ==> all.len() == 1 + media + quote
            &&& m.reply_ctx is Some ==> all[1 + media][0].text == "  ─ Reply to:"@
            &&& m.reply_ctx is Some ==> all[2 + media][0].text == "    "@
                + m.reply_ctx.unwrap().sender + " "@ + quote_stamp
            &&& m.media is None && m.text.len() > 0 ==> all.skip(1 + quote) == raw_lines(
                m.text,
                width,
            )
            &&& m.media is None && m.text.len() == 0 ==> all.last() == raw_line(""@)
        }),
{
    let all = message_content(m, stamp, quote_stamp, width);
    if m.reply_ctx is Some {
        let q = popup_quote(m.reply_ctx.unwrap(), quote_stamp, width);
        assert(q.len() >= 3);
        assert(q[0][0].text == "  ─ Reply to:"@);
        assert(q[1][0].text == "    "@ + m.reply_ctx.unwrap().sender + " "@ + quote_stamp);
    }
    if m.media is None && m.text.len() > 0 {
        let quote = if m.reply_ctx is Some {
            popup_quote(m.reply_ctx.unwrap(), quote_stamp, width).len() as int
        } else {
            0
        };
        assert(all.skip(1 + quote) =~= raw_lines(m.text, width));
    }
}

/// The popup shows a caption below the media exactly where there is one.
pub proof fn popups_show_captions(media: MessageMediaV, width: int)
    ensures
        media.caption is None ==> popup_media(media, width).len() == 2,
        media.caption is Some && blank(media.caption.unwrap()) ==> popup_media(media, width).len()
            == 2,
        media.caption is Some && !blank(media.caption.unwrap()) ==> popup_media(media, width).skip(
            3,
        ) == raw_lines(media.caption.unwrap(), width),
{
    if media.caption is Some && !blank(media.caption.unwrap()) {
        assert(popup_media(media, width).skip(3) =~= raw_lines(media.caption.unwrap(), width));
    }
}

/// The quote in a popup shows the quoted text.
pub proof fn popups_show_quotes(q: ReplyContextV, stamp: Seq<char>, width: int, i: int)
    requires
        0 <= i < wrapped_all(line_list(q.text), width).len(),
    ensures
        popup_quote(q, stamp, width).len() == wrapped_all(line_list(q.text), width).len() + 3,
        popup_quote(q, stamp, width)[2 + i][0].text == "    "@ + wrapped_all(
            line_list(q.text),
            width,
        )[i],
{
}

/// The head of a message names its author, the user as such, and its time, and
/// says whether it failed or is still being sent.
pub proof fn heads_name_author_and_time(m: MessageV, stamp: Seq<char>)
    ensures
        m.from_me ==> author_of(m) == "You"@,
        !m.from_me ==> author_of(m) == m.sender,
        m.failed ==> head_of(m, stamp) == author_of(m) + " "@ + stamp + " ⚠ failed"@,
        m.pending && !m.failed ==> head_of(m, stamp) == author_of(m) + " "@ + stamp + " …"@,
        !m.pending && !m.failed ==> head_of(m, stamp) == author_of(m) + " "@ + stamp + ""@,
        body_style(m).fg == Some(Color::DarkGray) <==> m.pending || m.failed,
        reply_lines(m).len() == if m.reply_to_id is Some { 1int } else { 0 },
        m.reply_to_id is Some ==> reply_lines(m)[0][0].text == "  "@ + author_of(m)
            + " replied"@,
{
}

/// A caption is shown trimmed, and only where something of it is left.
pub proof fn captions_are_trimmed(media: MessageMediaV)
    ensures
        caption_of(media) is Some <==> media.caption is Some && trimmed(
            media.caption.unwrap(),
        ).len() > 0,
        caption_of(media) is Some ==> caption_of(media) == Some(trimmed(media.caption.unwrap())),
{
}

/// The lines of a message without media are those of its text, with matches
/// marked; media begin with their kind, and without a caption that is all.
pub proof fn bodies_show_the_text(
    m: MessageV,
    stamp: Seq<char>,
    width: u16,
    needle: Option<Seq<char>>,
    i: int,
)
    requires
        0 <= i < body_chunks(m, stamp, width).len(),
    ensures
        m.media is None ==> body_lines(m, stamp, width, needle).len() == body_chunks(
            m,
            stamp,
            width,
        ).len() && body_lines(m, stamp, width, needle)[i] == spans_of(
            body_chunks(m, stamp, width)[i],
            needle,
            body_style(m),
        ),
        m.media is Some && caption_of(m.media.unwrap()) is Some ==> body_lines(
            m,
            stamp,
            width,
            needle,
        )[0][0].text == media_label(m.media.unwrap().kind) + ":"@ && body_lines(
            m,
            stamp,
            width,
            needle,
        )[i + 1] == spans_of(body_chunks(m, stamp, width)[i], needle, body_style(m)),
{
}

/// Media without a caption are shown by their kind alone.
pub proof fn bare_media_show_their_kind(
    m: MessageV,
    stamp: Seq<char>,
    width: u16,
    needle: Option<Seq<char>>,
)
    requires
        m.media is Some,
        caption_of(m.media.unwrap()) is None,
    ensures
        body_lines(m, stamp, width, needle).len() == 1,
        body_lines(m, stamp, width, needle)[0][0].text == media_label(m.media.unwrap().kind)
            + ", click to show"@,
{
}

/// A message is drawn as the reply notice, the head with the first line of the
/// body behind it, and the rest of the body: no line of the body is left out.
pub proof fn messages_are_drawn_in_full(
    m: MessageV,
    stamp: Seq<char>,
    width: u16,
    needle: Option<Seq<char>>,
)
    ensures
        ({
            let all = full_lines(m, stamp, width, needle);
            let body = body_lines(m, stamp, width, needle);
            let r = reply_lines(m).len() as int;
            &&& all[r][0].text == head_of(m, stamp)
            &&& all.take(r) == reply_lines(m)
            &&& body.len() > 0 ==> all.len() == r + body.len() && all[r].skip(2) == body[0]
                && all.skip(r + 1) == body.skip(1)
            &&& body.len() == 0 ==> all.len() == r + 1
        }),
{
    let all = full_lines(m, stamp, width, needle);
    let body = body_lines(m, stamp, width, needle);
    let r = reply_lines(m).len() as int;
    assert(all.take(r) =~= reply_lines(m));
    if body.len() > 0 {
        assert(all[r].skip(2) =~= body[0]);
        assert(all.skip(r + 1) =~= body.skip(1));
    }
}

/// A message that takes more lines than it may is cut to them, and a hint follows
/// exactly where lines were left out or a word was cut.
pub proof fn long_messages_are_cut(
    m: MessageV,
    stamp: Seq<char>,
    width: u16,
    max: usize,
    needle: Option<Seq<char>>,
)
    ensures
        ({
            let full = full_lines(m, stamp, width, needle);
            let shown = lines_of(m, stamp, width, Some(max), needle);
            let cut = some_cut(body_chunks(m, stamp, width));
            &&& shown.len() <= max + 1
            &&& full.len() > max ==> shown.len() == max + 1 && shown.take(max as int) == full.take(
                max as int,
            ) && shown.last() == hint_line()
            &&& full.len() <= max && cut ==> shown == full.push(hint_line())
            &&& full.len() <= max && !cut ==> shown == full
            &&& cut ==> lines_of(m, stamp, width, None, needle) == full.push(hint_line())
            &&& !cut ==> lines_of(m, stamp, width, None, needle) == full
        }),
{
    let full = full_lines(m, stamp, width, needle);
    let shown = lines_of(m, stamp, width, Some(max), needle);
    if full.len() > max {
        assert(shown.take(max as int) =~= full.take(max as int));
    }
}

/// The write box has a row for each row of text up to its limit, and two for its
/// border, within the area.
pub proof fn write_boxes_grow_with_the_text(rows: int, max_lines: int, area_height: int)
    requires
        0 <= rows,
        0 <= max_lines,
        0 <= area_height,
    ensures
        box_height(rows, max_lines, area_height) <= area_height,
        1 <= rows <= max_lines && rows + 2 <= area_height ==> box_height(
            rows,
            max_lines,
            area_height,
        ) == rows + 2,
        1 <= max_lines <= rows && max_lines + 2 <= area_height ==> box_height(
            rows,
            max_lines,
            area_height,
        ) == max_lines + 2,
        rows == 0 && area_height >= 3 ==> box_height(rows, max_lines, area_height) == 3,
{
}

/// The pane stands out while the keyboard is in it, in the colour of the selected
/// chat's provider.
pub proof fn panes_stand_out_with_the_keyboard(st: ChatStateV, focus: Focus, n: i64, raw: Seq<char>)
    ensures
        focus == Focus::ChatList ==> pane_border(st, focus).fg is None,
        focus != Focus::Chat ==> message_highlight(st, focus).reversed,
        focus == Focus::Chat ==> !message_highlight(st, focus).reversed && message_highlight(
            st,
            focus,
        ).bg == pane_border(st, focus).fg,
        pane_border(st, Focus::Chat) == pane_border(st, Focus::Write),
        selected_chat_of(st) is Some && selected_chat_of(st).unwrap().id
            == crate::backend::ChatIdV::Telegram(n) ==> pane_border(st, Focus::Chat).fg == Some(
            Color::LightBlue,
        ),
        selected_chat_of(st) is Some && selected_chat_of(st).unwrap().id
            == crate::backend::ChatIdV::WhatsApp(raw) ==> pane_border(st, Focus::Chat).fg == Some(
            Color::Green,
        ),
        selected_chat_of(st) is None ==> pane_border(st, Focus::Chat).fg == Some(Color::Yellow),
{
    reveal_strlit("TG");
    reveal_strlit("WA");
    reveal_strlit("ME");
    assert("TG"@[0] == 'T' && "WA"@[0] == 'W' && "ME"@[0] == 'M');
}

/// The pane's title names the selected chat and gives its status, with a green
/// dot while it is online.
pub proof fn titles_name_the_chat(st: ChatStateV, c: ChatV)
    requires
        selected_chat_of(st) == Some(c),
    ensures
        ({
            let title = pane_title(st);
            let name = trimmed(c.contact_name);
            &&& title.len() == 3
            &&& name.len() == 0 ==> title[0].text == " "@ + "Unnamed chat"@ + " "@
            &&& name.len() > 0 && c.verified ==> title[0].text == " "@ + ("✓ "@ + name) + " "@
            &&& name.len() > 0 && !c.verified ==> title[0].text == " "@ + (""@ + name) + " "@
            &&& title[2].text == " "@ + status_text(c) + " "@
            &&& c.status is Some && !blank(c.status.unwrap()) ==> status_text(c)
                == c.status.unwrap()
            &&& c.status is None || blank(c.status.unwrap()) ==> status_text(c) == ""@
            &&& title[1].style.fg == Some(Color::Green) <==> status_text(c) == "online"@
        }),
{
}

/// The title of the write box tells what is edited, else what is replied to.
pub proof fn write_boxes_tell_what_they_do(st: ChatStateV)
    ensures
        st.pending_edit is Some ==> write_title(st) == " Write - Editing "@
            + st.pending_edit.unwrap().text + " "@,
        st.pending_edit is None && st.pending_reply is Some ==> write_title(st)
            == " Write - Replying to '"@ + st.pending_reply.unwrap().sender + "': "@
            + st.pending_reply.unwrap().text + " "@,
        st.pending_edit is None && st.pending_reply is None ==> write_title(st) == " Write "@,
{
}

/// Messages are shown only of an open chat that is the selected one; else the
/// pane says what to do.
pub proof fn only_the_selected_chat_is_shown(st: ChatStateV)
    ensures
        shows_messages(st) ==> st.open_chat is Some && selected_chat_of(st) is Some,
        st.open_chat is Some && selected_chat_of(st) is Some ==> (shows_messages(st)
            <==> st.open_chat.unwrap().chat.id == selected_chat_of(st).unwrap().id),
        selected_chat_of(st) is Some ==> pane_hint(st) == "Press Enter to open this chat"@,
        selected_chat_of(st) is None ==> pane_hint(st) == "No chat selected. j/k move, Enter open."@,
{
}

/// The search field is shown while typing and while there is a query: all of the
/// query, and while typing what stands up to the cursor and under it.
pub proof fn search_fields_show_the_query(s: SearchV)
    ensures
        !s.inserting && s.query.len() == 0 ==> search_title(s).len() == 0,
        search_active(s) <==> s.inserting || s.query.len() > 0,
        search_active(s) ==> search_title(s)[0].text == " Search: "@,
        !s.inserting && s.query.len() > 0 ==> search_title(s)[1].text == s.query,
        s.inserting && s.column < s.query.len() ==> search_title(s)[1].text.len() == s.column
            && (search_title(s)[1].text + search_title(s)[2].text).is_prefix_of(s.query),
        s.inserting && s.column >= s.query.len() ==> search_title(s)[1].text == s.query
            && search_title(s)[2].text == seq![' '],
{
    if s.inserting && s.column < s.query.len() {
        let col = s.column as int;
        assert(s.query.take(col) + seq![s.query[col]] =~= s.query.take(col + 1));
    }
    if s.inserting && s.column >= s.query.len() {
        assert(s.query.take(s.query.len() as int) =~= s.query);
    }
}

/// A search field takes keys as they are, a backward tab as a tab with shift.
pub proof fn search_fields_take_keys(key: KeyEvent)
    ensures
        key.code != KeyCode::BackTab ==> field_press(key) == key,
        key.code == KeyCode::BackTab ==> field_press(key).code == KeyCode::Tab && field_press(
            key,
        ).modifiers.shift && field_press(key).modifiers.control == key.modifiers.control
            && field_press(key).modifiers.alt == key.modifiers.alt,
{
}

/// A picture that was fetched is shown as it is decoded; without one, the notice
/// says why.
pub proof fn fetched_pictures_are_shown(bytes: Seq<u8>, e: Seq<char>)
    ensures
        picture_of(bytes) is Ok ==> fetch_shown(Ok(Some(bytes))) == picture_of(bytes),
        picture_of(bytes) is Err ==> fetch_shown(Ok(Some(bytes))) == Err::<
            (u32, u32, Seq<u8>),
            Seq<char>,
        >("Failed to decode image: "@ + picture_of(bytes)->Err_0),
        fetch_shown(Ok(None)) == Err::<(u32, u32, Seq<u8>), Seq<char>>("Media not available"@),
        fetch_shown(Err(e)) == Err::<(u32, u32, Seq<u8>), Seq<char>>("Failed to load image: "@ + e),
{
}

/// A notice in place of a picture stands in the middle: it fills the height, and
/// the empty lines above and below it differ by one at most.
pub proof fn notices_stand_in_the_middle(status: Seq<char>, width: u16, height: u16)
    requires
        width > 2,
        wrapped(status, width - 2).len() <= height,
    ensures
        ({
            let text = wrapped(status, width - 2);
            let all = placeholder(status, width, height);
            let above = (height - text.len()) / 2;
            &&& all.len() == height
            &&& all.subrange(above, above + text.len()) == text
            &&& forall|i: int| 0 <= i < above ==> (#[trigger] all[i]).len() == 0
            &&& forall|i: int|
                above + text.len() <= i < height ==> (#[trigger] all[i]).len() == 0
        }),
{
    let text = wrapped(status, width - 2);
    let all = placeholder(status, width, height);
    let above = (height - text.len()) / 2;
    let top = Seq::new(above as nat, |i: int| empty_line());
    let below = height - above - text.len();
    let end = Seq::new(below as nat, |i: int| empty_line());
    assert(all == top + text + end);
    assert(all.subrange(above, above + text.len()) =~= text);
    assert forall|i: int| 0 <= i < above implies (#[trigger] all[i]).len() == 0 by {
        assert(all[i] == top[i]);
    }
    assert forall|i: int| above + text.len() <= i < height implies (#[trigger] all[i]).len()
        == 0 by {
        assert(all[i] == end[i - above - text.len()]);
    }
}

}
