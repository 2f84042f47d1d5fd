//! What the chat list, the settings, the login and the loading screens show.
use vstd::prelude::*;

use crate::backend::{switched_on, tag_of, AuthSteps, Chat, ChatV, Provider};
use crate::config::{text_of, ProvidersConfig};
use crate::layout::{is_rows, one_part_grows, split_rows, Part, Rect};
use crate::order::seen;
use crate::text::{blank, decimal_int, format_i64, joined, joined3, owned, same, trim, trimmed};
use crate::tui::chat_widget::Focus;
use crate::tui::line::{fg_style, pages, plain_style, push_line, Color, Line, Span, SpanV, Style};

verus! {

// Loading.

/// Where a loading notice is shown.
#[derive(Clone, Copy, Debug, PartialEq, Eq, Structural)]
pub enum LoadingArea {
    ChatList,
    Chat,
    Inline,
    FullScreen,
}

/// An animation that turns by one frame at a time.
#[derive(Clone, Copy, Debug, PartialEq, Eq, Structural)]
pub struct LoadingSpinner {
    pub frame: u8,
}

/// What is being loaded, and where that is shown.
#[derive(Debug, PartialEq, Eq)]
pub struct LoadingState {
    pub area: LoadingArea,
    pub context: String,
    pub spinner: LoadingSpinner,
}

impl LoadingSpinner {
    pub fn new() -> (r: Self)
        ensures
            r.frame == 0,
    {
        LoadingSpinner { frame: 0 }
    }

    /// Turns to the next frame; the last one is followed by the first.
    pub fn tick(&mut self)
        ensures
            final(self).frame == (old(self).frame + 1) % 256,
    {
        self.frame = if self.frame == 255 { 0 } else { self.frame + 1 };
    }

    pub fn frame(&self) -> (r: u8)
        ensures
            r == self.frame,
    {
        self.frame
    }
}

/// The character of an animation frame: four of them, over and over.
pub open spec fn spinner_char(frame: u8) -> Seq<char> {
    if frame % 4 == 0 {
        "|"@
    } else if frame % 4 == 1 {
        "/"@
    } else if frame % 4 == 2 {
        "-"@
    } else {
        "\\"@
    }
}

/// The character of an animation frame.
pub fn spinner_symbol(frame: u8) -> (r: &'static str)
    ensures
        r@ == spinner_char(frame),
{
    let n: u8 = frame % 4;
    if n == 0 {
        "|"
    } else if n == 1 {
        "/"
    } else if n == 2 {
        "-"
    } else {
        "\\"
    }
}

pub open spec fn bold_gray() -> Style {
    Style { bold: true, ..fg_style(Color::DarkGray) }
}

/// The lines of a loading notice: the animation, and what is being loaded.
pub open spec fn loading_lines(info: Option<Seq<char>>, frame: u8) -> Seq<Seq<SpanV>> {
    let empty = seq![SpanV { text: ""@, style: plain_style() }];
    seq![
        empty,
        seq![
            SpanV { text: " "@ + spinner_char(frame) + " "@, style: bold_gray() },
            SpanV { text: " Loading... "@, style: bold_gray() },
        ],
    ] + match info {
        Some(s) => seq![empty, seq![SpanV { text: s, style: fg_style(Color::DarkGray) }]],
        None => Seq::empty(),
    }
}

/// The lines of a loading notice.
pub fn loading_content(info: Option<&str>, frame: u8) -> (r: Vec<Line>)
    ensures
        pages(r@) == loading_lines(crate::config::text_of(info), frame),
{
    let mut out: Vec<Line> = Vec::new();
    push_line(&mut out, Line::one(Span::new("", Style::plain())));
    let mut spin: Line = Line::empty();
    spin.add(
        Span {
            text: joined3(" ", spinner_symbol(frame), " "),
            style: Style::fg(Color::DarkGray).bold(),
        },
    );
    spin.add(Span::new(" Loading... ", Style::fg(Color::DarkGray).bold()));
    assert(spin@ =~= seq![
        SpanV { text: " "@ + spinner_char(frame) + " "@, style: bold_gray() },
        SpanV { text: " Loading... "@, style: bold_gray() },
    ]);
    push_line(&mut out, spin);
    if let Some(s) = info {
        push_line(&mut out, Line::one(Span::new("", Style::plain())));
        push_line(&mut out, Line::one(Span::new(s, Style::fg(Color::DarkGray))));
    }
    assert(pages(out@) =~= loading_lines(crate::config::text_of(info), frame));
    out
}

// The chat list.

/// A row of the chat list: tag, pin, mark, name, presence and unread count.
pub open spec fn chat_row(c: ChatV) -> Seq<SpanV> {
    let tag = seq![
        SpanV { text: tag_of(c.id) + " "@, style: fg_style(Color::DarkGray) },
    ];
    let pin = if c.fixed {
        seq![SpanV { text: "📌 "@, style: fg_style(Color::Yellow) }]
    } else {
        Seq::empty()
    };
    let mark = if c.verified {
        seq![SpanV { text: "✓ "@, style: fg_style(Color::LightGreen) }]
    } else {
        Seq::empty()
    };
    let name = seq![
        SpanV { text: trimmed(c.contact_name), style: Style { bold: c.unread, ..plain_style() } },
    ];
    let presence = match c.status {
        Some(s) => if blank(s) {
            Seq::empty()
        } else if s == "online"@ {
            seq![SpanV { text: " •"@, style: fg_style(Color::Green) }]
        } else {
            seq![SpanV { text: ""@, style: plain_style() }]
        },
        None => Seq::empty(),
    };
    let count = if c.unread_count > 0 {
        seq![
            SpanV {
                text: " ("@ + decimal_int(c.unread_count as int) + ")"@,
                style: fg_style(Color::Yellow),
            },
        ]
    } else {
        Seq::empty()
    };
    tag + pin + mark + name + presence + count
}

/// A row of the chat list.
pub fn chat_row_line(chat: &Chat) -> (r: Line)
    ensures
        r@ == chat_row(chat@),
{
    let mut line: Line = Line::empty();
    line.add(Span { text: joined(chat.id.tag(), " "), style: Style::fg(Color::DarkGray) });
    if chat.fixed {
        line.add(Span::new("📌 ", Style::fg(Color::Yellow)));
    }
    if chat.verified {
        line.add(Span::new("✓ ", Style::fg(Color::LightGreen)));
    }
    let name_style = Style { fg: None, bg: None, bold: chat.unread, italic: false, reversed: false };
    line.add(Span { text: trim(chat.contact_name.as_str()), style: name_style });
    if let Some(status) = chat.status_label() {
        if same(status, "online") {
            line.add(Span::new(" •", Style::fg(Color::Green)));
        } else {
            line.add(Span::new("", Style::plain()));
        }
    }
    if chat.unread_count > 0 {
        line.add(
            Span {
                text: joined3(" (", format_i64(chat.unread_count as i64).as_str(), ")"),
                style: Style::fg(Color::Yellow),
            },
        );
    }
    assert(line@ =~= chat_row(chat@));
    line
}

/// Colour of the chat list when it has the keyboard.
pub open spec fn list_border(focus: Focus, tag: Option<Seq<char>>) -> Style {
    if focus == Focus::ChatList {
        match tag {
            Some(t) => if t == "TG"@ {
                fg_style(Color::Blue)
            } else if t == "WA"@ {
                fg_style(Color::Green)
            } else {
                plain_style()
            },
            None => plain_style(),
        }
    } else {
        plain_style()
    }
}

/// Highlight of the selected row.
pub open spec fn list_highlight(focus: Focus, tag: Option<Seq<char>>) -> Style {
    if focus == Focus::ChatList {
        match tag {
            Some(t) => if t == "TG"@ {
                Style { bg: Some(Color::Blue), bold: true, ..plain_style() }
            } else if t == "WA"@ {
                Style { bg: Some(Color::Green), bold: true, ..plain_style() }
            } else {
                Style {
                    fg: Some(Color::Black),
                    bg: Some(Color::Yellow),
                    bold: true,
                    ..plain_style()
                }
            },
            None => Style {
                fg: Some(Color::Black),
                bg: Some(Color::Yellow),
                bold: true,
                ..plain_style()
            },
        }
    } else {
        Style { reversed: true, ..plain_style() }
    }
}

/// Everything the chat list draws.
pub struct ChatListPlan {
    pub title: Line,
    pub border: Style,
    pub highlight: Style,
    pub rows: Vec<Line>,
    /// What is shown where there is no row.
    pub empty_note: &'static str,
}

/// The title of the chat list, with the animation while it is fetched.
pub open spec fn list_title(loading: Option<u8>) -> Seq<SpanV> {
    let title = seq![SpanV { text: " Chats "@, style: plain_style() }];
    match loading {
        Some(f) => title.push(
            SpanV { text: " "@ + spinner_char(f) + " "@, style: fg_style(Color::DarkGray) },
        ),
        None => title,
    }
}

/// Works out everything the chat list draws.
pub fn plan_chat_list(
    chats: &Vec<Chat>,
    tag: Option<&str>,
    focus: Focus,
    search_active: bool,
    loading: Option<u8>,
) -> (r: ChatListPlan)
    ensures
        r.title@ == list_title(loading),
        r.border == list_border(focus, crate::config::text_of(tag)),
        r.highlight == list_highlight(focus, crate::config::text_of(tag)),
        pages(r.rows@) == seen(chats@).map_values(|c: ChatV| chat_row(c)),
        r.empty_note@ == if search_active {
            "No matching chats."@
        } else {
            "No chats yet.\nPress s to enable a provider."@
        },
{
    let mut title: Line = Line::one(Span::new(" Chats ", Style::plain()));
    if let Some(f) = loading {
        title.add(
            Span { text: joined3(" ", spinner_symbol(f), " "), style: Style::fg(Color::DarkGray) },
        );
    }
    let tg: bool = match tag {
        Some(t) => same(t, "TG"),
        None => false,
    };
    let wa: bool = match tag {
        Some(t) => same(t, "WA"),
        None => false,
    };
    let here: bool = focus == Focus::ChatList;
    let border: Style = if here && tg {
        Style::fg(Color::Blue)
    } else if here && wa {
        Style::fg(Color::Green)
    } else {
        Style::plain()
    };
    let highlight: Style = if !here {
        Style { fg: None, bg: None, bold: false, italic: false, reversed: true }
    } else if tg {
        Style::plain().on(Color::Blue).bold()
    } else if wa {
        Style::plain().on(Color::Green).bold()
    } else {
        Style::fg(Color::Black).on(Color::Yellow).bold()
    };
    let ghost all = seen(chats@);
    let mut rows: Vec<Line> = Vec::new();
    let mut i: usize = 0;
    assert(pages(rows@) =~= all.take(0).map_values(|c: ChatV| chat_row(c)));
    while i < chats.len()
        invariant
            i <= chats@.len(),
            all == seen(chats@),
            pages(rows@) == all.take(i as int).map_values(|c: ChatV| chat_row(c)),
        decreases chats@.len() - i,
    {
        push_line(&mut rows, chat_row_line(&chats[i]));
        i += 1;
        assert(all.take(i as int).map_values(|c: ChatV| chat_row(c)) =~= all.take(
            i as int - 1,
        ).map_values(|c: ChatV| chat_row(c)).push(chat_row(all[i as int - 1])));
    }
    assert(all.take(i as int) =~= all);
    ChatListPlan {
        title,
        border,
        highlight,
        rows,
        empty_note: if search_active {
            "No matching chats."
        } else {
            "No chats yet.\nPress s to enable a provider."
        },
    }
}

// Settings.

/// A row of the settings.
pub open spec fn settings_row(p: Provider, c: ProvidersConfig) -> Seq<char> {
    let name = match p {
        Provider::Telegram => "Telegram"@,
        Provider::WhatsApp => "WhatsApp"@,
    };
    let credentials = match p {
        Provider::Telegram => c.telegram.credentialed(),
        Provider::WhatsApp => true,
    };
    if switched_on(p, c) {
        "[x] "@ + name + " — enabled"@
    } else if credentials {
        "[ ] "@ + name + " — disabled — Enter to enable"@
    } else {
        "[-] "@ + name + " — no credentials"@
    }
}

/// A row of the settings.
pub fn settings_row_text(p: Provider, c: &ProvidersConfig) -> (r: String)
    ensures
        r@ == settings_row(p, *c),
{
    let name: &'static str = p.name();
    if p.is_enabled(c) {
        joined3("[x] ", name, " — enabled")
    } else if p.has_credentials(c) {
        joined3("[ ] ", name, " — disabled — Enter to enable")
    } else {
        joined3("[-] ", name, " — no credentials")
    }
}

// Login.

/// Style of a step in the progress line: done, current, or still to come.
pub open spec fn step_style(i: int, step: int) -> Style {
    if i < step {
        fg_style(Color::Green)
    } else if i == step {
        Style { bold: true, ..fg_style(Color::Cyan) }
    } else {
        fg_style(Color::DarkGray)
    }
}

/// The words of a login step.
pub open spec fn step_label(s: AuthSteps) -> Seq<char> {
    match s {
        AuthSteps::Phone => "phone"@,
        AuthSteps::Code => "code"@,
        AuthSteps::Password => "password"@,
        AuthSteps::QrCode(_) => "qr code"@,
    }
}

/// The progress line: every step, with arrows between them.
pub open spec fn progress_line(steps: Seq<AuthSteps>, step: int) -> Seq<SpanV>
    decreases steps.len(),
{
    if steps.len() == 0 {
        Seq::empty()
    } else {
        let i = steps.len() - 1;
        let rest = progress_line(steps.drop_last(), step);
        let arrow = if i > 0 {
            rest.push(SpanV { text: " → "@, style: plain_style() })
        } else {
            rest
        };
        arrow.push(SpanV { text: step_label(steps.last()), style: step_style(i, step) })
    }
}

/// The progress line.
pub fn progress(steps: &Vec<AuthSteps>, step: usize) -> (r: Line)
    ensures
        r@ == progress_line(steps@, step as int),
{
    let mut line: Line = Line::empty();
    let mut i: usize = 0;
    assert(line@ =~= progress_line(steps@.take(0), step as int));
    while i < steps.len()
        invariant
            i <= steps@.len(),
            line@ == progress_line(steps@.take(i as int), step as int),
        decreases steps@.len() - i,
    {
        assert(steps@.take(i as int + 1).drop_last() =~= steps@.take(i as int));
        if i > 0 {
            line.add(Span::new(" → ", Style::plain()));
        }
        let style: Style = if i < step {
            Style::fg(Color::Green)
        } else if i == step {
            Style::fg(Color::Cyan).bold()
        } else {
            Style::fg(Color::DarkGray)
        };
        line.add(Span::new(steps[i].label(), style));
        i += 1;
    }
    assert(steps@.take(i as int) =~= steps@);
    line
}

/// Everything the login screen draws.
pub struct LoginPlan {
    pub title: String,
    pub progress: Line,
    pub label: String,
    pub error: String,
    pub progress_area: Rect,
    pub label_area: Rect,
    pub input_area: Rect,
    pub error_area: Rect,
    /// Whether the input is hidden.
    pub masked: bool,
}

/// The parts of the login screen, from top to bottom.
pub open spec fn login_parts() -> Seq<Part> {
    seq![
        Part::Length(1),
        Part::Length(1),
        Part::Length(1),
        Part::Length(4),
        Part::Length(1),
        Part::Min(1),
        Part::Length(1),
    ]
}

/// What the login screen draws in given rows.
pub open spec fn is_login_plan(
    r: LoginPlan,
    provider: Provider,
    steps: Seq<AuthSteps>,
    step: int,
    error: Option<Seq<char>>,
    rows: Seq<Rect>,
) -> bool {
    &&& r.title@ == " "@ + (match provider {
        Provider::Telegram => "Telegram"@,
        Provider::WhatsApp => "WhatsApp"@,
    }) + " — "@ + step_label(steps[step]) + " "@
    &&& r.progress@ == progress_line(steps, step)
    &&& r.label@ == step_label(steps[step]) + ":"@
    &&& r.error@ == match error {
        Some(e) => "An error occurred: "@ + e,
        None => ""@,
    }
    &&& r.progress_area == rows[0]
    &&& r.label_area == rows[2]
    &&& r.input_area == (Rect { height: 3, ..rows[3] })
    &&& r.error_area == rows[5]
    &&& r.masked == (steps[step] is Password)
}

/// Works out everything the login screen draws at a step.
pub fn plan_login(
    provider: Provider,
    steps: &Vec<AuthSteps>,
    step: usize,
    error: Option<&str>,
    inner: Rect,
) -> (r: LoginPlan)
    requires
        step < steps@.len(),
    ensures
        exists|rows: Seq<Rect>| #[trigger]
            is_rows(inner, login_parts(), rows) && is_login_plan(
                r,
                provider,
                steps@,
                step as int,
                text_of(error),
                rows,
            ),
{
    let parts: Vec<Part> = vec![
        Part::Length(1),
        Part::Length(1),
        Part::Length(1),
        Part::Length(4),
        Part::Length(1),
        Part::Min(1),
        Part::Length(1),
    ];
    assert(parts@ =~= login_parts());
    proof {
        one_part_grows(parts@, 5);
    }
    let rows: Vec<Rect> = split_rows(inner, &parts);
    plan_login_in(provider, steps, step, error, &rows)
}

/// Works out everything the login screen draws at a step, in given rows.
pub fn plan_login_in(
    provider: Provider,
    steps: &Vec<AuthSteps>,
    step: usize,
    error: Option<&str>,
    rows: &Vec<Rect>,
) -> (r: LoginPlan)
    requires
        step < steps@.len(),
        rows@.len() == 7,
    ensures
        is_login_plan(r, provider, steps@, step as int, text_of(error), rows@),
{
    let label: &'static str = steps[step].label();
    let input: Rect = rows[3];
    LoginPlan {
        title: joined3(
            joined3(" ", provider.name(), " — ").as_str(),
            label,
            " ",
        ),
        progress: progress(steps, step),
        label: joined(label, ":"),
        error: match error {
            Some(e) => joined("An error occurred: ", e),
            None => owned(""),
        },
        progress_area: rows[0],
        label_area: rows[2],
        input_area: Rect { x: input.x, y: input.y, width: input.width, height: 3 },
        error_area: rows[5],
        masked: match &steps[step] {
            AuthSteps::Password => true,
            _ => false,
        },
    }
}

// Overlay.

/// Where a notice over the screen is drawn; none where there is no room.
pub fn overlay_area(area: Rect) -> (r: Option<Rect>)
    ensures
        match r {
            Some(a) => area.width > 4 && area.height > 0 && a.width == (if area.width - 4 < 60 {
                area.width - 4
            } else {
                60
            }) && a.height == (if area.height < 5 {
                area.height as int
            } else {
                5
            }) && a.x == (area.width - a.width) / 2 && a.y == (area.height - a.height) / 2,
            None => area.width <= 4 || area.height == 0,
        },
{
    let room: u16 = if area.width > 4 { area.width - 4 } else { 0 };
    let width: u16 = if room < 60 { room } else { 60 };
    let height: u16 = if area.height < 5 { area.height } else { 5 };
    if width == 0 || height == 0 {
        return None;
    }
    Some(
        Rect { x: (area.width - width) / 2, y: (area.height - height) / 2, width, height },
    )
}

}
