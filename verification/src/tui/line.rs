//! Styled text, as it is drawn.
use vstd::prelude::*;
use vstd::string::StringExecFns;

use crate::text::owned;

verus! {

#[derive(Clone, Copy, Debug, PartialEq, Eq, Structural)]
pub enum Color {
    Black,
    Blue,
    Cyan,
    DarkGray,
    Gray,
    Green,
    LightBlue,
    LightGreen,
    Red,
    White,
    Yellow,
}

/// Colours and emphasis of a piece of text.
#[derive(Clone, Copy, Debug, PartialEq, Eq, Structural)]
pub struct Style {
    pub fg: Option<Color>,
    pub bg: Option<Color>,
    pub bold: bool,
    pub italic: bool,
    pub reversed: bool,
}

/// Text in one style.
#[derive(Debug, PartialEq, Eq)]
pub struct Span {
    pub text: String,
    pub style: Style,
}

/// Model of `Span`.
pub ghost struct SpanV {
    pub text: Seq<char>,
    pub style: Style,
}

/// A line of styled text.
#[derive(Debug, PartialEq, Eq)]
pub struct Line {
    pub spans: Vec<Span>,
}

impl View for Span {
    type V = SpanV;

    open spec fn view(&self) -> SpanV {
        SpanV { text: self.text@, style: self.style }
    }
}

impl View for Line {
    type V = Seq<SpanV>;

    open spec fn view(&self) -> Seq<SpanV> {
        crate::order::seen(self.spans@)
    }
}

/// No colour, no emphasis.
pub open spec fn plain_style() -> Style {
    Style { fg: None, bg: None, bold: false, italic: false, reversed: false }
}

/// A foreground colour alone.
pub open spec fn fg_style(c: Color) -> Style {
    Style { fg: Some(c), bg: None, bold: false, italic: false, reversed: false }
}

impl Style {
    /// No colour, no emphasis.
    pub fn plain() -> (r: Style)
        ensures
            r == plain_style(),
    {
        Style { fg: None, bg: None, bold: false, italic: false, reversed: false }
    }

    /// A foreground colour alone.
    pub fn fg(c: Color) -> (r: Style)
        ensures
            r == fg_style(c),
    {
        Style { fg: Some(c), bg: None, bold: false, italic: false, reversed: false }
    }

    /// The same with bold text.
    pub fn bold(self) -> (r: Style)
        ensures
            r == (Style { bold: true, ..self }),
    {
        Style { bold: true, ..self }
    }

    /// The same with italic text.
    pub fn italic(self) -> (r: Style)
        ensures
            r == (Style { italic: true, ..self }),
    {
        Style { italic: true, ..self }
    }

    /// The same with a background colour.
    pub fn on(self, c: Color) -> (r: Style)
        ensures
            r == (Style { bg: Some(c), ..self }),
    {
        Style { bg: Some(c), ..self }
    }
}

impl Span {
    pub fn new(text: &str, style: Style) -> (r: Span)
        ensures
            r@ == (SpanV { text: text@, style }),
    {
        Span { text: owned(text), style }
    }
}

impl Line {
    /// A line without spans.
    pub fn empty() -> (r: Line)
        ensures
            r@ == Seq::<SpanV>::empty(),
    {
        let r = Line { spans: Vec::new() };
        assert(r@ =~= Seq::<SpanV>::empty());
        r
    }

    /// A line of one span.
    pub fn one(span: Span) -> (r: Line)
        ensures
            r@ == seq![span@],
    {
        let ghost v = span@;
        let mut r = Line::empty();
        r.add(span);
        assert(r@ =~= seq![v]);
        r
    }

    /// Appends a span.
    pub fn add(&mut self, span: Span)
        ensures
            final(self)@ == old(self)@.push(span@),
    {
        let ghost before = self@;
        let ghost v = span@;
        self.spans.push(span);
        assert(self@ =~= before.push(v));
    }
}

/// The text of a line, its spans joined.
pub open spec fn line_text(spans: Seq<SpanV>) -> Seq<char>
    decreases spans.len(),
{
    if spans.len() == 0 {
        Seq::empty()
    } else {
        line_text(spans.drop_last()) + spans.last().text
    }
}

proof fn line_text_of_push(spans: Seq<SpanV>, x: SpanV)
    ensures
        line_text(spans.push(x)) == line_text(spans) + x.text,
{
    assert(spans.push(x).drop_last() =~= spans);
}

impl Line {
    /// The text of the line.
    pub fn to_text(&self) -> (r: String)
        ensures
            r@ == line_text(self@),
    {
        let mut out: String = String::new();
        let mut i: usize = 0;
        assert(out@ =~= line_text(self@.take(0)));
        while i < self.spans.len()
            invariant
                i <= self.spans@.len(),
                out@ == line_text(self@.take(i as int)),
            decreases self.spans@.len() - i,
        {
            out.append(self.spans[i].text.as_str());
            proof {
                line_text_of_push(self@.take(i as int), self@[i as int]);
                assert(self@.take(i as int + 1) =~= self@.take(i as int).push(self@[i as int]));
            }
            i += 1;
        }
        assert(self@.take(i as int) =~= self@);
        out
    }
}

/// The views of a list of lines.
pub open spec fn pages(v: Seq<Line>) -> Seq<Seq<SpanV>> {
    v.map_values(|l: Line| l@)
}

/// Appends a line to a list of lines.
pub fn push_line(out: &mut Vec<Line>, line: Line)
    ensures
        pages(final(out)@) == pages(old(out)@).push(line@),
{
    let ghost before = out@;
    let ghost v = line@;
    out.push(line);
    assert(pages(out@) =~= pages(before).push(v));
}

}
