//! Styled text and where it stands on the screen.
use vstd::prelude::*;
use crate::text::{chars_of, text_of};

verus! {

/// The colours of the dashboard's theme.
#[derive(Debug, Clone, Copy, PartialEq, Eq, Structural)]
pub enum Color {
    Bg,
    BgHard,
    Bg3,
    Fg,
    Fg2,
    Fg3,
    Fg4,
    BrightRed,
    BrightGreen,
    BrightYellow,
    BrightBlue,
    BrightPurple,
    BrightAqua,
    DarkGray,
}

/// How text is drawn.
#[derive(Debug, Clone, Copy, PartialEq, Eq, Structural)]
pub struct Style {
    pub fg: Option<Color>,
    pub bold: bool,
}

/// Text in a colour.
pub open spec fn colored(color: Color) -> Style {
    Style { fg: Some(color), bold: false }
}

/// Bold text in a colour.
pub open spec fn bold(color: Color) -> Style {
    Style { fg: Some(color), bold: true }
}

/// Text in the colour that is set.
pub open spec fn unstyled() -> Style {
    Style { fg: None, bold: false }
}

impl Style {
    /// Text in a colour.
    pub fn colored(color: Color) -> (r: Style)
        ensures
            r == colored(color),
    {
        Style { fg: Some(color), bold: false }
    }

    /// Bold text in a colour.
    pub fn bold(color: Color) -> (r: Style)
        ensures
            r == bold(color),
    {
        Style { fg: Some(color), bold: true }
    }
}

/// A piece of a line in one style.
#[derive(Debug)]
pub struct Span {
    pub content: String,
    pub style: Style,
}

/// A piece of a line as a value.
#[verifier::ext_equal]
pub struct SpanModel {
    pub content: Seq<char>,
    pub style: Style,
}

impl View for Span {
    type V = SpanModel;

    open spec fn view(&self) -> SpanModel {
        SpanModel { content: self.content@, style: self.style }
    }
}

/// A piece in a style.
pub open spec fn span(content: Seq<char>, style: Style) -> SpanModel {
    SpanModel { content, style }
}

impl Span {
    /// A piece in a style.
    pub fn styled(content: String, style: Style) -> (r: Span)
        ensures
            r@ == span(content@, style),
    {
        Span { content, style }
    }

    /// A piece in the colour that is set.
    pub fn raw(content: String) -> (r: Span)
        ensures
            r@ == span(content@, unstyled()),
    {
        Span { content, style: Style { fg: None, bold: false } }
    }

    /// A copy of the piece.
    pub fn copy(&self) -> (r: Span)
        ensures
            r@ == self@,
    {
        Span { content: self.content.clone(), style: self.style }
    }
}

/// A line of text.
#[derive(Debug)]
pub struct Line {
    pub spans: Vec<Span>,
}

/// Pieces as values.
pub open spec fn spans_model(s: Seq<Span>) -> Seq<SpanModel> {
    s.map_values(|x: Span| x@)
}

/// One piece more.
pub broadcast proof fn lemma_spans_push(s: Seq<Span>, x: Span)
    ensures
        #[trigger] spans_model(s.push(x)) == spans_model(s).push(x@),
{
    assert(spans_model(s.push(x)) =~= spans_model(s).push(x@));
}

impl View for Line {
    type V = Seq<SpanModel>;

    open spec fn view(&self) -> Seq<SpanModel> {
        spans_model(self.spans@)
    }
}

/// Lines as values.
pub open spec fn lines_model(s: Seq<Line>) -> Seq<Seq<SpanModel>> {
    s.map_values(|x: Line| x@)
}

/// One line more.
pub broadcast proof fn lemma_lines_push(s: Seq<Line>, x: Line)
    ensures
        #[trigger] lines_model(s.push(x)) == lines_model(s).push(x@),
{
    assert(lines_model(s.push(x)) =~= lines_model(s).push(x@));
}

/// An empty line.
pub open spec fn blank_line() -> Seq<SpanModel> {
    Seq::empty()
}

/// A line of one piece.
pub open spec fn line_of_span(content: Seq<char>, style: Style) -> Seq<SpanModel> {
    seq![span(content, style)]
}

/// The text of a line.
pub open spec fn plain_text(spans: Seq<SpanModel>) -> Seq<char>
    decreases spans.len(),
{
    if spans.len() == 0 {
        Seq::empty()
    } else {
        plain_text(spans.drop_last()) + spans.last().content
    }
}

impl Line {
    /// An empty line.
    pub fn blank() -> (r: Line)
        ensures
            r@ == blank_line(),
    {
        let line = Line { spans: Vec::new() };
        proof {
            assert(line@ =~= blank_line());
        }
        line
    }

    /// A line of one piece.
    pub fn of(content: String, style: Style) -> (r: Line)
        ensures
            r@ == line_of_span(content@, style),
    {
        let mut line = Line::blank();
        line.add_styled(content, style);
        proof {
            assert(line@ =~= line_of_span(content@, style));
        }
        line
    }

    /// Adds a piece.
    pub fn add_styled(&mut self, content: String, style: Style)
        ensures
            final(self)@ == old(self)@.push(span(content@, style)),
    {
        broadcast use lemma_spans_push;

        self.spans.push(Span::styled(content, style));
    }

    /// Adds a copy of the pieces of another line.
    pub fn add_line(&mut self, other: &Line)
        ensures
            final(self)@ == old(self)@ + other@,
    {
        broadcast use lemma_spans_push;

        let ghost before = self@;
        let mut i: usize = 0;
        proof {
            assert(before + other@.take(0) =~= before);
        }
        while i < other.spans.len()
            invariant
                i <= other.spans@.len(),
                self@ == before + other@.take(i as int),
            decreases other.spans@.len() - i,
        {
            let copy = other.spans[i].copy();
            let ghost so_far = self@;
            self.spans.push(copy);
            proof {
                assert(copy@ == other@[i as int]);
                assert(self@ == so_far.push(copy@));
                assert(self@ =~= before + other@.take(i + 1));
            }
            i += 1;
        }
        proof {
            assert(other@.take(i as int) =~= other@);
        }
    }

    /// The text of the line.
    pub fn plain_text(&self) -> (r: String)
        ensures
            r@ == plain_text(self@),
    {
        let mut out = String::new();
        let mut i: usize = 0;
        while i < self.spans.len()
            invariant
                i <= self.spans@.len(),
                out@ == plain_text(self@.take(i as int)),
            decreases self.spans@.len() - i,
        {
            proof {
                assert(self@.take(i + 1).drop_last() =~= self@.take(i as int));
            }
            out.append(self.spans[i].content.as_str());
            i += 1;
        }
        proof {
            assert(self@.take(i as int) =~= self@);
        }
        out
    }
}

/// A character a number of times.
pub open spec fn repeated(c: char, n: nat) -> Seq<char> {
    Seq::new(n, |i: int| c)
}

/// Writes a character a number of times.
pub fn repeat(c: char, n: usize) -> (r: String)
    ensures
        r@ == repeated(c, n as nat),
{
    let mut v: Vec<char> = Vec::new();
    let mut i: usize = 0;
    while i < n
        invariant
            i <= n,
            v@ =~= repeated(c, i as nat),
        decreases n - i,
    {
        v.push(c);
        i += 1;
    }
    text_of(&v)
}

/// A text with blanks behind it, so that it has at least a number of characters.
pub open spec fn padded(s: Seq<char>, width: nat) -> Seq<char> {
    if s.len() >= width {
        s
    } else {
        s + repeated(' ', (width - s.len()) as nat)
    }
}

/// Pads a text with blanks to at least a number of characters.
pub fn pad(s: &str, width: usize) -> (r: String)
    ensures
        r@ == padded(s@, width as nat),
{
    let n: usize = chars_of(s).len();
    let mut out = s.to_owned();
    if n < width {
        out.append(repeat(' ', width - n).as_str());
    }
    out
}

/// A text with something before and behind it.
pub fn framed(before: &str, s: &str, behind: &str) -> (r: String)
    ensures
        r@ == before@ + s@ + behind@,
{
    let mut out = before.to_owned();
    out.append(s);
    out.append(behind);
    out
}

/// A rectangle of the screen.
#[derive(Debug, Clone, Copy, PartialEq, Eq, Structural)]
pub struct Area {
    pub x: u16,
    pub y: u16,
    pub width: u16,
    pub height: u16,
}

/// A difference, or zero where it would be negative.
pub open spec fn less(a: int, b: int) -> int {
    if a >= b {
        a - b
    } else {
        0
    }
}

/// The lesser of two numbers.
pub open spec fn lesser(a: int, b: int) -> int {
    if a <= b {
        a
    } else {
        b
    }
}

/// The greater of two numbers.
pub open spec fn greater(a: int, b: int) -> int {
    if a >= b {
        a
    } else {
        b
    }
}

/// What a border on all sides leaves of a rectangle.
pub open spec fn inside(a: Area) -> Area {
    Area {
        x: lesser(a.x + lesser(a.width as int, 1), u16::MAX as int) as u16,
        y: lesser(a.y + lesser(a.height as int, 1), u16::MAX as int) as u16,
        width: less(a.width as int, 2) as u16,
        height: less(a.height as int, 2) as u16,
    }
}

/// The next coordinate, where there is one and the size leaves room for it.
fn next(at: u16, size: u16) -> (r: u16)
    ensures
        r == lesser(at + lesser(size as int, 1), u16::MAX as int),
{
    if size == 0 || at == u16::MAX {
        at
    } else {
        at + 1
    }
}

/// What a border on all sides leaves of a rectangle.
pub fn inside_border(a: Area) -> (r: Area)
    ensures
        r == inside(a),
{
    Area {
        x: next(a.x, a.width),
        y: next(a.y, a.height),
        width: minus(a.width, 2),
        height: minus(a.height, 2),
    }
}

/// A difference, or zero where it would be negative.
pub fn minus(a: u16, b: u16) -> (r: u16)
    ensures
        r == less(a as int, b as int),
{
    if a >= b {
        a - b
    } else {
        0
    }
}

/// The lesser of two numbers.
pub fn at_most(a: u16, b: u16) -> (r: u16)
    ensures
        r == lesser(a as int, b as int),
{
    if a <= b {
        a
    } else {
        b
    }
}

/// The greater of two numbers.
pub fn at_least(a: u16, b: u16) -> (r: u16)
    ensures
        r == greater(a as int, b as int),
{
    if a >= b {
        a
    } else {
        b
    }
}

} // verus!
