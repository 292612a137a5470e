//! What a panel shows, as plain values: rectangles, styled text, and the list
//! of drawing steps that a terminal backend carries out in order.

use vstd::prelude::*;
use vstd::string::*;

verus! {

// ---- rectangles ----

/// An area of terminal cells.
#[derive(Clone, Copy, Debug, PartialEq, Eq, Structural)]
pub struct Rect {
    pub x: u16,
    pub y: u16,
    pub width: u16,
    pub height: u16,
}

impl Rect {
    /// The far edges of the area are addressable.
    pub open spec fn wf(self) -> bool {
        self.x + self.width <= u16::MAX && self.y + self.height <= u16::MAX
    }

    /// Whether the cell at column `x`, row `y` lies in the area.
    #[verifier::allow_in_spec]
    pub fn holds(&self, x: u16, y: u16) -> bool
        returns
            self.x <= x && x - self.x < self.width && self.y <= y && y - self.y < self.height,
    {
        self.x <= x && x - self.x < self.width && self.y <= y && y - self.y < self.height
    }

    /// Whether `self` lies inside `outer`.
    pub open spec fn inside(self, outer: Rect) -> bool {
        &&& outer.x <= self.x
        &&& self.x + self.width <= outer.x + outer.width
        &&& outer.y <= self.y
        &&& self.y + self.height <= outer.y + outer.height
    }
}

/// The smaller of two integers.
pub open spec fn min(a: int, b: int) -> int {
    if a <= b {
        a
    } else {
        b
    }
}

/// The larger of two integers.
pub open spec fn max(a: int, b: int) -> int {
    if a >= b {
        a
    } else {
        b
    }
}

/// `a - b`, or 0 where `b` is the larger.
pub open spec fn minus(a: int, b: int) -> int {
    if a >= b {
        a - b
    } else {
        0
    }
}

/// The area left inside a border of one cell on every side.
pub open spec fn inside_borders(r: Rect) -> Rect {
    Rect {
        x: min(r.x + 1, r.x + r.width) as u16,
        y: min(r.y + 1, r.y + r.height) as u16,
        width: minus(r.width as int, 2) as u16,
        height: minus(r.height as int, 2) as u16,
    }
}

pub fn insideBorders(r: Rect) -> (i: Rect)
    requires
        r.wf(),
    ensures
        i == inside_borders(r),
        i.wf(),
        i.inside(r),
{
    let x: u16 = if r.width == 0 {
        r.x
    } else {
        r.x + 1
    };
    let y: u16 = if r.height == 0 {
        r.y
    } else {
        r.y + 1
    };
    Rect { x, y, width: r.width.saturating_sub(2), height: r.height.saturating_sub(2) }
}

/// An area of `w` by `h` cells in the middle of `r`.
pub open spec fn centered(r: Rect, w: int, h: int) -> Rect {
    Rect {
        x: (r.x + minus(r.width as int, w) / 2) as u16,
        y: (r.y + minus(r.height as int, h) / 2) as u16,
        width: w as u16,
        height: h as u16,
    }
}

pub fn centeredIn(r: Rect, w: u16, h: u16) -> (c: Rect)
    requires
        r.wf(),
    ensures
        c == centered(r, w as int, h as int),
        w <= r.width && h <= r.height ==> c.wf() && c.inside(r),
{
    Rect {
        x: r.x + r.width.saturating_sub(w) / 2,
        y: r.y + r.height.saturating_sub(h) / 2,
        width: w,
        height: h,
    }
}

// ---- styles ----

/// A foreground or background color.
#[derive(Clone, Copy, Debug, PartialEq, Eq, Structural)]
pub enum Color {
    Reset,
    Black,
    Red,
    Green,
    Yellow,
    Blue,
    Magenta,
    Cyan,
    Gray,
    DarkGray,
    LightRed,
    LightGreen,
    LightYellow,
    LightBlue,
    LightMagenta,
    LightCyan,
    White,
    Rgb(u8, u8, u8),
}

/// How a run of text looks.
#[derive(Clone, Copy, Debug, PartialEq, Eq, Structural)]
pub struct Style {
    pub fg: Option<Color>,
    pub bg: Option<Color>,
    pub bold: bool,
    pub dim: bool,
    pub italic: bool,
    pub underlined: bool,
    pub reversed: bool,
}

impl Style {
    /// The terminal's own look.
    #[verifier::allow_in_spec]
    pub fn plain() -> Style
        returns
            (Style {
                fg: None,
                bg: None,
                bold: false,
                dim: false,
                italic: false,
                underlined: false,
                reversed: false,
            }),
    {
        Style {
            fg: None,
            bg: None,
            bold: false,
            dim: false,
            italic: false,
            underlined: false,
            reversed: false,
        }
    }

    #[verifier::allow_in_spec]
    pub fn fg(self, c: Color) -> Style
        returns
            (Style { fg: Some(c), ..self }),
    {
        Style { fg: Some(c), ..self }
    }

    #[verifier::allow_in_spec]
    pub fn bg(self, c: Color) -> Style
        returns
            (Style { bg: Some(c), ..self }),
    {
        Style { bg: Some(c), ..self }
    }

    #[verifier::allow_in_spec]
    pub fn bold(self) -> Style
        returns
            (Style { bold: true, ..self }),
    {
        Style { bold: true, ..self }
    }

    #[verifier::allow_in_spec]
    pub fn dim(self) -> Style
        returns
            (Style { dim: true, ..self }),
    {
        Style { dim: true, ..self }
    }

    #[verifier::allow_in_spec]
    pub fn italic(self) -> Style
        returns
            (Style { italic: true, ..self }),
    {
        Style { italic: true, ..self }
    }

    #[verifier::allow_in_spec]
    pub fn underlined(self) -> Style
        returns
            (Style { underlined: true, ..self }),
    {
        Style { underlined: true, ..self }
    }

    #[verifier::allow_in_spec]
    pub fn reversed(self) -> Style
        returns
            (Style { reversed: true, ..self }),
    {
        Style { reversed: true, ..self }
    }
}

/// Text in the color `c`.
#[verifier::allow_in_spec]
pub fn colored(c: Color) -> Style
    returns
        Style::plain().fg(c),
{
    Style::plain().fg(c)
}

// ---- styled text ----

/// A run of text in one style.
#[derive(Clone, Debug)]
pub struct Span {
    pub text: String,
    pub style: Style,
}

/// What a span shows.
pub ghost struct SpanV {
    pub text: Seq<char>,
    pub style: Style,
}

impl View for Span {
    type V = SpanV;

    open spec fn view(&self) -> SpanV {
        SpanV { text: self.text@, style: self.style }
    }
}

/// The spans of `v` as shown.
pub open spec fn span_views(v: Seq<Span>) -> Seq<SpanV> {
    Seq::new(v.len(), |i: int| v[i]@)
}

/// A row of styled text.
#[derive(Clone, Debug)]
pub struct Line {
    pub spans: Vec<Span>,
}

impl View for Line {
    type V = Seq<SpanV>;

    open spec fn view(&self) -> Seq<SpanV> {
        span_views(self.spans@)
    }
}

/// The lines of `v` as shown.
pub open spec fn line_views(v: Seq<Line>) -> Seq<Seq<SpanV>> {
    Seq::new(v.len(), |i: int| v[i]@)
}

/// A shown span.
pub open spec fn sv(text: Seq<char>, style: Style) -> SpanV {
    SpanV { text, style }
}

/// The text `s` in the style `style`.
pub fn span(s: &str, style: Style) -> (r: Span)
    ensures
        r@ == sv(s@, style),
{
    Span { text: String::from_str(s), style }
}

/// The text `s` in the style `style`.
pub fn spanOf(s: String, style: Style) -> (r: Span)
    ensures
        r@ == sv(s@, style),
{
    Span { text: s, style }
}

/// Adds a span at the end.
pub fn addSpan(v: &mut Vec<Span>, s: Span)
    ensures
        span_views(final(v)@) == span_views(old(v)@).push(s@),
{
    v.push(s);
    proof {
        assert(span_views(v@) =~= span_views(old(v)@).push(s@));
    }
}

/// Adds a line at the end.
pub fn addLine(v: &mut Vec<Line>, l: Line)
    ensures
        line_views(final(v)@) == line_views(old(v)@).push(l@),
{
    v.push(l);
    proof {
        assert(line_views(v@) =~= line_views(old(v)@).push(l@));
    }
}

/// A line without any span.
pub fn emptyLine() -> (r: Line)
    ensures
        r@ == Seq::<SpanV>::empty(),
{
    let r = Line { spans: Vec::new() };
    proof {
        assert(r@ =~= Seq::<SpanV>::empty());
    }
    r
}

/// A line of one span.
pub fn lineOf(s: Span) -> (r: Line)
    ensures
        r@ == seq![s@],
{
    let mut v: Vec<Span> = Vec::new();
    v.push(s);
    let r = Line { spans: v };
    proof {
        assert(r@ =~= seq![s@]);
    }
    r
}

/// A line of two spans.
pub fn lineOf2(a: Span, b: Span) -> (r: Line)
    ensures
        r@ == seq![a@, b@],
{
    let mut v: Vec<Span> = Vec::new();
    v.push(a);
    v.push(b);
    let r = Line { spans: v };
    proof {
        assert(r@ =~= seq![a@, b@]);
    }
    r
}

/// A line of three spans.
pub fn lineOf3(a: Span, b: Span, c: Span) -> (r: Line)
    ensures
        r@ == seq![a@, b@, c@],
{
    let mut v: Vec<Span> = Vec::new();
    v.push(a);
    v.push(b);
    v.push(c);
    let r = Line { spans: v };
    proof {
        assert(r@ =~= seq![a@, b@, c@]);
    }
    r
}

/// A copy of a span that shows the same.
pub fn copySpan(s: &Span) -> (r: Span)
    ensures
        r == *s,
{
    Span { text: s.text.clone(), style: s.style }
}

/// A copy of a line that shows the same.
pub fn copyLine(l: &Line) -> (r: Line)
    ensures
        r@ == l@,
        r.spans@ == l.spans@,
{
    let mut v: Vec<Span> = Vec::new();
    let mut i: usize = 0;
    while i < l.spans.len()
        invariant
            i <= l.spans.len(),
            v@ == l.spans@.take(i as int),
        decreases l.spans.len() - i,
    {
        v.push(copySpan(&l.spans[i]));
        i = i + 1;
        proof {
            assert(v@ =~= l.spans@.take(i as int));
        }
    }
    proof {
        assert(v@ =~= l.spans@);
    }
    Line { spans: v }
}

// ---- drawing ----

/// One step of drawing.
#[derive(Clone, Debug)]
pub enum Draw {
    /// Blank the area.
    Clear { rect: Rect },
    /// Blanks in the style `style` all over the area.
    Fill { rect: Rect, style: Style },
    /// A border around the area, with a title on it.
    Frame { rect: Rect, title: Span, border: Style, fill: Style },
    /// Text from the cell at `x`, `y` on, over at most `width` cells.
    Text { x: u16, y: u16, text: Span, width: u16 },
    /// Lines of text, one per row of the area.
    Para { rect: Rect, lines: Vec<Line>, style: Style },
    /// One line from the cell at `x`, `y` on, over at most `width` cells, and
    /// blanks behind it up to the column `until`.
    Row { x: u16, y: u16, line: Line, width: u16, until: u16 },
}

/// What a step of drawing shows.
pub ghost enum DrawV {
    Clear { rect: Rect },
    Fill { rect: Rect, style: Style },
    Frame { rect: Rect, title: SpanV, border: Style, fill: Style },
    Text { x: u16, y: u16, text: SpanV, width: u16 },
    Para { rect: Rect, lines: Seq<Seq<SpanV>>, style: Style },
    Row { x: u16, y: u16, line: Seq<SpanV>, width: u16, until: u16 },
}

impl View for Draw {
    type V = DrawV;

    open spec fn view(&self) -> DrawV {
        match *self {
            Draw::Clear { rect } => DrawV::Clear { rect },
            Draw::Fill { rect, style } => DrawV::Fill { rect, style },
            Draw::Frame { rect, title, border, fill } => DrawV::Frame {
                rect,
                title: title@,
                border,
                fill,
            },
            Draw::Text { x, y, text, width } => DrawV::Text { x, y, text: text@, width },
            Draw::Para { rect, lines, style } => DrawV::Para {
                rect,
                lines: line_views(lines@),
                style,
            },
            Draw::Row { x, y, line, width, until } => DrawV::Row {
                x,
                y,
                line: line@,
                width,
                until,
            },
        }
    }
}

/// The steps of `v` as shown.
pub open spec fn draws(v: Seq<Draw>) -> Seq<DrawV> {
    Seq::new(v.len(), |i: int| v[i]@)
}

/// Adds a step at the end.
pub fn emit(v: &mut Vec<Draw>, d: Draw)
    ensures
        draws(final(v)@) == draws(old(v)@).push(d@),
{
    v.push(d);
    proof {
        assert(draws(v@) =~= draws(old(v)@).push(d@));
    }
}

/// Adds text in one style.
pub fn emitText(v: &mut Vec<Draw>, x: u16, y: u16, s: &str, style: Style, width: u16)
    ensures
        draws(final(v)@) == draws(old(v)@).push(
            DrawV::Text { x, y, text: sv(s@, style), width },
        ),
{
    emit(v, Draw::Text { x, y, text: span(s, style), width });
}

/// The steps that fill row `y` of `width` cells from `x` on with `c`, cell by cell.
pub open spec fn fill_row(x: int, y: u16, width: int, c: Seq<char>, style: Style) -> Seq<DrawV> {
    Seq::new(
        width as nat,
        |i: int| DrawV::Text { x: (x + i) as u16, y, text: sv(c, style), width: 1 },
    )
}

/// Adds the steps that fill a row.
pub fn emitRow(v: &mut Vec<Draw>, x: u16, y: u16, width: u16, c: &str, style: Style)
    requires
        x + width <= u16::MAX,
    ensures
        draws(final(v)@) == draws(old(v)@) + fill_row(x as int, y, width as int, c@, style),
{
    let mut i: u16 = 0;
    proof {
        assert(draws(v@) =~= draws(old(v)@) + fill_row(x as int, y, 0, c@, style));
    }
    while i < width
        invariant
            i <= width,
            x + width <= u16::MAX,
            draws(v@) == draws(old(v)@) + fill_row(x as int, y, i as int, c@, style),
        decreases width - i,
    {
        emitText(v, x + i, y, c, style, 1);
        i = i + 1;
        proof {
            assert(draws(v@) =~= draws(old(v)@) + fill_row(x as int, y, i as int, c@, style));
        }
    }
}

/// One row of text in one style, over `width` cells from `x`, `y` on.
pub open spec fn row_of(x: u16, y: u16, width: u16, s: Seq<char>, style: Style) -> DrawV {
    DrawV::Para {
        rect: Rect { x, y, width, height: 1 },
        lines: seq![seq![sv(s, Style::plain())]],
        style,
    }
}

/// Adds one row of text.
pub fn emitLine(v: &mut Vec<Draw>, x: u16, y: u16, width: u16, s: &str, style: Style)
    ensures
        draws(final(v)@) == draws(old(v)@).push(row_of(x, y, width, s@, style)),
{
    let mut lines: Vec<Line> = Vec::new();
    addLine(&mut lines, lineOf(span(s, Style::plain())));
    proof {
        assert(line_views(lines@) =~= seq![seq![sv(s@, Style::plain())]]);
    }
    emit(v, Draw::Para { rect: Rect { x, y, width, height: 1 }, lines, style });
}

} // verus!
