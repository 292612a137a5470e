//! The status bar: chips on the right that can be focused and opened.

use vstd::prelude::*;
use vstd::string::*;
use crate::draw::{
    Color, Draw, DrawV, Line, Rect, Span, SpanV, Style, addSpan, copySpan, line_views, min, minus,
    span, spanOf, span_views, sv,
};
use crate::share::{wholeShare, whole_share};
use crate::text::{dec, decimal, repeatChar, repeated};

verus! {

/// A chip of the status bar that opens something.
#[derive(Clone, Copy, Debug, PartialEq, Eq, Structural)]
pub enum StatusChipKind {
    Jobs,
    Cost,
    Context,
}

/// Where a chip stands: its columns from `xs` up to `xe`, in row `y`.
#[derive(Clone, Copy, Debug, PartialEq, Eq, Structural)]
pub struct ChipSpot {
    pub kind: StatusChipKind,
    pub xs: u16,
    pub xe: u16,
    pub y: u16,
}

// ---- texts ----

/// How full the context is, in percent. Nothing where nothing is used yet.
pub open spec fn context_pct(tokens: int, window: int) -> Seq<char> {
    if tokens <= 0 || window <= 0 {
        Seq::empty()
    } else {
        "ctx "@ + dec(whole_share(tokens, window, 100) as nat) + "%"@
    }
}

/// How full the context is, in percent.
pub fn formatContextPct(tokens: usize, window: usize) -> (r: String)
    ensures
        r@ == context_pct(tokens as int, window as int),
{
    if tokens == 0 || window == 0 {
        return String::new();
    }
    let mut s = String::from_str("ctx ");
    s.append(decimal(wholeShare(tokens as u64, window as u64, 100)).as_str());
    s.append("%");
    s
}

/// The glyph that tells how long ago the cache was hit last; none where caching is
/// off.
pub open spec fn cache_span(enabled: bool, lastHit: Option<u64>, now: u64, bg: Color) -> Option<
    SpanV,
> {
    if !enabled {
        None
    } else {
        match lastHit {
            Some(t) => {
                let secs = minus(now as int, t as int) / 1000;
                let hot = "\u{2668}\u{FE0E}"@;
                Some(
                    if secs < 60 {
                        sv(hot, Style::plain().bg(bg).fg(Color::Red))
                    } else if secs < 180 {
                        sv(hot, Style::plain().bg(bg).fg(Color::LightRed))
                    } else if secs < 300 {
                        sv(hot, Style::plain().bg(bg).fg(Color::Yellow).dim())
                    } else {
                        sv("\u{2744}\u{FE0E}"@, Style::plain().bg(bg).fg(Color::Cyan))
                    },
                )
            },
            None => Some(sv("\u{25CB}"@, Style::plain().bg(bg).fg(Color::Cyan))),
        }
    }
}

/// The glyph that tells how long ago the cache was hit last.
pub fn cacheHeatSpans(enabled: bool, lastHit: Option<u64>, now: u64, bg: Color) -> (r: Option<Span>)
    ensures
        match r {
            Some(s) => cache_span(enabled, lastHit, now, bg) == Some(s@),
            None => cache_span(enabled, lastHit, now, bg) is None,
        },
{
    if !enabled {
        return None;
    }
    match lastHit {
        Some(t) => {
            let secs: u64 = now.saturating_sub(t) / 1000;
            let base = Style::plain().bg(bg);
            if secs < 60 {
                Some(span("\u{2668}\u{FE0E}", base.fg(Color::Red)))
            } else if secs < 180 {
                Some(span("\u{2668}\u{FE0E}", base.fg(Color::LightRed)))
            } else if secs < 300 {
                Some(span("\u{2668}\u{FE0E}", base.fg(Color::Yellow).dim()))
            } else {
                Some(span("\u{2744}\u{FE0E}", base.fg(Color::Cyan)))
            }
        },
        None => Some(span("\u{25CB}", Style::plain().bg(bg).fg(Color::Cyan))),
    }
}

// ---- what the bar shows ----

/// What the status bar shows. `cost` is the cost of the session as it is written,
/// nothing where there is none yet.
#[derive(Debug)]
pub struct StatusInput {
    pub running: usize,
    /// There is background activity besides running tasks.
    pub background: bool,
    pub cost: String,
    pub tokens: usize,
    pub window: usize,
    pub caching: bool,
    pub cacheHitAt: Option<u64>,
    /// The hint that a second press quits is shown instead.
    pub quitHint: bool,
}

/// A chip and its text.
pub ghost struct ChipV {
    pub kind: StatusChipKind,
    pub text: Seq<char>,
}

/// The chips from left to right.
pub open spec fn chips_of(s: StatusInput) -> Seq<ChipV> {
    let ctx = context_pct(s.tokens as int, s.window as int);
    (if s.running > 0 {
        seq![
            ChipV {
                kind: StatusChipKind::Jobs,
                text: "\u{25F4} "@ + dec(s.running as nat) + " task"@ + (if s.running == 1 {
                    ""@
                } else {
                    "s"@
                }),
            },
        ]
    } else if s.background {
        seq![ChipV { kind: StatusChipKind::Jobs, text: "\u{25F4} tasks"@ }]
    } else {
        Seq::empty()
    }) + (if s.cost@.len() > 0 {
        seq![ChipV { kind: StatusChipKind::Cost, text: s.cost@ }]
    } else {
        Seq::empty()
    }) + (if ctx.len() > 0 {
        seq![ChipV { kind: StatusChipKind::Context, text: ctx }]
    } else {
        Seq::empty()
    })
}

/// A chip and its text.
pub struct Chip {
    pub kind: StatusChipKind,
    pub text: String,
}

/// The chips of `v` as values.
pub open spec fn chip_views(v: Seq<Chip>) -> Seq<ChipV> {
    Seq::new(v.len(), |i: int| ChipV { kind: v[i].kind, text: v[i].text@ })
}

fn addChip(v: &mut Vec<Chip>, kind: StatusChipKind, text: String)
    ensures
        chip_views(final(v)@) == chip_views(old(v)@).push(ChipV { kind, text: text@ }),
{
    v.push(Chip { kind, text });
    proof {
        assert(chip_views(v@) =~= chip_views(old(v)@).push(ChipV { kind, text: text@ }));
    }
}

/// The chips from left to right.
pub fn chipsOf(s: &StatusInput) -> (r: Vec<Chip>)
    ensures
        chip_views(r@) == chips_of(*s),
{
    let mut v: Vec<Chip> = Vec::new();
    if s.running > 0 {
        let mut t = String::from_str("\u{25F4} ");
        t.append(decimal(s.running as u64).as_str());
        t.append(" task");
        if s.running == 1 {
            t.append("");
        } else {
            t.append("s");
        }
        addChip(&mut v, StatusChipKind::Jobs, t);
    } else if s.background {
        addChip(&mut v, StatusChipKind::Jobs, String::from_str("\u{25F4} tasks"));
    }
    if s.cost.as_str().unicode_len() > 0 {
        addChip(&mut v, StatusChipKind::Cost, s.cost.clone());
    }
    let ctx = formatContextPct(s.tokens, s.window);
    if ctx.as_str().unicode_len() > 0 {
        addChip(&mut v, StatusChipKind::Context, ctx);
    }
    proof {
        assert(chip_views(v@) =~= chips_of(*s));
    }
    v
}

/// The focused chip among `n`; focus past the last one moves to it.
pub open spec fn clamped_focus(focus: Option<usize>, n: int) -> Option<usize> {
    match focus {
        Some(i) => if n == 0 {
            None
        } else if i >= n {
            Some((n - 1) as usize)
        } else {
            Some(i)
        },
        None => None,
    }
}

/// The focused chip among `n`.
pub fn clampFocus(focus: Option<usize>, n: usize) -> (r: Option<usize>)
    ensures
        r == clamped_focus(focus, n as int),
{
    match focus {
        Some(i) => if n == 0 {
            None
        } else if i >= n {
            Some(n - 1)
        } else {
            Some(i)
        },
        None => None,
    }
}

/// The column of the chip `i`, counted from the first: two spaces stand between
/// two chips.
pub open spec fn chip_offset(c: Seq<ChipV>, i: int) -> int
    decreases i,
{
    if i <= 0 {
        0
    } else {
        chip_offset(c, i - 1) + c[i - 1].text.len() + 2
    }
}

/// The columns of the first `n` chips with what stands between them.
pub open spec fn chips_width(c: Seq<ChipV>, n: int) -> int {
    if n <= 0 {
        0
    } else {
        chip_offset(c, n - 1) + c[n - 1].text.len()
    }
}

/// The span of a chip; the focused one is shown in reverse.
pub open spec fn chip_span(c: ChipV, on: bool, bg: Color, fg: Color) -> SpanV {
    if on {
        sv(c.text, Style::plain().bg(fg).fg(bg).bold())
    } else {
        sv(c.text, Style::plain())
    }
}

/// The spans of the first `n` chips.
pub open spec fn chip_spans(
    c: Seq<ChipV>,
    n: int,
    focus: Option<usize>,
    bg: Color,
    fg: Color,
) -> Seq<SpanV>
    decreases n,
{
    if n <= 0 {
        Seq::empty()
    } else {
        let r = chip_spans(c, n - 1, focus, bg, fg);
        (if n > 1 {
            r.push(sv("  "@, Style::plain()))
        } else {
            r
        }).push(chip_span(c[n - 1], focus == Some((n - 1) as usize), bg, fg))
    }
}

/// The columns of the right side: the chips, and the cache with the word behind
/// its glyph.
pub open spec fn right_width(c: Seq<ChipV>, cache: Option<SpanV>) -> int {
    chips_width(c, c.len() as int) + (match cache {
        Some(s) => (if c.len() > 0 {
            2int
        } else {
            0int
        }) + s.text.len() + 6,
        None => 0,
    })
}

/// The spans of the right side.
pub open spec fn right_spans(
    c: Seq<ChipV>,
    focus: Option<usize>,
    cache: Option<SpanV>,
    bg: Color,
    fg: Color,
) -> Seq<SpanV> {
    chip_spans(c, c.len() as int, focus, bg, fg) + (match cache {
        Some(s) => (if c.len() > 0 {
            seq![sv("  "@, Style::plain())]
        } else {
            Seq::empty()
        }) + seq![s, sv(" cache"@, Style::plain())],
        None => Seq::empty(),
    })
}

/// The hint that a second press quits.
pub open spec fn quit_hint() -> Seq<char> {
    " \u{25B8} press Ctrl+Q again to quit"@
}

/// The colors of the bar, behind the text and of it.
pub open spec fn bar_colors(quitHint: bool) -> (Color, Color) {
    if quitHint {
        (Color::Yellow, Color::Black)
    } else {
        (Color::DarkGray, Color::White)
    }
}

/// The spans of the bar.
pub open spec fn bar_spans(s: StatusInput, focus: Option<usize>, width: int, now: u64) -> Seq<SpanV> {
    if s.quitHint {
        seq![
            sv(quit_hint(), Style::plain()),
            sv(repeated(' ', minus(width, quit_hint().len() as int)), Style::plain()),
        ]
    } else {
        let (bg, fg) = bar_colors(false);
        let c = chips_of(s);
        let cache = cache_span(s.caching, s.cacheHitAt, now, bg);
        seq![
            sv(repeated(' ', minus(width, right_width(c, cache) + 1)), Style::plain()),
        ] + right_spans(c, clamped_focus(focus, c.len() as int), cache, bg, fg) + seq![
            sv(" "@, Style::plain()),
        ]
    }
}

/// The bar.
pub open spec fn bar_draw(s: StatusInput, focus: Option<usize>, area: Rect, now: u64) -> DrawV {
    let (bg, fg) = bar_colors(s.quitHint);
    DrawV::Para {
        rect: area,
        lines: seq![bar_spans(s, focus, area.width as int, now)],
        style: Style::plain().bg(bg).fg(fg),
    }
}

/// A column, as far as columns are counted.
pub open spec fn column(n: int) -> u16 {
    min(n, u16::MAX as int) as u16
}

/// Where the chips stand.
pub open spec fn chip_spots(s: StatusInput, area: Rect, now: u64) -> Seq<ChipSpot> {
    if s.quitHint {
        Seq::empty()
    } else {
        let (bg, fg) = bar_colors(false);
        let c = chips_of(s);
        let left = area.x + minus(
            area.width as int,
            right_width(c, cache_span(s.caching, s.cacheHitAt, now, bg)) + 1,
        );
        Seq::new(
            c.len(),
            |i: int|
                ChipSpot {
                    kind: c[i].kind,
                    xs: column(left + chip_offset(c, i)),
                    xe: column(left + chip_offset(c, i) + c[i].text.len()),
                    y: area.y,
                },
        )
    }
}

/// The drawn bar, where its chips stand, and the focused chip.
pub struct DrawnBar {
    pub draw: Draw,
    pub spots: Vec<ChipSpot>,
    pub focus: Option<usize>,
}

proof fn lemma_offsets(c: Seq<ChipV>, i: int)
    requires
        0 <= i <= c.len(),
    ensures
        chip_offset(c, i) >= 0,
    decreases i,
{
    if i > 0 {
        lemma_offsets(c, i - 1);
    }
}

/// Draws the status bar.
#[verifier::rlimit(80)]
#[verifier::spinoff_prover]
pub fn renderStatusBar(s: &StatusInput, focus: Option<usize>, area: Rect, now: u64) -> (r: DrawnBar)
    requires
        area.wf(),
    ensures
        r.draw@ == bar_draw(*s, focus, area, now),
        r.spots@ == chip_spots(*s, area, now),
        r.focus == (if s.quitHint {
            focus
        } else {
            clamped_focus(focus, chips_of(*s).len() as int)
        }),
{
    let mut spans: Vec<Span> = Vec::new();
    let mut spots: Vec<ChipSpot> = Vec::new();
    if s.quitHint {
        let hint = span(" \u{25B8} press Ctrl+Q again to quit", Style::plain());
        let n: usize = hint.text.as_str().unicode_len();
        spans.push(hint);
        spans.push(
            spanOf(repeatChar(' ', (area.width as usize).saturating_sub(n)), Style::plain()),
        );
        proof {
            assert(span_views(spans@) =~= bar_spans(*s, focus, area.width as int, now));
            assert(spots@ =~= chip_spots(*s, area, now));
        }
        let line = Line { spans };
        let mut lines: Vec<Line> = Vec::new();
        lines.push(line);
        proof {
            assert(line_views(lines@) =~= seq![line@]);
        }
        return DrawnBar {
            draw: Draw::Para {
                rect: area,
                lines,
                style: Style::plain().bg(Color::Yellow).fg(Color::Black),
            },
            spots,
            focus,
        };
    }
    let bg = Color::DarkGray;
    let fg = Color::White;
    let chips = chipsOf(s);
    let ghost c = chips_of(*s);
    let n: usize = chips.len();
    proof {
        assert(c.len() == n);
        assert(n <= 3);
    }
    let on: Option<usize> = clampFocus(focus, n);
    let cache = cacheHeatSpans(s.caching, s.cacheHitAt, now, bg);
    let ghost cv = cache_span(s.caching, s.cacheHitAt, now, bg);
    let mut right: Vec<Span> = Vec::new();
    let mut offsets: Vec<u128> = Vec::new();
    let mut used: u128 = 0;
    let mut i: usize = 0;
    proof {
        assert(span_views(right@) =~= chip_spans(c, 0, on, bg, fg));
    }
    while i < n
        invariant
            i <= n <= 3,
            n == chips@.len(),
            c == chip_views(chips@),
            offsets@.len() == i,
            used <= i * 0x2_0000_0000_0000_0000,
            used == chips_width(c, i as int),
            forall|k: int|
                0 <= k < i ==> #[trigger] offsets@[k] <= 0x8_0000_0000_0000_0000 && offsets@[k]
                    == chip_offset(c, k),
            span_views(right@) == chip_spans(c, i as int, on, bg, fg),
        decreases n - i,
    {
        proof {
            assert(c[i as int].text == chips@[i as int].text@);
            lemma_offsets(c, i as int);
        }
        if i > 0 {
            addSpan(&mut right, span("  ", Style::plain()));
            used = used + 2;
        }
        let len: usize = chips[i].text.as_str().unicode_len();
        let wide: u128 = len as u128;
        let style = if on == Some(i) {
            Style::plain().bg(fg).fg(bg).bold()
        } else {
            Style::plain()
        };
        addSpan(&mut right, span(chips[i].text.as_str(), style));
        offsets.push(used);
        used = used + wide;
        i = i + 1;
    }
    proof {
        lemma_offsets(c, n as int);
    }
    match &cache {
        Some(g) => {
            if n > 0 {
                addSpan(&mut right, span("  ", Style::plain()));
                used = used + 2;
            }
            let len: usize = g.text.as_str().unicode_len();
            let wide: u128 = len as u128;
            addSpan(&mut right, copySpan(g));
            addSpan(&mut right, span(" cache", Style::plain()));
            used = used + wide + 6;
        },
        None => {},
    }
    proof {
        assert(span_views(right@) =~= right_spans(c, on, cv, bg, fg));
    }
    let pad: u128 = (area.width as u128).saturating_sub(used + 1);
    proof {
        assert(pad == minus(area.width as int, right_width(c, cv) + 1));
    }
    addSpan(&mut spans, spanOf(repeatChar(' ', pad as usize), Style::plain()));
    let mut j: usize = 0;
    let ghost lead = span_views(spans@);
    let ghost rv = span_views(right@);
    proof {
        assert(span_views(spans@) =~= lead + rv.take(0));
    }
    while j < right.len()
        invariant
            j <= right@.len(),
            rv == span_views(right@),
            span_views(spans@) == lead + rv.take(j as int),
        decreases right@.len() - j,
    {
        addSpan(&mut spans, copySpan(&right[j]));
        proof {
            assert(rv[j as int] == right@[j as int]@);
            assert(span_views(spans@) =~= lead + rv.take(j + 1));
        }
        j = j + 1;
    }
    addSpan(&mut spans, span(" ", Style::plain()));
    proof {
        assert(rv.take(rv.len() as int) =~= rv);
        assert(span_views(spans@) =~= bar_spans(*s, focus, area.width as int, now));
    }
    let left: u128 = area.x as u128 + pad;
    let mut k: usize = 0;
    let ghost all = chip_spots(*s, area, now);
    proof {
        assert(spots@ =~= all.take(0));
    }
    while k < n
        invariant
            k <= n <= 3,
            n == chips@.len(),
            n == offsets@.len(),
            c == chip_views(chips@),
            c == chips_of(*s),
            all == chip_spots(*s, area, now),
            !s.quitHint,
            bg == Color::DarkGray,
            cv == cache_span(s.caching, s.cacheHitAt, now, bg),
            left == area.x + minus(area.width as int, right_width(c, cv) + 1),
            left <= 131_070,
            forall|q: int|
                0 <= q < n ==> #[trigger] offsets@[q] <= 0x8_0000_0000_0000_0000 && offsets@[q]
                    == chip_offset(c, q),
            spots@ == all.take(k as int),
        decreases n - k,
    {
        proof {
            assert(c[k as int].text == chips@[k as int].text@);
            lemma_offsets(c, k as int);
        }
        let len: usize = chips[k].text.as_str().unicode_len();
        let wide: u128 = len as u128;
        let xs: u128 = left + offsets[k];
        let xe: u128 = xs + wide;
        let a: u16 = if xs > 65535 {
            65535
        } else {
            xs as u16
        };
        let b: u16 = if xe > 65535 {
            65535
        } else {
            xe as u16
        };
        spots.push(ChipSpot { kind: chips[k].kind, xs: a, xe: b, y: area.y });
        proof {
            assert(spots@ =~= all.take(k + 1));
        }
        k = k + 1;
    }
    proof {
        assert(all.take(n as int) =~= all);
    }
    let line = Line { spans };
    let mut lines: Vec<Line> = Vec::new();
    lines.push(line);
    proof {
        assert(line_views(lines@) =~= seq![line@]);
    }
    DrawnBar {
        draw: Draw::Para { rect: area, lines, style: Style::plain().bg(bg).fg(fg) },
        spots,
        focus: on,
    }
}

// ---- hit tests ----

/// The chip at a place of the screen, and its number.
pub open spec fn chip_at(c: Seq<ChipSpot>, x: u16, y: u16, i: int) -> Option<int>
    decreases c.len() - i,
{
    if i >= c.len() {
        None
    } else if y == c[i].y && c[i].xs <= x < c[i].xe {
        Some(i)
    } else {
        chip_at(c, x, y, i + 1)
    }
}

/// The chip at a place of the screen, and its number.
pub fn chipHitTest(x: u16, y: u16, c: &Vec<ChipSpot>) -> (r: Option<(StatusChipKind, usize)>)
    ensures
        match r {
            Some(h) => h.1 < c@.len() && chip_at(c@, x, y, 0) == Some(h.1 as int) && h.0
                == c@[h.1 as int].kind,
            None => chip_at(c@, x, y, 0) is None,
        },
{
    let mut i: usize = 0;
    while i < c.len()
        invariant
            i <= c@.len(),
            chip_at(c@, x, y, 0) == chip_at(c@, x, y, i as int),
        decreases c@.len() - i,
    {
        if y == c[i].y && x >= c[i].xs && x < c[i].xe {
            return Some((c[i].kind, i));
        }
        i = i + 1;
    }
    None
}

} // verus!
