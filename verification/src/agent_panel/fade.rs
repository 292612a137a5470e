//! The character that fades in at the end of a streamed message.

use vstd::prelude::*;
use vstd::string::*;
use crate::agent_panel::rows::{Page, PageV, Row, RowV};
use crate::draw::{Color, Line, SpanV, Style, copyLine, min, spanOf, span_views, sv};
use crate::text::{charsOf, isWhite, is_white, texts};
use crate::unicode::{clusters, clustersOf, concat};

verus! {

/// The red, green and blue of a color, where it has them.
pub open spec fn channels(c: Color) -> Option<(u8, u8, u8)> {
    match c {
        Color::Rgb(r, g, b) => Some((r, g, b)),
        Color::White => Some((255, 255, 255)),
        Color::Reset => Some((200, 200, 200)),
        Color::Gray => Some((128, 128, 128)),
        Color::DarkGray => Some((80, 80, 80)),
        Color::Red => Some((255, 0, 0)),
        Color::Green => Some((0, 255, 0)),
        Color::Yellow => Some((255, 255, 0)),
        Color::Blue => Some((0, 0, 255)),
        Color::Magenta => Some((255, 0, 255)),
        Color::Cyan => Some((0, 255, 255)),
        _ => None,
    }
}

fn channelsOf(c: Color) -> (r: Option<(u8, u8, u8)>)
    ensures
        r == channels(c),
{
    match c {
        Color::Rgb(r, g, b) => Some((r, g, b)),
        Color::White => Some((255, 255, 255)),
        Color::Reset => Some((200, 200, 200)),
        Color::Gray => Some((128, 128, 128)),
        Color::DarkGray => Some((80, 80, 80)),
        Color::Red => Some((255, 0, 0)),
        Color::Green => Some((0, 255, 0)),
        Color::Yellow => Some((255, 255, 0)),
        Color::Blue => Some((0, 0, 255)),
        Color::Magenta => Some((255, 0, 255)),
        Color::Cyan => Some((0, 255, 255)),
        _ => None,
    }
}

/// A channel between dark (25) and its own value, `progress` millionths of the
/// way. Past its own value it goes on as far as a channel goes.
pub open spec fn blend(c: u8, progress: int) -> int {
    let n = 25_000_000 + (c - 25) * progress;
    if n < 0 {
        0
    } else {
        min(n / 1_000_000, 255)
    }
}

fn blended(c: u8, progress: u32) -> (r: u8)
    ensures
        r == blend(c, progress as int),
{
    proof {
        assert(-25 * 0xFFFF_FFFF <= (c - 25) * progress <= 230 * 0xFFFF_FFFF) by (nonlinear_arith)
            requires
                0 <= c <= 255,
                0 <= progress <= 0xFFFF_FFFF,
        ;
    }
    let n: i64 = 25_000_000 + (c as i64 - 25) * progress as i64;
    if n < 0 {
        return 0;
    }
    let whole: u64 = n as u64 / 1_000_000;
    if whole > 255 {
        255
    } else {
        whole as u8
    }
}

/// A color on its way from dark to what it is. A color without channels stays.
pub open spec fn fade_color(c: Color, progress: int) -> Color {
    match channels(c) {
        Some(t) => Color::Rgb(
            blend(t.0, progress) as u8,
            blend(t.1, progress) as u8,
            blend(t.2, progress) as u8,
        ),
        None => c,
    }
}

/// A color on its way from dark to what it is.
pub fn fadeColor(c: Color, progress: u32) -> (r: Color)
    ensures
        r == fade_color(c, progress as int),
{
    match channelsOf(c) {
        Some((r, g, b)) => Color::Rgb(
            blended(r, progress),
            blended(g, progress),
            blended(b, progress),
        ),
        None => c,
    }
}

/// Whether a text shows anything.
pub open spec fn has_ink(s: Seq<char>) -> bool {
    exists|i: int| 0 <= i < s.len() && !is_white(#[trigger] s[i])
}

fn hasInk(s: &str) -> (r: bool)
    ensures
        r == has_ink(s@),
{
    let v = charsOf(s);
    let mut i: usize = 0;
    while i < v.len()
        invariant
            i <= v@.len(),
            v@ == s@,
            forall|j: int| 0 <= j < i ==> is_white(#[trigger] s@[j]),
        decreases v@.len() - i,
    {
        if !isWhite(v[i]) {
            proof {
                assert(!is_white(s@[i as int]));
            }
            return true;
        }
        i = i + 1;
    }
    false
}

/// The last span that shows anything, of the first `n`.
pub open spec fn last_inked(l: Seq<SpanV>, n: int) -> Option<int>
    decreases n,
{
    if n <= 0 {
        None
    } else if has_ink(l[n - 1].text) {
        Some(n - 1)
    } else {
        last_inked(l, n - 1)
    }
}

fn lastInked(l: &Line) -> (r: Option<usize>)
    ensures
        match r {
            Some(k) => k < l@.len() && last_inked(l@, l@.len() as int) == Some(k as int)
                && has_ink(l@[k as int].text),
            None => last_inked(l@, l@.len() as int) is None,
        },
{
    let mut n: usize = l.spans.len();
    while n > 0
        invariant
            n <= l.spans@.len(),
            last_inked(l@, l@.len() as int) == last_inked(l@, n as int),
        decreases n,
    {
        proof {
            assert(l@[n - 1] == l.spans@[n - 1]@);
        }
        if hasInk(l.spans[n - 1].text.as_str()) {
            return Some(n - 1);
        }
        n = n - 1;
    }
    None
}

/// The row that shows something and stands last among the rows `from` to `n`.
pub open spec fn inked_row(rows: Seq<RowV>, from: int, n: int) -> Option<int>
    decreases n,
{
    if n <= from || n <= 0 {
        None
    } else if last_inked(rows[n - 1].line, rows[n - 1].line.len() as int) is Some {
        Some(n - 1)
    } else {
        inked_row(rows, from, n - 1)
    }
}

/// The style of a character on its way from dark.
pub open spec fn faded_style(s: Style, progress: int) -> Style {
    Style {
        fg: Some(
            fade_color(
                match s.fg {
                    Some(c) => c,
                    None => Color::White,
                },
                progress,
            ),
        ),
        ..s
    }
}

/// The line with the last cluster of the span `k` faded.
pub open spec fn faded_line(l: Seq<SpanV>, k: int, progress: int) -> Seq<SpanV> {
    let c = clusters(l[k].text);
    let st = faded_style(l[k].style, progress);
    if c.len() == 0 {
        l
    } else if c.len() == 1 {
        l.update(k, sv(c.last(), st))
    } else {
        l.update(k, sv(concat(c.drop_last()), l[k].style)).insert(k + 1, sv(c.last(), st))
    }
}

/// The rows with the last character behind `from` faded.
pub open spec fn faded_rows(rows: Seq<RowV>, from: int, progress: int) -> Seq<RowV> {
    match inked_row(rows, from, rows.len() as int) {
        None => rows,
        Some(i) => {
            let l = rows[i].line;
            let k = last_inked(l, l.len() as int)->0;
            rows.update(i, RowV { line: faded_line(l, k, progress), ..rows[i] })
        },
    }
}

fn fadeLine(l: &Line, k: usize, progress: u32) -> (r: Line)
    requires
        k < l@.len(),
    ensures
        r@ == faded_line(l@, k as int, progress as int),
{
    proof {
        assert(l@[k as int] == l.spans@[k as int]@);
    }
    let style = l.spans[k].style;
    let fg = match style.fg {
        Some(c) => c,
        None => Color::White,
    };
    let faded = Style { fg: Some(fadeColor(fg, progress)), ..style };
    let parts = clustersOf(l.spans[k].text.as_str());
    let ghost c = clusters(l@[k as int].text);
    let mut copy = copyLine(l);
    let n: usize = parts.len();
    proof {
        assert(c.len() == n);
        assert(span_views(copy.spans@) =~= l@);
    }
    if n == 0 {
        return copy;
    }
    let last = parts[n - 1].clone();
    proof {
        assert(c.last() == parts@[n - 1]@);
    }
    if n == 1 {
        copy.spans.set(k, spanOf(last, faded));
        proof {
            assert(copy@ =~= faded_line(l@, k as int, progress as int));
        }
        return copy;
    }
    let mut head = String::new();
    let mut i: usize = 0;
    proof {
        assert(head@ =~= concat(c.take(0)));
    }
    while i < n - 1
        invariant
            i < n,
            n == parts@.len(),
            c == texts(parts@),
            head@ == concat(c.take(i as int)),
        decreases n - i,
    {
        proof {
            assert(c.take(i + 1).drop_last() =~= c.take(i as int));
            assert(c.take(i + 1).last() == parts@[i as int]@);
        }
        head.append(parts[i].as_str());
        i = i + 1;
    }
    proof {
        assert(c.take(n - 1) =~= c.drop_last());
    }
    copy.spans.set(k, spanOf(head, style));
    let ghost mid = copy.spans@;
    let count: usize = copy.spans.len();
    proof {
        assert(k < count);
    }
    copy.spans.insert(k + 1, spanOf(last, faded));
    proof {
        assert(span_views(mid) =~= l@.update(k as int, sv(concat(c.drop_last()), style)));
        assert(copy@ =~= faded_line(l@, k as int, progress as int));
    }
    copy
}

/// Fades the last character that is shown behind the row `from`.
pub fn applyFadeToLastChar(page: &mut Page, from: usize, progress: u32)
    ensures
        final(page)@ == (PageV {
            rows: faded_rows(old(page)@.rows, from as int, progress as int),
            ..old(page)@
        }),
{
    let ghost rows = page@.rows;
    let mut n: usize = page.rows.len();
    while n > from
        invariant
            n <= page.rows@.len(),
            *page == *old(page),
            rows == page@.rows,
            inked_row(rows, from as int, rows.len() as int) == inked_row(
                rows,
                from as int,
                n as int,
            ),
        decreases n,
    {
        proof {
            assert(rows[n - 1] == page.rows@[n - 1]@);
        }
        match lastInked(&page.rows[n - 1].line) {
            Some(k) => {
                let line = fadeLine(&page.rows[n - 1].line, k, progress);
                let cont = page.rows[n - 1].cont;
                page.rows.set(n - 1, Row { line, cont });
                proof {
                    assert(page@.rows =~= faded_rows(rows, from as int, progress as int));
                }
                return;
            },
            None => {},
        }
        n = n - 1;
    }
}

} // verus!
