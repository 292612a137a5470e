//! Wrapping and cutting styled text by display columns.
//!
//! Text is handled in atoms: grapheme clusters with their style and width, so
//! that emoji sequences stay whole and are measured as the terminal draws them.

use vstd::prelude::*;
use vstd::string::*;
use crate::draw::{Line, Span, SpanV, Style, addLine, addSpan, line_views, minus, spanOf, span_views, sv};
use crate::text::{charsOf, isCtrl, is_ctrl, strEq, texts, trimEnd, trim_end};
use crate::unicode::{clusters, clustersOf, columns, columnsOf, widthOf, width_of};

verus! {

/// A grapheme cluster in a style, with its width in columns.
#[derive(Clone, Debug)]
pub struct Atom {
    pub text: String,
    pub style: Style,
    pub width: usize,
}

/// An atom as a value.
pub ghost struct AtomV {
    pub text: Seq<char>,
    pub style: Style,
    pub width: nat,
}

impl View for Atom {
    type V = AtomV;

    open spec fn view(&self) -> AtomV {
        AtomV { text: self.text@, style: self.style, width: self.width as nat }
    }
}

/// The atoms of `v` as values.
pub open spec fn atom_views(v: Seq<Atom>) -> Seq<AtomV> {
    Seq::new(v.len(), |i: int| v[i]@)
}

/// The atoms of a text in one style.
pub open spec fn text_atoms(s: Seq<char>, style: Style) -> Seq<AtomV> {
    let c = clusters(s);
    Seq::new(c.len(), |i: int| AtomV { text: c[i], style, width: columns(c[i]) })
}

/// The atoms of a line.
pub open spec fn line_atoms(l: Seq<SpanV>) -> Seq<AtomV>
    decreases l.len(),
{
    if l.len() == 0 {
        Seq::empty()
    } else {
        line_atoms(l.drop_last()) + text_atoms(l.last().text, l.last().style)
    }
}

/// The width of the atoms `a[from..to]`.
pub open spec fn width_between(a: Seq<AtomV>, from: int, to: int) -> nat
    decreases to - from,
{
    if to <= from {
        0
    } else {
        width_between(a, from, to - 1) + a[to - 1].width
    }
}

/// The text of the atoms.
pub open spec fn atoms_text(a: Seq<AtomV>) -> Seq<char>
    decreases a.len(),
{
    if a.len() == 0 {
        Seq::empty()
    } else {
        atoms_text(a.drop_last()) + a.last().text
    }
}

/// The line made of atoms: neighbours in the same style share a span.
pub open spec fn joined_atoms(a: Seq<AtomV>) -> Seq<SpanV>
    decreases a.len(),
{
    if a.len() == 0 {
        Seq::empty()
    } else {
        let r = joined_atoms(a.drop_last());
        if r.len() > 0 && r.last().style == a.last().style {
            r.drop_last().push(sv(r.last().text + a.last().text, a.last().style))
        } else {
            r.push(sv(a.last().text, a.last().style))
        }
    }
}

// ---- where lines break ----

/// The first atom from `i` on at which a line that begins at `s` becomes wider
/// than `limit`, or the number of atoms.
pub open spec fn overflow_at(a: Seq<AtomV>, s: int, i: int, limit: int) -> int
    decreases a.len() - i,
{
    if i >= a.len() {
        a.len() as int
    } else if width_between(a, s, i + 1) > limit {
        i
    } else {
        overflow_at(a, s, i + 1, limit)
    }
}

/// The last space after atom `s`, up to and with atom `i`; `s` where there is none.
pub open spec fn last_space(a: Seq<AtomV>, s: int, i: int) -> int
    decreases i - s,
{
    if i <= s {
        s
    } else if a[i].text == " "@ {
        i
    } else {
        last_space(a, s, i - 1)
    }
}

/// The lines into which the atoms from `s` on are broken, as ranges of atoms.
///
/// A line takes as many atoms as fit, at least one. It is broken at the last
/// space in or right behind it, which belongs to neither line, or else in the
/// middle of the word.
pub open spec fn breaks(a: Seq<AtomV>, s: int, limit: int) -> Seq<(int, int)>
    decreases a.len() - s,
{
    if s >= a.len() {
        Seq::empty()
    } else {
        let i = overflow_at(a, s, s + 1, limit);
        let k = last_space(a, s, i);
        if i >= a.len() {
            seq![(s, a.len() as int)]
        } else if s < k <= i {
            seq![(s, k)] + breaks(a, k + 1, limit)
        } else if s < i {
            seq![(s, i)] + breaks(a, i, limit)
        } else {
            Seq::empty()
        }
    }
}

/// The lines of wrapped atoms.
pub open spec fn wrap_atoms(a: Seq<AtomV>, limit: int) -> Seq<Seq<SpanV>> {
    let b = breaks(a, 0, limit);
    Seq::new(b.len(), |i: int| joined_atoms(a.subrange(b[i].0, b[i].1)))
}

/// A line wrapped to `limit` columns. A limit of 0 wraps nothing, and a line
/// that fits stays as it is.
pub open spec fn wrap_line(l: Seq<SpanV>, limit: int) -> Seq<Seq<SpanV>> {
    let a = line_atoms(l);
    if limit == 0 || width_between(a, 0, a.len() as int) <= limit {
        seq![l]
    } else {
        wrap_atoms(a, limit)
    }
}

pub proof fn lemma_overflow(a: Seq<AtomV>, s: int, i: int, limit: int)
    requires
        0 <= i <= a.len(),
    ensures
        i <= overflow_at(a, s, i, limit) <= a.len(),
        forall|j: int| i <= j < overflow_at(a, s, i, limit) ==> #[trigger] width_between(a, s, j + 1) <= limit,
    decreases a.len() - i,
{
    if i < a.len() && width_between(a, s, i + 1) <= limit {
        lemma_overflow(a, s, i + 1, limit);
        assert forall|j: int| i <= j < overflow_at(a, s, i, limit) implies #[trigger] width_between(a, s, j + 1) <= limit by {
            if j > i {
                assert(width_between(a, s, j + 1) <= limit);
            }
        }
    }
}

pub proof fn lemma_last_space(a: Seq<AtomV>, s: int, i: int)
    requires
        s <= i,
    ensures
        s <= last_space(a, s, i) <= i,
        s < last_space(a, s, i) ==> a[last_space(a, s, i)].text == " "@,
        forall|j: int| last_space(a, s, i) < j <= i ==> (#[trigger] a[j]).text != " "@,
    decreases i - s,
{
    if s < i && a[i].text != " "@ {
        lemma_last_space(a, s, i - 1);
    }
}

/// The line made of the atoms `a[from..to]`.
pub fn styledGraphemesToLine(a: &Vec<Atom>, from: usize, to: usize) -> (r: Line)
    requires
        from <= to <= a@.len(),
    ensures
        r@ == joined_atoms(atom_views(a@).subrange(from as int, to as int)),
{
    let mut spans: Vec<Span> = Vec::new();
    let ghost av = atom_views(a@);
    let mut i: usize = from;
    proof {
        assert(span_views(spans@) =~= joined_atoms(av.subrange(from as int, from as int)));
    }
    while i < to
        invariant
            from <= i <= to <= a@.len(),
            av == atom_views(a@),
            span_views(spans@) == joined_atoms(av.subrange(from as int, i as int)),
        decreases to - i,
    {
        let ghost before = span_views(spans@);
        let ghost sub = av.subrange(from as int, i + 1);
        proof {
            assert(sub.drop_last() =~= av.subrange(from as int, i as int));
            assert(sub.last() == a@[i as int]@);
        }
        let n: usize = spans.len();
        if n > 0 && spans[n - 1].style == a[i].style {
            proof {
                assert(before.last() == spans@[n - 1]@);
            }
            let mut last = spans.pop().unwrap();
            let ghost old_text = last.text@;
            last.text.append(a[i].text.as_str());
            spans.push(last);
            proof {
                assert(span_views(spans@) =~= before.drop_last().push(last@));
                assert(span_views(spans@) =~= joined_atoms(sub));
            }
        } else {
            proof {
                if n > 0 {
                    assert(before.last() == spans@[n - 1]@);
                }
            }
            addSpan(&mut spans, spanOf(a[i].text.clone(), a[i].style));
            proof {
                assert(span_views(spans@) =~= joined_atoms(sub));
            }
        }
        i = i + 1;
    }
    Line { spans }
}

/// Wraps atoms to `limit` columns.
pub fn wrapAtoms(a: &Vec<Atom>, limit: usize) -> (r: Vec<Line>)
    ensures
        line_views(r@) == wrap_atoms(atom_views(a@), limit as int),
{
    let ghost av = atom_views(a@);
    let ghost all = breaks(av, 0, limit as int);
    let mut out: Vec<Line> = Vec::new();
    let mut s: usize = 0;
    let n: usize = a.len();
    let ghost mut done: Seq<(int, int)> = Seq::empty();
    proof {
        assert(done + breaks(av, 0, limit as int) =~= all);
    }
    while s < n
        invariant
            n == a@.len(),
            s <= n,
            av == atom_views(a@),
            all == breaks(av, 0, limit as int),
            done + breaks(av, s as int, limit as int) == all,
            line_views(out@) == Seq::new(
                done.len(),
                |i: int| joined_atoms(av.subrange(done[i].0, done[i].1)),
            ),
            forall|j: int| 0 <= j < done.len() ==> 0 <= (#[trigger] done[j]).0 <= done[j].1 <= n,
        decreases n - s,
    {
        // The first atom that does not fit.
        let mut i: usize = s + 1;
        let mut used: u128 = a[s].width as u128;
        proof {
            assert(width_between(av, s as int, s as int) == 0);
            assert(width_between(av, s as int, s + 1) == av[s as int].width);
        }
        let mut over = false;
        while i < n && !over
            invariant
                n == a@.len(),
                s < i <= n,
                av == atom_views(a@),
                over ==> i < n,
                over ==> width_between(av, s as int, i + 1) > limit,
                !over ==> used == width_between(av, s as int, i as int),
                !over ==> used <= (i - s) * 0xffff_ffff_ffff_ffff,
                overflow_at(av, s as int, s + 1, limit as int) == overflow_at(
                    av,
                    s as int,
                    i as int,
                    limit as int,
                ),
            decreases n - i, (if over { 0int } else { 1int }),
        {
            let w: u128 = a[i].width as u128;
            proof {
                assert(av[i as int].width == a@[i as int].width);
                assert((i - s) * 0xffff_ffff_ffff_ffff <= 0xffff_ffff_ffff_ffff
                    * 0xffff_ffff_ffff_ffff) by (nonlinear_arith)
                    requires
                        0 <= i - s <= 0xffff_ffff_ffff_ffff,
                ;
                assert((i + 1 - s) * 0xffff_ffff_ffff_ffff == (i - s) * 0xffff_ffff_ffff_ffff
                    + 0xffff_ffff_ffff_ffff) by (nonlinear_arith);
            }
            if used + w > limit as u128 {
                over = true;
            } else {
                used = used + w;
                i = i + 1;
            }
        }
        proof {
            lemma_overflow(av, s as int, s + 1, limit as int);
            assert(overflow_at(av, s as int, s + 1, limit as int) == i);
        }
        if !over {
            addLine(&mut out, styledGraphemesToLine(a, s, n));
            proof {
                let d = done.push((s as int, n as int));
                assert(done + breaks(av, s as int, limit as int) =~= d + breaks(
                    av,
                    n as int,
                    limit as int,
                ));
                assert(line_views(out@) =~= Seq::new(
                    d.len(),
                    |j: int| joined_atoms(av.subrange(d[j].0, d[j].1)),
                ));
                done = d;
            }
            s = n;
        } else {
            // The last space up to there.
            let mut k: usize = i;
            while k > s && !strEq(a[k].text.as_str(), " ")
                invariant
                    n == a@.len(),
                    s <= k <= i < n,
                    av == atom_views(a@),
                    last_space(av, s as int, i as int) == last_space(av, s as int, k as int),
                decreases k - s,
            {
                proof {
                    assert(av[k as int].text == a@[k as int].text@);
                }
                k = k - 1;
            }
            proof {
                if k > s {
                    assert(av[k as int].text == a@[k as int].text@);
                }
                assert(last_space(av, s as int, i as int) == k);
            }
            let end: usize = if k > s {
                k
            } else {
                i
            };
            let next: usize = if k > s {
                k + 1
            } else {
                i
            };
            addLine(&mut out, styledGraphemesToLine(a, s, end));
            proof {
                let d = done.push((s as int, end as int));
                assert(done + breaks(av, s as int, limit as int) =~= d + breaks(
                    av,
                    next as int,
                    limit as int,
                ));
                assert(line_views(out@) =~= Seq::new(
                    d.len(),
                    |j: int| joined_atoms(av.subrange(d[j].0, d[j].1)),
                ));
                done = d;
            }
            s = next;
        }
    }
    proof {
        assert(breaks(av, s as int, limit as int) =~= Seq::<(int, int)>::empty());
        assert(done =~= all);
        assert(line_views(out@) =~= wrap_atoms(av, limit as int));
    }
    out
}

/// The atoms of a text in one style.
pub fn atomsOf(s: &str, style: Style) -> (r: Vec<Atom>)
    ensures
        atom_views(r@) == text_atoms(s@, style),
{
    let parts = clustersOf(s);
    let ghost c = clusters(s@);
    let mut out: Vec<Atom> = Vec::new();
    let mut i: usize = 0;
    while i < parts.len()
        invariant
            i <= parts.len(),
            texts(parts@) == c,
            atom_views(out@) == text_atoms(s@, style).take(i as int),
            c == clusters(s@),
        decreases parts.len() - i,
    {
        let width: usize = columnsOf(parts[i].as_str());
        let ghost before = atom_views(out@);
        let a = Atom { text: parts[i].clone(), style, width };
        out.push(a);
        proof {
            assert(c[i as int] == parts@[i as int]@);
            assert(a@ == text_atoms(s@, style)[i as int]);
            assert(atom_views(out@) =~= before.push(a@));
            assert(atom_views(out@) =~= text_atoms(s@, style).take(i + 1));
        }
        i = i + 1;
    }
    proof {
        assert(atom_views(out@) =~= text_atoms(s@, style));
    }
    out
}

/// The atoms of a line.
pub fn atomsOfLine(l: &Line) -> (r: Vec<Atom>)
    ensures
        atom_views(r@) == line_atoms(l@),
{
    let mut out: Vec<Atom> = Vec::new();
    let mut i: usize = 0;
    proof {
        assert(atom_views(out@) =~= line_atoms(l@.take(0)));
    }
    while i < l.spans.len()
        invariant
            i <= l.spans.len(),
            atom_views(out@) == line_atoms(l@.take(i as int)),
        decreases l.spans.len() - i,
    {
        let mut more = atomsOf(l.spans[i].text.as_str(), l.spans[i].style);
        let ghost before = out@;
        let ghost add = more@;
        out.append(&mut more);
        proof {
            assert(atom_views(out@) =~= atom_views(before) + atom_views(add));
            assert(l@.take(i + 1).drop_last() =~= l@.take(i as int));
            assert(l@.take(i + 1).last() == l.spans@[i as int]@);
        }
        i = i + 1;
    }
    proof {
        assert(l@.take(l@.len() as int) =~= l@);
    }
    out
}

/// Whether atoms are wider than `limit` together.
fn widerThan(a: &Vec<Atom>, limit: usize) -> (r: bool)
    ensures
        r == (width_between(atom_views(a@), 0, a@.len() as int) > limit),
{
    let ghost av = atom_views(a@);
    let mut i: usize = 0;
    let mut used: u128 = 0;
    while i < a.len()
        invariant
            i <= a.len(),
            av == atom_views(a@),
            used == width_between(av, 0, i as int),
            used <= i * 0xffff_ffff_ffff_ffff,
        decreases a.len() - i,
    {
        proof {
            assert(av[i as int].width == a@[i as int].width);
            assert(i * 0xffff_ffff_ffff_ffff <= 0xffff_ffff_ffff_ffff * 0xffff_ffff_ffff_ffff)
                by (nonlinear_arith)
                requires
                    0 <= i <= 0xffff_ffff_ffff_ffff,
            ;
            assert((i + 1) * 0xffff_ffff_ffff_ffff == i * 0xffff_ffff_ffff_ffff
                + 0xffff_ffff_ffff_ffff) by (nonlinear_arith);
        }
        used = used + a[i].width as u128;
        i = i + 1;
    }
    used > limit as u128
}

/// Wraps a line into lines fitting within `maxWidth` display columns. Prefers
/// breaking at spaces; splits a word that exceeds the available width.
pub fn wrapSpannedLine(line: Line, maxWidth: usize) -> (r: Vec<Line>)
    ensures
        line_views(r@) == wrap_line(line@, maxWidth as int),
{
    let a = atomsOfLine(&line);
    if maxWidth == 0 || !widerThan(&a, maxWidth) {
        let mut out: Vec<Line> = Vec::new();
        addLine(&mut out, line);
        proof {
            assert(line_views(out@) =~= seq![line@]);
        }
        return out;
    }
    wrapAtoms(&a, maxWidth)
}

// ---- cutting ----

/// `s` with a space in place of every control character.
pub open spec fn sanitized(s: Seq<char>) -> Seq<char> {
    Seq::new(
        s.len(),
        |i: int|
            if is_ctrl(s[i]) {
                ' '
            } else {
                s[i]
            },
    )
}

fn sanitize(s: &str) -> (r: String)
    ensures
        r@ == sanitized(s@),
{
    let v = charsOf(s);
    let mut out = String::new();
    let mut i: usize = 0;
    while i < v.len()
        invariant
            i <= v.len(),
            v@ == s@,
            out@ == sanitized(s@).take(i as int),
        decreases v.len() - i,
    {
        if isCtrl(v[i]) {
            out.push(' ');
        } else {
            out.push(v[i]);
        }
        i = i + 1;
        proof {
            assert(out@ =~= sanitized(s@).take(i as int));
        }
    }
    proof {
        assert(out@ =~= sanitized(s@));
    }
    out
}

/// How many atoms from the start fit into `room` columns.
pub open spec fn fitting(a: Seq<AtomV>, room: int) -> int {
    overflow_at(a, 0, 0, room)
}

/// The text of atoms in at most `limit` columns, the last of them an ellipsis
/// where something was cut. One column is kept free for it.
pub open spec fn cut_atoms(a: Seq<AtomV>, limit: int) -> Seq<char> {
    let k = fitting(a, minus(limit, 1));
    if k >= a.len() {
        atoms_text(a)
    } else if limit == 0 {
        Seq::empty()
    } else {
        atoms_text(a.take(k)) + "\u{2026}"@
    }
}

/// A text in at most `limit` columns.
pub open spec fn cut_text(s: Seq<char>, limit: int) -> Seq<char> {
    cut_atoms(text_atoms(sanitized(s), Style::plain()), limit)
}

/// Cuts atoms to `limit` columns.
pub fn cutAtoms(a: &Vec<Atom>, limit: usize) -> (r: String)
    ensures
        r@ == cut_atoms(atom_views(a@), limit as int),
{
    let ghost av = atom_views(a@);
    let room: usize = limit.saturating_sub(1);
    let mut out = String::new();
    let mut i: usize = 0;
    let mut used: usize = 0;
    proof {
        assert(av.take(0) =~= Seq::<AtomV>::empty());
    }
    while i < a.len()
        invariant
            i <= a.len(),
            av == atom_views(a@),
            used == width_between(av, 0, i as int),
            used <= room,
            room == minus(limit as int, 1),
            out@ == atoms_text(av.take(i as int)),
            overflow_at(av, 0, 0, room as int) == overflow_at(av, 0, i as int, room as int),
        decreases a.len() - i,
    {
        proof {
            assert(av[i as int].width == a@[i as int].width);
        }
        if a[i].width > room - used {
            if limit == 0 {
                return String::new();
            }
            out.append("\u{2026}");
            return out;
        }
        used = used + a[i].width;
        out.append(a[i].text.as_str());
        proof {
            assert(av.take(i + 1).drop_last() =~= av.take(i as int));
            assert(av.take(i + 1).last() == a@[i as int]@);
        }
        i = i + 1;
    }
    proof {
        assert(av.take(av.len() as int) =~= av);
    }
    out
}

/// Truncates a string to fit within `maxWidth` display columns, appending `…` if
/// truncated. Control characters become spaces, as wide as the terminal draws
/// them.
pub fn truncateToWidth(s: &str, maxWidth: usize) -> (r: String)
    ensures
        r@ == cut_text(s@, maxWidth as int),
{
    let clean = sanitize(s);
    let a = atomsOf(clean.as_str(), Style::plain());
    cutAtoms(&a, maxWidth)
}

/// The characters of `s`, which begins at column `col`, that lie between the
/// columns `from` and `to`.
pub open spec fn between_columns(s: Seq<char>, col: int, from: int, to: int) -> Seq<char>
    decreases s.len(),
{
    if s.len() == 0 || col + width_of(s[0]) > to {
        Seq::empty()
    } else if col >= from {
        seq![s[0]] + between_columns(s.skip(1), col + width_of(s[0]), from, to)
    } else {
        between_columns(s.skip(1), col + width_of(s[0]), from, to)
    }
}

/// The part of a text between two display columns, without trailing white space.
pub fn sliceByDisplayColumn(text: &str, colStart: u16, colEnd: u16) -> (r: String)
    ensures
        r@ == trim_end(between_columns(text@, 0, colStart as int, colEnd as int)),
{
    let v = charsOf(text);
    let mut out = String::new();
    let mut col: usize = 0;
    let mut i: usize = 0;
    proof {
        assert(text@.skip(0) =~= text@);
        assert(out@ + between_columns(text@.skip(0), 0, colStart as int, colEnd as int)
            =~= between_columns(text@, 0, colStart as int, colEnd as int));
    }
    while i < v.len()
        invariant
            i <= v.len(),
            v@ == text@,
            col <= colEnd,
            out@ + between_columns(text@.skip(i as int), col as int, colStart as int, colEnd as int)
                == between_columns(text@, 0, colStart as int, colEnd as int),
        decreases v.len() - i,
    {
        let w: usize = widthOf(v[i]);
        let ghost rest = text@.skip(i as int);
        proof {
            assert(rest[0] == v@[i as int]);
            assert(rest.skip(1) =~= text@.skip(i + 1));
        }
        if w > colEnd as usize - col {
            proof {
                assert(out@ + Seq::<char>::empty() =~= out@);
            }
            return trimEnd(out.as_str());
        }
        let ghost before = out@;
        if col >= colStart as usize {
            out.push(v[i]);
            proof {
                assert(before + (seq![v@[i as int]] + between_columns(
                    text@.skip(i + 1),
                    col + w,
                    colStart as int,
                    colEnd as int,
                )) =~= out@ + between_columns(
                    text@.skip(i + 1),
                    col + w,
                    colStart as int,
                    colEnd as int,
                ));
            }
        }
        col = col + w;
        i = i + 1;
    }
    proof {
        assert(text@.skip(i as int).len() == 0);
        assert(out@ + Seq::<char>::empty() =~= out@);
    }
    trimEnd(out.as_str())
}

// ---- blockquote bars ----

/// How many spans at the start of a line are blockquote bars.
pub open spec fn bar_count(l: Seq<SpanV>) -> int
    decreases l.len(),
{
    if l.len() > 0 && l[0].text == "\u{2502} "@ {
        1 + bar_count(l.skip(1))
    } else {
        0
    }
}

pub proof fn lemma_bar_count(l: Seq<SpanV>)
    ensures
        0 <= bar_count(l) <= l.len(),
    decreases l.len(),
{
    if l.len() > 0 && l[0].text == "\u{2502} "@ {
        lemma_bar_count(l.skip(1));
    }
}

/// Strips the leading blockquote bars from a line, so that the rest can be
/// wrapped at a reduced width and the bars added to every wrapped line again.
/// Each bar takes two columns.
pub fn stripBlockquoteBars(line: Line) -> (r: (Vec<Span>, Line, usize))
    ensures
        span_views(r.0@) == line@.take(bar_count(line@)),
        r.1@ == line@.skip(bar_count(line@)),
        r.2 == clamped_width(2 * bar_count(line@)),
{
    let mut spans = line.spans;
    let ghost all = span_views(spans@);
    let count: usize = spans.len();
    let mut k: usize = 0;
    proof {
        assert(all.skip(0) =~= all);
    }
    while k < spans.len() && strEq(spans[k].text.as_str(), "\u{2502} ")
        invariant
            k <= spans@.len(),
            all == span_views(spans@),
            bar_count(all) == k + bar_count(all.skip(k as int)),
        decreases spans@.len() - k,
    {
        proof {
            assert(all.skip(k as int)[0] == spans@[k as int]@);
            assert(all.skip(k as int).skip(1) =~= all.skip(k + 1));
        }
        k = k + 1;
    }
    proof {
        if k < spans@.len() {
            assert(all.skip(k as int)[0] == spans@[k as int]@);
        }
        assert(bar_count(all) == k);
    }
    let rest = spans.split_off(k);
    proof {
        assert(span_views(spans@) =~= all.take(k as int));
        assert(span_views(rest@) =~= all.skip(k as int));
    }
    let width: usize = if k > usize::MAX / 2 {
        usize::MAX
    } else {
        2 * k
    };
    (spans, Line { spans: rest }, width)
}

/// A width as a machine integer.
pub open spec fn clamped_width(n: int) -> int {
    if n > usize::MAX {
        usize::MAX as int
    } else {
        n
    }
}

// ---- laws ----

/// Whether the range `r` of atoms is no wider than `limit`, or a single atom.
pub open spec fn line_fits(a: Seq<AtomV>, r: (int, int), limit: int) -> bool {
    &&& 0 <= r.0 < r.1 <= a.len()
    &&& width_between(a, r.0, r.1) <= limit || r.1 == r.0 + 1
}

/// Wrapped lines never exceed the limit, except where a single cluster is wider
/// than the limit by itself, and none of them is empty.
pub proof fn law_wrapped_lines_fit(a: Seq<AtomV>, s: int, limit: int)
    requires
        0 <= s,
    ensures
        forall|i: int|
            0 <= i < breaks(a, s, limit).len() ==> line_fits(
                a,
                #[trigger] breaks(a, s, limit)[i],
                limit,
            ),
        s < a.len() ==> breaks(a, s, limit).len() > 0 && breaks(a, s, limit)[0].0 == s,
    decreases a.len() - s,
{
    if s < a.len() {
        let i = overflow_at(a, s, s + 1, limit);
        lemma_overflow(a, s, s + 1, limit);
        let k = last_space(a, s, i);
        if i >= a.len() {
            if a.len() > s + 1 {
                assert(width_between(a, s, (a.len() - 1) + 1) <= limit);
            }
            assert(line_fits(a, (s, a.len() as int), limit));
        } else {
            lemma_last_space(a, s, i);
            if s < k {
                law_wrapped_lines_fit(a, k + 1, limit);
                if k > s + 1 {
                    assert(width_between(a, s, (k - 1) + 1) <= limit);
                }
                assert(line_fits(a, (s, k), limit));
                let rest = breaks(a, k + 1, limit);
                assert forall|j: int| 0 <= j < breaks(a, s, limit).len() implies line_fits(
                    a,
                    #[trigger] breaks(a, s, limit)[j],
                    limit,
                ) by {
                    if j > 0 {
                        assert(breaks(a, s, limit)[j] == rest[j - 1]);
                    }
                }
            } else {
                law_wrapped_lines_fit(a, i, limit);
                if i > s + 1 {
                    assert(width_between(a, s, (i - 1) + 1) <= limit);
                }
                assert(line_fits(a, (s, i), limit));
                let rest = breaks(a, i, limit);
                assert forall|j: int| 0 <= j < breaks(a, s, limit).len() implies line_fits(
                    a,
                    #[trigger] breaks(a, s, limit)[j],
                    limit,
                ) by {
                    if j > 0 {
                        assert(breaks(a, s, limit)[j] == rest[j - 1]);
                    }
                }
            }
        }
    }
}

/// Nothing is lost by wrapping: each line begins where the one before ended, or
/// one space behind that, and the last ends with the text or one space before.
pub proof fn law_wrapping_drops_only_spaces(a: Seq<AtomV>, s: int, limit: int)
    requires
        0 <= s < a.len(),
    ensures
        ({
            let b = breaks(a, s, limit);
            &&& b.len() > 0
            &&& b[0].0 == s
            &&& forall|i: int|
                #![trigger b[i]]
                0 <= i < b.len() - 1 ==> (b[i + 1].0 == b[i].1 || (b[i + 1].0 == b[i].1 + 1
                    && a[b[i].1].text == " "@))
            &&& b.last().1 == a.len() || (b.last().1 == a.len() - 1 && a.last().text == " "@)
        }),
    decreases a.len() - s,
{
    let b = breaks(a, s, limit);
    let i = overflow_at(a, s, s + 1, limit);
    lemma_overflow(a, s, s + 1, limit);
    if i < a.len() {
        lemma_last_space(a, s, i);
        let k = last_space(a, s, i);
        let next = if s < k {
            k + 1
        } else {
            i
        };
        let rest = breaks(a, next, limit);
        if next < a.len() {
            law_wrapping_drops_only_spaces(a, next, limit);
            assert forall|j: int| #![trigger b[j]] 0 <= j < b.len() - 1 implies (b[j + 1].0 == b[j].1
                || (b[j + 1].0 == b[j].1 + 1 && a[b[j].1].text == " "@)) by {
                assert(b[j + 1] == rest[j]);
                if j > 0 {
                    assert(b[j] == rest[j - 1]);
                }
            }
            assert(b.last() == rest.last());
        }
    }
}

/// A cut text fits: where something was cut, the kept clusters leave one column
/// for the ellipsis.
pub proof fn law_cut_text_fits(a: Seq<AtomV>, limit: int)
    requires
        limit > 0,
        fitting(a, limit - 1) < a.len(),
    ensures
        width_between(a, 0, fitting(a, limit - 1)) + 1 <= limit,
        cut_atoms(a, limit) == atoms_text(a.take(fitting(a, limit - 1))) + "\u{2026}"@,
{
    lemma_overflow(a, 0, 0, limit - 1);
    let k = fitting(a, limit - 1);
    if k > 0 {
        assert(width_between(a, 0, (k - 1) + 1) <= limit - 1);
    }
}

/// A cut text holds no control character that its ellipsis does not bring.
pub proof fn law_sanitized_text_has_no_controls(s: Seq<char>)
    ensures
        forall|i: int| 0 <= i < s.len() ==> !is_ctrl(#[trigger] sanitized(s)[i]),
{
}

/// The text of a line.
pub open spec fn text_of(l: Seq<SpanV>) -> Seq<char>
    decreases l.len(),
{
    if l.len() == 0 {
        Seq::empty()
    } else {
        text_of(l.drop_last()) + l.last().text
    }
}

/// Putting pieces together into a line keeps their text and its order.
pub proof fn law_joined_pieces_keep_their_text(a: Seq<AtomV>)
    ensures
        text_of(joined_atoms(a)) == atoms_text(a),
    decreases a.len(),
{
    if a.len() > 0 {
        law_joined_pieces_keep_their_text(a.drop_last());
        let r = joined_atoms(a.drop_last());
        let q = joined_atoms(a);
        if r.len() > 0 && r.last().style == a.last().style {
            assert(q.drop_last() =~= r.drop_last());
            assert(text_of(q) =~= text_of(r) + a.last().text);
        } else {
            assert(q.drop_last() =~= r);
        }
    }
}

/// A line that fits is not wrapped.
pub proof fn law_short_lines_are_not_wrapped(l: Seq<SpanV>, limit: int)
    requires
        width_between(line_atoms(l), 0, line_atoms(l).len() as int) <= limit,
    ensures
        wrap_line(l, limit) == seq![l],
{
}

} // verus!
