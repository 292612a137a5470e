//! Where things stand on the screen, and what is copied from it. Times are in
//! milliseconds.

use vstd::prelude::*;
use vstd::string::*;
use crate::agent_panel::painting::{stackRows, stacked};
use crate::agent_panel::selecting::{cellsText, cells_text};
use crate::draw::{Rect, insideBorders, inside_borders, min, minus};
use crate::layout::{
    AreaV, Layout, LayoutV, SplitArea, WindowId, area_views, areas_of, law_areas_lie_inside,
    with_active, with_terminal,
};
use crate::text::{cat3, dec, decimal, texts};

verus! {

// ---- areas ----

/// The tree with every terminal of `names` in it.
pub open spec fn with_terminals(l: LayoutV, names: Seq<Seq<char>>) -> LayoutV
    decreases names.len(),
{
    if names.len() == 0 {
        l
    } else {
        with_terminal(with_terminals(l, names.drop_last()), names.last())
    }
}

/// The tree that is shown: with the terminals that run, and the active one shown.
pub open spec fn shown_tree(l: LayoutV, names: Seq<Seq<char>>, active: Seq<char>) -> LayoutV {
    with_active(with_terminals(l, names), active)
}

/// The first area that shows a terminal, counted from `i`.
pub open spec fn terminal_area(a: Seq<AreaV>, i: int) -> Option<Rect>
    decreases a.len() - i,
{
    if i >= a.len() {
        None
    } else if a[i].window is Terminal {
        Some(a[i].rect)
    } else {
        terminal_area(a, i + 1)
    }
}

/// The first area that shows the agent, counted from `i`.
pub open spec fn agent_area(a: Seq<AreaV>, i: int) -> Option<Rect>
    decreases a.len() - i,
{
    if i >= a.len() {
        None
    } else if a[i].window is AgentPanel {
        Some(a[i].rect)
    } else {
        agent_area(a, i + 1)
    }
}

/// An area, `other` where there is none.
pub open spec fn rect_or(r: Option<Rect>, other: Rect) -> Rect {
    match r {
        Some(r) => r,
        None => other,
    }
}

/// The row of tabs in a terminal's frame, of no size where the frame is too small.
pub open spec fn tab_row(term: Rect) -> Rect {
    let i = inside_borders(term);
    if i.height > 1 {
        Rect { height: 1, ..i }
    } else {
        Rect { x: 0, y: 0, width: 0, height: 0 }
    }
}

/// What is left for the terminal itself.
pub open spec fn below_tabs(term: Rect) -> Rect {
    let i = inside_borders(term);
    if i.height > 1 {
        Rect { y: (i.y + 1) as u16, height: (i.height - 1) as u16, ..i }
    } else {
        i
    }
}

/// Where things stand on the screen.
#[derive(Clone, Copy, Debug)]
pub struct ScreenAreas {
    /// Everything above the status bar.
    pub top: Rect,
    pub bar: Rect,
    pub term: Rect,
    pub agent: Rect,
    pub tabs: Rect,
    pub termInner: Rect,
}

proof fn lemma_found_inside(a: Seq<AreaV>, i: int, outer: Rect)
    requires
        0 <= i <= a.len(),
        forall|k: int| 0 <= k < a.len() ==> (#[trigger] a[k]).rect.inside(outer),
    ensures
        rect_or(terminal_area(a, i), outer).inside(outer),
    decreases a.len() - i,
{
    if i < a.len() {
        assert(a[i].rect.inside(outer));
        lemma_found_inside(a, i + 1, outer);
    }
}

fn terminalArea(a: &Vec<SplitArea>) -> (r: Option<Rect>)
    ensures
        r == terminal_area(area_views(a@), 0),
{
    let mut i: usize = 0;
    while i < a.len()
        invariant
            i <= a@.len(),
            terminal_area(area_views(a@), 0) == terminal_area(area_views(a@), i as int),
        decreases a@.len() - i,
    {
        proof {
            assert(area_views(a@)[i as int] == a@[i as int]@);
        }
        match &a[i].window {
            WindowId::Terminal(_) => {
                return Some(a[i].rect);
            },
            _ => {},
        }
        i = i + 1;
    }
    None
}

fn agentArea(a: &Vec<SplitArea>) -> (r: Option<Rect>)
    ensures
        r == agent_area(area_views(a@), 0),
{
    let mut i: usize = 0;
    while i < a.len()
        invariant
            i <= a@.len(),
            agent_area(area_views(a@), 0) == agent_area(area_views(a@), i as int),
        decreases a@.len() - i,
    {
        proof {
            assert(area_views(a@)[i as int] == a@[i as int]@);
        }
        match &a[i].window {
            WindowId::AgentPanel => {
                return Some(a[i].rect);
            },
            _ => {},
        }
        i = i + 1;
    }
    None
}

/// Where things stand on the screen: the status bar has the last row, and the
/// layout of the session, with the terminals that run, has the rest.
pub fn screenAreas(layout: &Layout, names: &Vec<String>, active: &str, area: Rect) -> (r: ScreenAreas)
    requires
        area.wf(),
    ensures
        ({
            let a = areas_of(shown_tree(layout@, texts(names@), active@), r.top);
            &&& stacked(area, seq![1u16], seq![r.top, r.bar])
            &&& r.term == rect_or(terminal_area(a, 0), r.top)
            &&& r.agent == rect_or(agent_area(a, 0), r.top)
            &&& r.tabs == tab_row(r.term)
            &&& r.termInner == below_tabs(r.term)
        }),
{
    let mut lens: Vec<u16> = Vec::new();
    lens.push(1);
    proof {
        assert(lens@ =~= seq![1u16]);
    }
    let parts = stackRows(area, &lens);
    let top = parts[0];
    let bar = parts[1];
    proof {
        assert(parts@ =~= seq![top, bar]);
    }
    let mut tree = layout.copy();
    let mut i: usize = 0;
    let ghost n = texts(names@);
    proof {
        assert(n.take(0) =~= Seq::<Seq<char>>::empty());
    }
    while i < names.len()
        invariant
            i <= names@.len(),
            n == texts(names@),
            tree@ == with_terminals(layout@, n.take(i as int)),
        decreases names@.len() - i,
    {
        proof {
            assert(n.take(i + 1).drop_last() =~= n.take(i as int));
            assert(n.take(i + 1).last() == names@[i as int]@);
        }
        tree.addTerminal(names[i].as_str());
        i = i + 1;
    }
    proof {
        assert(n.take(n.len() as int) =~= n);
    }
    let _ = tree.setActiveTerminal(active);
    let areas = tree.computeAreas(top);
    let term = match terminalArea(&areas) {
        Some(r) => r,
        None => top,
    };
    let agent = match agentArea(&areas) {
        Some(r) => r,
        None => top,
    };
    proof {
        law_areas_lie_inside(tree@, top);
        lemma_found_inside(area_views(areas@), 0, top);
    }
    let inner = insideBorders(term);
    let (tabs, termInner) = if inner.height > 1 {
        (
            Rect { x: inner.x, y: inner.y, width: inner.width, height: 1 },
            Rect { x: inner.x, y: inner.y + 1, width: inner.width, height: inner.height - 1 },
        )
    } else {
        (Rect { x: 0, y: 0, width: 0, height: 0 }, inner)
    };
    ScreenAreas { top, bar, term, agent, tabs, termInner }
}

/// The title of the terminal: how many lines it is scrolled back.
pub fn terminalTitle(offset: usize) -> (r: String)
    ensures
        r@ == (if offset > 0 {
            " terminal [\u{2191}"@ + dec(offset as nat) + "\u{FE0E}] "@
        } else {
            " terminal "@
        }),
{
    if offset > 0 {
        cat3(" terminal [\u{2191}", decimal(offset as u64).as_str(), "\u{FE0E}] ")
    } else {
        String::from_str(" terminal ")
    }
}

/// The part of the chat behind the two columns of its prefix.
pub fn contentArea(chat: Rect) -> (r: Rect)
    requires
        chat.x <= 65533,
    ensures
        r == (Rect {
            x: (chat.x + 2) as u16,
            y: chat.y,
            width: minus(chat.width as int, 2) as u16,
            height: chat.height,
        }),
{
    Rect {
        x: chat.x + 2,
        y: chat.y,
        width: chat.width.saturating_sub(2),
        height: chat.height,
    }
}

/// How long a frame stays at least.
pub const DRAW_MIN_INTERVAL: u64 = 33;

/// Whether the screen is drawn now: there is something new, and the last frame
/// stayed long enough.
pub fn drawDue(needed: bool, lastDraw: u64, now: u64) -> (r: bool)
    ensures
        r == (needed && minus(now as int, lastDraw as int) >= DRAW_MIN_INTERVAL),
{
    needed && now.saturating_sub(lastDraw) >= DRAW_MIN_INTERVAL
}

// ---- copying from a terminal ----

/// A selected line of a terminal: the symbols of its cells, none where it is not on
/// the screen, and whether it is wrapped into the next line.
#[derive(Debug)]
pub struct TermLine {
    pub cells: Option<Vec<String>>,
    pub wrapped: bool,
}

/// The text of the selected line `k` and whether it continues the line before; none
/// where it is not on the screen.
pub open spec fn term_segment(
    lines: Seq<TermLine>,
    startCol: u16,
    endCol: u16,
    width: u16,
    k: int,
) -> Option<(Seq<char>, bool)> {
    match lines[k].cells {
        Some(c) => Some(
            (
                cells_text(
                    texts(c@),
                    if k == 0 {
                        startCol as int
                    } else {
                        0
                    },
                    if k == lines.len() - 1 {
                        min(endCol as int, width as int)
                    } else {
                        width as int
                    },
                ),
                k > 0 && lines[k - 1].wrapped,
            ),
        ),
        None => None,
    }
}

/// The texts of the first `n` selected lines, as far as they are on the screen.
pub open spec fn term_segments(
    lines: Seq<TermLine>,
    startCol: u16,
    endCol: u16,
    width: u16,
    n: int,
) -> Seq<(Seq<char>, bool)>
    decreases n,
{
    if n <= 0 {
        Seq::empty()
    } else {
        let r = term_segments(lines, startCol, endCol, width, n - 1);
        match term_segment(lines, startCol, endCol, width, n - 1) {
            Some(s) => r.push(s),
            None => r,
        }
    }
}

/// Lines without the empty ones at the end.
pub open spec fn without_empty_end(s: Seq<(Seq<char>, bool)>) -> Seq<(Seq<char>, bool)>
    decreases s.len(),
{
    if s.len() > 0 && s.last().0.len() == 0 {
        without_empty_end(s.drop_last())
    } else {
        s
    }
}

/// The first `n` lines joined: a line that continues the one before follows it
/// directly, any other behind a line break.
pub open spec fn joined_lines(s: Seq<(Seq<char>, bool)>, n: int) -> Seq<char>
    decreases n,
{
    if n <= 0 {
        Seq::empty()
    } else if n == 1 {
        s[0].0
    } else if s[n - 1].1 {
        joined_lines(s, n - 1) + s[n - 1].0
    } else {
        joined_lines(s, n - 1) + "\n"@ + s[n - 1].0
    }
}

/// The text of a selection in a terminal.
pub open spec fn terminal_text(lines: Seq<TermLine>, startCol: u16, endCol: u16, width: u16) -> Seq<
    char,
> {
    let s = without_empty_end(
        term_segments(lines, startCol, endCol, width, lines.len() as int),
    );
    joined_lines(s, s.len() as int)
}

spec fn seg_views(v: Seq<(String, bool)>) -> Seq<(Seq<char>, bool)> {
    Seq::new(v.len(), |i: int| (v[i].0@, v[i].1))
}

/// The text of a selection in a terminal, with wrapped lines joined again. `lines`
/// are the selected lines from the first to the last.
pub fn extractTerminalUnwrapped(
    lines: &Vec<TermLine>,
    startCol: u16,
    endCol: u16,
    width: u16,
) -> (r: String)
    ensures
        r@ == terminal_text(lines@, startCol, endCol, width),
{
    let mut v: Vec<(String, bool)> = Vec::new();
    let mut k: usize = 0;
    proof {
        assert(seg_views(v@) =~= term_segments(lines@, startCol, endCol, width, 0));
    }
    while k < lines.len()
        invariant
            k <= lines@.len(),
            seg_views(v@) == term_segments(lines@, startCol, endCol, width, k as int),
        decreases lines@.len() - k,
    {
        let ghost before = seg_views(v@);
        match &lines[k].cells {
            Some(c) => {
                let from: usize = if k == 0 {
                    startCol as usize
                } else {
                    0
                };
                let to: usize = if k == lines.len() - 1 {
                    if endCol < width {
                        endCol as usize
                    } else {
                        width as usize
                    }
                } else {
                    width as usize
                };
                let text = cellsText(c, from, to);
                let cont = k > 0 && lines[k - 1].wrapped;
                let ghost seg = (text@, cont);
                v.push((text, cont));
                proof {
                    assert(seg_views(v@) =~= before.push(seg));
                }
            },
            None => {},
        }
        k = k + 1;
    }
    let ghost all = seg_views(v@);
    while v.len() > 0 && v[v.len() - 1].0.as_str().unicode_len() == 0
        invariant
            without_empty_end(all) == without_empty_end(seg_views(v@)),
        decreases v@.len(),
    {
        let ghost before = seg_views(v@);
        proof {
            assert(before.last().0 == v@[v@.len() - 1].0@);
        }
        let _ = v.pop();
        proof {
            assert(seg_views(v@) =~= before.drop_last());
        }
    }
    let ghost sv = seg_views(v@);
    proof {
        if v@.len() > 0 {
            assert(sv.last().0 == v@[v@.len() - 1].0@);
        }
        assert(without_empty_end(all) == sv);
    }
    let mut s = String::new();
    let mut i: usize = 0;
    while i < v.len()
        invariant
            i <= v@.len(),
            sv == seg_views(v@),
            s@ == joined_lines(sv, i as int),
        decreases v@.len() - i,
    {
        proof {
            assert(sv[i as int] == (v@[i as int].0@, v@[i as int].1));
        }
        if i > 0 && !v[i].1 {
            s.append("\n");
        }
        let ghost mid = s@;
        s.append(v[i].0.as_str());
        proof {
            if i == 0 {
                assert(s@ =~= sv[0].0);
            }
        }
        i = i + 1;
    }
    s
}

// ---- laws ----

/// A line that was wrapped is copied as one line: no break stands inside it.
pub proof fn law_wrapped_lines_are_joined(a: Seq<char>, b: Seq<char>)
    ensures
        joined_lines(seq![(a, false), (b, true)], 2) == a + b,
        joined_lines(seq![(a, false), (b, false)], 2) == a + "\n"@ + b,
{
    let s = seq![(a, false), (b, true)];
    let t = seq![(a, false), (b, false)];
    assert(joined_lines(s, 1) == a);
    assert(joined_lines(t, 1) == a);
}

} // verus!
