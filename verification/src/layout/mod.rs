//! Window-manager-style layout tree.
//!
//! A [`Layout`] is a recursive tree of `Split` / `Tabs` / `Window` nodes, which
//! is flattened into rectangular regions. Each leaf addresses a logical pane by
//! its [`WindowId`]: a terminal by name, or the agent panel.
//!
//! Only the canonical shape is renderable: a horizontal split with a tabs
//! container of terminals on the left and the agent panel on the right.
//! [`Layout::isCanonicalPhase1`] gatekeeps persisted layouts, so that a
//! hand-written file with an unsupported shape is rejected before it can
//! produce invisible panes.

use vstd::prelude::*;
use vstd::string::*;
use crate::draw::{Rect, max, min};
use crate::text::strEq;

pub mod control_panel;
pub mod discovery;
pub mod laws;

verus! {

/// Direction of a `Split` node.
#[derive(Clone, Copy, Debug, PartialEq, Eq, Structural)]
pub enum Orient {
    Horizontal,
    Vertical,
}

/// Identifier for a leaf window in the tree.
#[derive(Clone, Debug, PartialEq, Eq)]
pub enum WindowId {
    /// A specific terminal by registry name.
    Terminal(String),
    /// The agent conversation panel.
    AgentPanel,
}

/// Recursive layout node.
#[derive(Debug)]
pub enum Layout {
    /// Two children laid out along an axis. `ratio` is the part of the
    /// container's primary dimension that the first child takes, in
    /// millionths: a ratio of 600000 is split at 60 percent.
    Split { orient: Orient, ratio: u32, a: Box<Layout>, b: Box<Layout> },
    /// Children sharing the same area, with one active at a time.
    Tabs { active: usize, children: Vec<Layout> },
    /// A leaf window.
    Window(WindowId),
}

/// A flattened leaf. For `Tabs` only the active child is emitted, since hidden
/// tabs need no rectangles.
#[derive(Clone, Debug)]
pub struct SplitArea {
    pub window: WindowId,
    pub rect: Rect,
    /// True when this leaf is part of a `Tabs` group.
    pub inTabs: bool,
    /// All siblings in the same `Tabs` group, with their active flag, in tree
    /// order. Empty when `inTabs` is false.
    pub tabSiblings: Vec<(WindowId, bool)>,
}

// ---- the mathematical tree ----

/// A window as a value.
pub ghost enum WindowV {
    Terminal(Seq<char>),
    AgentPanel,
}

/// A layout as a value.
pub ghost enum LayoutV {
    Split { orient: Orient, ratio: int, a: Box<LayoutV>, b: Box<LayoutV> },
    Tabs { active: int, children: Seq<LayoutV> },
    Window(WindowV),
}

/// A flattened leaf as a value.
pub ghost struct AreaV {
    pub window: WindowV,
    pub rect: Rect,
    pub inTabs: bool,
    pub tabSiblings: Seq<(WindowV, bool)>,
}

impl View for WindowId {
    type V = WindowV;

    open spec fn view(&self) -> WindowV {
        match *self {
            WindowId::Terminal(n) => WindowV::Terminal(n@),
            WindowId::AgentPanel => WindowV::AgentPanel,
        }
    }
}

/// The tree that `l` holds.
pub open spec fn tree(l: Layout) -> LayoutV
    decreases l,
{
    match l {
        Layout::Split { orient, ratio, a, b } => LayoutV::Split {
            orient,
            ratio: ratio as int,
            a: Box::new(tree(*a)),
            b: Box::new(tree(*b)),
        },
        Layout::Tabs { active, children } => LayoutV::Tabs {
            active: active as int,
            children: Seq::new(
                children@.len(),
                |i: int|
                    if 0 <= i < children@.len() {
                        tree(children@[i])
                    } else {
                        arbitrary()
                    },
            ),
        },
        Layout::Window(id) => LayoutV::Window(id@),
    }
}

impl View for Layout {
    type V = LayoutV;

    open spec fn view(&self) -> LayoutV {
        tree(*self)
    }
}

/// The trees that the layouts `v` hold.
pub open spec fn trees(v: Seq<Layout>) -> Seq<LayoutV> {
    Seq::new(v.len(), |i: int| tree(v[i]))
}

/// A tabs node holds the trees of its children.
pub proof fn lemma_tabs_tree(active: usize, children: Vec<Layout>)
    ensures
        tree(Layout::Tabs { active, children }) == (LayoutV::Tabs {
            active: active as int,
            children: trees(children@),
        }),
{
    let t = tree(Layout::Tabs { active, children });
    assert(t->children =~= trees(children@));
}

/// The siblings of `v` as values.
pub open spec fn sibling_views(v: Seq<(WindowId, bool)>) -> Seq<(WindowV, bool)> {
    Seq::new(v.len(), |i: int| (v[i].0@, v[i].1))
}

impl View for SplitArea {
    type V = AreaV;

    open spec fn view(&self) -> AreaV {
        AreaV {
            window: self.window@,
            rect: self.rect,
            inTabs: self.inTabs,
            tabSiblings: sibling_views(self.tabSiblings@),
        }
    }
}

/// The leaves of `v` as values.
pub open spec fn area_views(v: Seq<SplitArea>) -> Seq<AreaV> {
    Seq::new(v.len(), |i: int| v[i]@)
}

// ---- shapes ----

/// Whether the node is a terminal window.
pub open spec fn is_terminal(l: LayoutV) -> bool {
    l matches LayoutV::Window(WindowV::Terminal(_))
}

/// Whether the node is the window of the terminal `name`.
pub open spec fn is_terminal_named(l: LayoutV, name: Seq<char>) -> bool {
    l == LayoutV::Window(WindowV::Terminal(name))
}

/// Whether some child is a terminal window.
pub open spec fn any_terminal(children: Seq<LayoutV>) -> bool {
    exists|i: int| 0 <= i < children.len() && is_terminal(#[trigger] children[i])
}

/// The shape that can be rendered.
pub open spec fn is_canonical(l: LayoutV) -> bool {
    &&& l matches LayoutV::Split { orient, ratio, a, b }
    &&& orient is Horizontal
    &&& 50_000 <= ratio <= 950_000
    &&& *a matches LayoutV::Tabs { active, children }
    &&& children.len() > 0
    &&& 0 <= active < children.len()
    &&& forall|i: int| 0 <= i < children.len() ==> is_terminal(#[trigger] children[i])
    &&& *b == LayoutV::Window(WindowV::AgentPanel)
}

/// The canonical layout: terminal tabs left (60%), agent right (40%).
pub open spec fn default_phase1() -> LayoutV {
    split_of_main(600_000)
}

/// A horizontal split with one terminal tab left and the agent right.
pub open spec fn split_of_main(ratio: int) -> LayoutV {
    LayoutV::Split {
        orient: Orient::Horizontal,
        ratio,
        a: Box::new(
            LayoutV::Tabs {
                active: 0,
                children: seq![LayoutV::Window(WindowV::Terminal("main"@))],
            },
        ),
        b: Box::new(LayoutV::Window(WindowV::AgentPanel)),
    }
}

// ---- flattening ----

/// The percentage at which a split with the given ratio is made.
pub open spec fn percent(ratio: int) -> int {
    max(5, min(95, ratio / 10_000))
}

/// The first window of the tree, following active tabs.
pub open spec fn first_window(l: LayoutV) -> Option<WindowV>
    decreases l,
{
    match l {
        LayoutV::Window(w) => Some(w),
        LayoutV::Split { a, .. } => first_window(*a),
        LayoutV::Tabs { active, children } => if children.len() == 0 {
            None
        } else if 0 <= active < children.len() {
            first_window(children[active])
        } else {
            first_window(children[children.len() - 1])
        },
    }
}

/// The labels of the first `n` tabs, the one at `k` marked as active. A tab
/// without any window has no label.
pub open spec fn tab_labels(children: Seq<LayoutV>, k: int, n: int) -> Seq<(WindowV, bool)>
    decreases n,
{
    if n <= 0 {
        Seq::empty()
    } else {
        let r = tab_labels(children, k, n - 1);
        match first_window(children[n - 1]) {
            Some(w) => r.push((w, n - 1 == k)),
            None => r,
        }
    }
}

/// The two parts of `area` split at `first` percent: side by side where
/// `horizontal`, else one above the other. The cut is at the nearest cell.
pub open spec fn split_at(horizontal: bool, first: int, area: Rect) -> (Rect, Rect) {
    if horizontal {
        let w = (area.width * first + 50) / 100;
        (
            Rect { width: w as u16, ..area },
            Rect { x: (area.x + w) as u16, width: (area.width - w) as u16, ..area },
        )
    } else {
        let h = (area.height * first + 50) / 100;
        (
            Rect { height: h as u16, ..area },
            Rect { y: (area.y + h) as u16, height: (area.height - h) as u16, ..area },
        )
    }
}

/// The leaves shown in `area`.
pub open spec fn areas_of(l: LayoutV, area: Rect) -> Seq<AreaV>
    decreases l,
{
    match l {
        LayoutV::Split { orient, ratio, a, b } => {
            let parts = split_at(orient is Horizontal, percent(ratio), area);
            areas_of(*a, parts.0) + areas_of(*b, parts.1)
        },
        LayoutV::Tabs { active, children } => if children.len() == 0 {
            Seq::empty()
        } else {
            let k = if 0 <= active < children.len() {
                active
            } else {
                children.len() - 1
            };
            let inner = areas_of(children[k], area);
            let labels = tab_labels(children, k, children.len() as int);
            Seq::new(
                inner.len(),
                |i: int| AreaV { inTabs: true, tabSiblings: labels, ..inner[i] },
            )
        },
        LayoutV::Window(w) => seq![
            AreaV { window: w, rect: area, inTabs: false, tabSiblings: Seq::empty() },
        ],
    }
}

/// Calls `ratatui::layout::Layout::split` with the constraints
/// `Percentage(first)` and `Percentage(100 - first)`. The two percentages fill
/// the area exactly, so that the solver meets both: the first part begins at
/// the edge of the area, the second begins where the first ends and reaches to
/// the other edge, and the cut is rounded to the nearest cell, halves upwards.
#[verifier::external_body]
fn splitPercent(horizontal: bool, first: u16, area: Rect) -> (r: (Rect, Rect))
    requires
        5 <= first <= 95,
        area.wf(),
    ensures
        r == split_at(horizontal, first as int, area),
{
    let direction = if horizontal {
        ratatui::layout::Direction::Horizontal
    } else {
        ratatui::layout::Direction::Vertical
    };
    let whole = ratatui::layout::Rect::new(area.x, area.y, area.width, area.height);
    let percents = [first, 100 - first].map(ratatui::layout::Constraint::Percentage);
    let c = ratatui::layout::Layout::default().direction(direction).constraints(percents).split(
        whole,
    );
    (
        Rect { x: c[0].x, y: c[0].y, width: c[0].width, height: c[0].height },
        Rect { x: c[1].x, y: c[1].y, width: c[1].width, height: c[1].height },
    )
}

// ---- copies ----

impl WindowId {
    /// The same window.
    pub fn copy(&self) -> (r: WindowId)
        ensures
            r == *self,
    {
        match self {
            WindowId::Terminal(n) => WindowId::Terminal(n.clone()),
            WindowId::AgentPanel => WindowId::AgentPanel,
        }
    }
}

impl Layout {
    /// A copy of the tree.
    pub fn copy(&self) -> (r: Layout)
        ensures
            r@ == self@,
        decreases *self,
    {
        match self {
            Layout::Split { orient, ratio, a, b } => Layout::Split {
                orient: *orient,
                ratio: *ratio,
                a: Box::new(a.copy()),
                b: Box::new(b.copy()),
            },
            Layout::Tabs { active, children } => {
                let mut v: Vec<Layout> = Vec::new();
                let mut i: usize = 0;
                while i < children.len()
                    invariant
                        i <= children.len(),
                        trees(v@) == trees(children@).take(i as int),
                        decreases_to!(*self => *children),
                    decreases children.len() - i,
                {
                    let ghost before = trees(v@);
                    let child = children[i].copy();
                    v.push(child);
                    i = i + 1;
                    proof {
                        assert(trees(v@) =~= before.push(tree(child)));
                        assert(trees(v@) =~= trees(children@).take(i as int));
                    }
                }
                proof {
                    assert(trees(v@) =~= trees(children@));
                    lemma_tabs_tree(*active, v);
                    lemma_tabs_tree(*active, *children);
                }
                Layout::Tabs { active: *active, children: v }
            },
            Layout::Window(id) => Layout::Window(id.copy()),
        }
    }
}

impl Clone for Layout {
    fn clone(&self) -> (r: Self)
        ensures
            r@ == self@,
    {
        self.copy()
    }
}

fn copySiblings(v: &Vec<(WindowId, bool)>) -> (r: Vec<(WindowId, bool)>)
    ensures
        r@ == v@,
{
    let mut out: Vec<(WindowId, bool)> = Vec::new();
    let mut i: usize = 0;
    while i < v.len()
        invariant
            i <= v.len(),
            out@ == v@.take(i as int),
        decreases v.len() - i,
    {
        out.push((v[i].0.copy(), v[i].1));
        i = i + 1;
        proof {
            assert(out@ =~= v@.take(i as int));
        }
    }
    proof {
        assert(out@ =~= v@);
    }
    out
}

// ---- reading the tree ----

impl Layout {
    /// The canonical layout: terminal tabs left (60%), agent right (40%).
    pub fn defaultPhase1() -> (r: Self)
        ensures
            r@ == default_phase1(),
            is_canonical(r@),
    {
        splitOfMain(600_000)
    }

    /// True iff this tree is the only shape that can be rendered: a horizontal
    /// split with a tabs container of terminal windows on the left and a single
    /// agent panel on the right.
    pub fn isCanonicalPhase1(&self) -> (r: bool)
        ensures
            r == is_canonical(self@),
    {
        match self {
            Layout::Split { orient, ratio, a, b } => {
                match orient {
                    Orient::Vertical => {
                        return false;
                    },
                    Orient::Horizontal => {},
                }
                if *ratio < 50_000 || *ratio > 950_000 {
                    return false;
                }
                let ghost at = tree(**a);
                let ghost bt = tree(**b);
                proof {
                    assert(self@ == (LayoutV::Split {
                        orient: *orient,
                        ratio: *ratio as int,
                        a: Box::new(at),
                        b: Box::new(bt),
                    }));
                }
                let tabs = match &**a {
                    Layout::Tabs { active, children } => {
                        proof {
                            lemma_tabs_tree(*active, *children);
                        }
                        if children.len() == 0 || *active >= children.len() {
                            return false;
                        }
                        let mut i: usize = 0;
                        while i < children.len()
                            invariant
                                i <= children.len(),
                                at == (LayoutV::Tabs {
                                    active: *active as int,
                                    children: trees(children@),
                                }),
                                self@ matches LayoutV::Split { a: part, .. } && *part == at,
                                forall|j: int|
                                    0 <= j < i ==> is_terminal(#[trigger] trees(children@)[j]),
                            decreases children.len() - i,
                        {
                            if !children[i].isTerminalWindow() {
                                proof {
                                    assert(!is_terminal(trees(children@)[i as int]));
                                }
                                return false;
                            }
                            i = i + 1;
                        }
                        true
                    },
                    _ => false,
                };
                if !tabs {
                    return false;
                }
                match &**b {
                    Layout::Window(WindowId::AgentPanel) => true,
                    _ => false,
                }
            },
            _ => false,
        }
    }

    /// Whether the node is a terminal window.
    pub fn isTerminalWindow(&self) -> (r: bool)
        ensures
            r == is_terminal(self@),
    {
        match self {
            Layout::Window(WindowId::Terminal(_)) => true,
            _ => false,
        }
    }

    /// Whether the node is the window of the terminal `name`.
    pub fn isTerminalNamed(&self, name: &str) -> (r: bool)
        ensures
            r == is_terminal_named(self@, name@),
    {
        match self {
            Layout::Window(WindowId::Terminal(n)) => strEq(n.as_str(), name),
            _ => false,
        }
    }

    /// Flattens the tree into per-window rectangles for the given outer area.
    pub fn computeAreas(&self, outer: Rect) -> (r: Vec<SplitArea>)
        requires
            outer.wf(),
        ensures
            area_views(r@) == areas_of(self@, outer),
    {
        let mut out: Vec<SplitArea> = Vec::new();
        self.computeInto(outer, &mut out);
        proof {
            assert(area_views(out@) =~= areas_of(self@, outer));
        }
        out
    }

    fn computeInto(&self, area: Rect, out: &mut Vec<SplitArea>)
        requires
            area.wf(),
        ensures
            area_views(final(out)@) == area_views(old(out)@) + areas_of(self@, area),
        decreases *self,
    {
        match self {
            Layout::Split { orient, ratio, a, b } => {
                let wide: u32 = *ratio / 10_000;
                let pct: u16 = if wide < 5 {
                    5
                } else if wide > 95 {
                    95
                } else {
                    wide as u16
                };
                let horizontal = match orient {
                    Orient::Horizontal => true,
                    Orient::Vertical => false,
                };
                let parts = splitPercent(horizontal, pct, area);
                proof {
                    assert(area.width * pct + 50 <= area.width * 95 + 50) by (nonlinear_arith)
                        requires
                            pct <= 95,
                    ;
                    assert(area.height * pct + 50 <= area.height * 95 + 50) by (nonlinear_arith)
                        requires
                            pct <= 95,
                    ;
                    assert(0 <= area.width * pct) by (nonlinear_arith);
                    assert(0 <= area.height * pct) by (nonlinear_arith);
                }
                a.computeInto(parts.0, out);
                b.computeInto(parts.1, out);
                proof {
                    assert(area_views(out@) =~= area_views(old(out)@) + areas_of(self@, area));
                }
            },
            Layout::Tabs { active, children } => {
                proof {
                    lemma_tabs_tree(*active, *children);
                }
                if children.len() == 0 {
                    proof {
                        assert(area_views(out@) =~= area_views(old(out)@) + areas_of(self@, area));
                    }
                    return;
                }
                let k: usize = if *active < children.len() {
                    *active
                } else {
                    children.len() - 1
                };
                let labels = tabLabels(children, k);
                let mut inner: Vec<SplitArea> = Vec::new();
                children[k].computeInto(area, &mut inner);
                let ghost sub = areas_of(trees(children@)[k as int], area);
                proof {
                    assert(area_views(inner@) =~= sub);
                }
                let mut i: usize = 0;
                proof {
                    assert(area_views(out@) =~= area_views(old(out)@) + areas_of(self@, area).take(
                        0,
                    ));
                }
                while i < inner.len()
                    invariant
                        i <= inner.len(),
                        area_views(inner@) == sub,
                        areas_of(self@, area) == Seq::new(
                            sub.len(),
                            |j: int|
                                AreaV {
                                    inTabs: true,
                                    tabSiblings: sibling_views(labels@),
                                    ..sub[j]
                                },
                        ),
                        area_views(out@) == area_views(old(out)@) + areas_of(self@, area).take(
                            i as int,
                        ),
                    decreases inner.len() - i,
                {
                    let tab = SplitArea {
                        window: inner[i].window.copy(),
                        rect: inner[i].rect,
                        inTabs: true,
                        tabSiblings: copySiblings(&labels),
                    };
                    proof {
                        assert(sub[i as int] == inner@[i as int]@);
                        assert(tab@ == areas_of(self@, area)[i as int]);
                    }
                    let ghost before = area_views(out@);
                    out.push(tab);
                    i = i + 1;
                    proof {
                        assert(area_views(out@) =~= before.push(tab@));
                        assert(area_views(out@) =~= area_views(old(out)@) + areas_of(
                            self@,
                            area,
                        ).take(i as int));
                    }
                }
                proof {
                    assert(area_views(out@) =~= area_views(old(out)@) + areas_of(self@, area));
                }
            },
            Layout::Window(id) => {
                let leaf = SplitArea {
                    window: id.copy(),
                    rect: area,
                    inTabs: false,
                    tabSiblings: Vec::new(),
                };
                proof {
                    assert(leaf@.tabSiblings =~= Seq::empty());
                }
                out.push(leaf);
                proof {
                    assert(area_views(out@) =~= area_views(old(out)@) + areas_of(self@, area));
                }
            },
        }
    }

    /// The first `Window` leaf in tree order, following active tabs.
    pub fn firstWindow(&self) -> (r: Option<&WindowId>)
        ensures
            match r {
                Some(w) => first_window(self@) == Some(w@),
                None => first_window(self@) is None,
            },
        decreases *self,
    {
        match self {
            Layout::Window(id) => Some(id),
            Layout::Split { a, .. } => a.firstWindow(),
            Layout::Tabs { active, children } => {
                proof {
                    lemma_tabs_tree(*active, *children);
                }
                if children.len() == 0 {
                    None
                } else if *active < children.len() {
                    children[*active].firstWindow()
                } else {
                    children[children.len() - 1].firstWindow()
                }
            },
        }
    }
}

/// A horizontal split with one terminal tab left and the agent right.
pub fn splitOfMain(ratio: u32) -> (r: Layout)
    ensures
        r@ == split_of_main(ratio as int),
        50_000 <= ratio <= 950_000 ==> is_canonical(r@),
{
    let mut children: Vec<Layout> = Vec::new();
    let terminal = Layout::Window(WindowId::Terminal(String::from_str("main")));
    proof {
        assert(tree(terminal) == LayoutV::Window(WindowV::Terminal("main"@)));
    }
    children.push(terminal);
    let a = Layout::Tabs { active: 0, children };
    let b = Layout::Window(WindowId::AgentPanel);
    proof {
        lemma_tabs_tree(0, children);
        assert(trees(children@) =~= seq![LayoutV::Window(WindowV::Terminal("main"@))]);
        assert(tree(b) == LayoutV::Window(WindowV::AgentPanel));
        assert(tree(a) == *(split_of_main(ratio as int)->a));
    }
    Layout::Split { orient: Orient::Horizontal, ratio, a: Box::new(a), b: Box::new(b) }
}

fn tabLabels(children: &Vec<Layout>, k: usize) -> (r: Vec<(WindowId, bool)>)
    ensures
        sibling_views(r@) == tab_labels(trees(children@), k as int, children@.len() as int),
{
    let mut out: Vec<(WindowId, bool)> = Vec::new();
    let mut i: usize = 0;
    proof {
        assert(sibling_views(out@) =~= tab_labels(trees(children@), k as int, 0));
    }
    while i < children.len()
        invariant
            i <= children.len(),
            sibling_views(out@) == tab_labels(trees(children@), k as int, i as int),
        decreases children.len() - i,
    {
        let ghost before = sibling_views(out@);
        match children[i].firstWindow() {
            Some(w) => {
                let pair = (w.copy(), i == k);
                out.push(pair);
                proof {
                    assert(sibling_views(out@) =~= before.push((w@, i == k)));
                }
            },
            None => {},
        }
        i = i + 1;
        proof {
            assert(trees(children@)[i - 1] == children@[i - 1]@);
        }
    }
    out
}

// ---- the terminal container ----

/// Whether the tree has a tabs container with a terminal in it.
pub open spec fn has_container(l: LayoutV) -> bool
    decreases l,
{
    match l {
        LayoutV::Tabs { children, .. } => any_terminal(children),
        LayoutV::Split { a, b, .. } => has_container(*a) || has_container(*b),
        LayoutV::Window(_) => false,
    }
}

/// The first tabs container with a terminal in it: its active index and its
/// children.
pub open spec fn container(l: LayoutV) -> (int, Seq<LayoutV>)
    decreases l,
{
    match l {
        LayoutV::Tabs { active, children } => (active, children),
        LayoutV::Split { a, b, .. } => if has_container(*a) {
            container(*a)
        } else {
            container(*b)
        },
        LayoutV::Window(_) => arbitrary(),
    }
}

/// The tree with that container replaced; a tree without one stays as it is.
pub open spec fn with_container(l: LayoutV, active: int, children: Seq<LayoutV>) -> LayoutV
    decreases l,
{
    match l {
        LayoutV::Tabs { children: now, .. } => if any_terminal(now) {
            LayoutV::Tabs { active, children }
        } else {
            l
        },
        LayoutV::Split { orient, ratio, a, b } => if has_container(*a) {
            LayoutV::Split {
                orient,
                ratio,
                a: Box::new(with_container(*a, active, children)),
                b,
            }
        } else {
            LayoutV::Split {
                orient,
                ratio,
                a,
                b: Box::new(with_container(*b, active, children)),
            }
        },
        LayoutV::Window(_) => l,
    }
}

/// The place of the first child that is the terminal `name`.
pub open spec fn named_at(children: Seq<LayoutV>, name: Seq<char>) -> Option<int> {
    children.index_of_first(LayoutV::Window(WindowV::Terminal(name)))
}

/// The tree after the terminal `name` was added to the container.
pub open spec fn with_terminal(l: LayoutV, name: Seq<char>) -> LayoutV {
    if has_container(l) && named_at(container(l).1, name) is None {
        with_container(
            l,
            container(l).0,
            container(l).1.push(LayoutV::Window(WindowV::Terminal(name))),
        )
    } else {
        l
    }
}

/// Whether the container holds the terminal `name`.
pub open spec fn holds_terminal(l: LayoutV, name: Seq<char>) -> bool {
    has_container(l) && named_at(container(l).1, name) is Some
}

/// The tree after the terminal `name` was taken out of the container.
pub open spec fn without_terminal(l: LayoutV, name: Seq<char>) -> LayoutV {
    if holds_terminal(l, name) {
        with_container(
            l,
            container(l).0,
            container(l).1.remove(named_at(container(l).1, name)->0),
        )
    } else {
        l
    }
}

/// The tree after the terminal `name` became the active tab.
pub open spec fn with_active(l: LayoutV, name: Seq<char>) -> LayoutV {
    if holds_terminal(l, name) {
        with_container(l, named_at(container(l).1, name)->0, container(l).1)
    } else {
        l
    }
}

/// The name of the active terminal.
pub open spec fn active_terminal(l: LayoutV) -> Option<Seq<char>> {
    if has_container(l) {
        let c = container(l);
        if 0 <= c.0 < c.1.len() {
            match c.1[c.0] {
                LayoutV::Window(WindowV::Terminal(n)) => Some(n),
                _ => None,
            }
        } else {
            None
        }
    } else {
        None
    }
}

fn anyTerminal(children: &Vec<Layout>) -> (r: bool)
    ensures
        r == any_terminal(trees(children@)),
{
    let mut i: usize = 0;
    while i < children.len()
        invariant
            i <= children.len(),
            forall|j: int| 0 <= j < i ==> !is_terminal(#[trigger] trees(children@)[j]),
        decreases children.len() - i,
    {
        if children[i].isTerminalWindow() {
            proof {
                assert(is_terminal(trees(children@)[i as int]));
            }
            return true;
        }
        proof {
            assert(!is_terminal(trees(children@)[i as int]));
        }
        i = i + 1;
    }
    false
}

fn positionNamed(children: &Vec<Layout>, name: &str) -> (r: Option<usize>)
    ensures
        match r {
            Some(i) => named_at(trees(children@), name@) == Some(i as int) && i < children@.len(),
            None => named_at(trees(children@), name@) is None,
        },
{
    let ghost t = trees(children@);
    let ghost w = LayoutV::Window(WindowV::Terminal(name@));
    proof {
        t.index_of_first_ensures(w);
    }
    let mut i: usize = 0;
    while i < children.len()
        invariant
            i <= children.len(),
            t == trees(children@),
            w == LayoutV::Window(WindowV::Terminal(name@)),
            forall|j: int| 0 <= j < i ==> t[j] != w,
        decreases children.len() - i,
    {
        let hit = children[i].isTerminalNamed(name);
        proof {
            assert(t[i as int] == children@[i as int]@);
        }
        if hit {
            proof {
                t.index_of_first_ensures(w);
                assert(t.contains(t[i as int]));
                assert(t.index_of_first(w) == Some(i as int));
            }
            return Some(i);
        }
        i = i + 1;
    }
    None
}

impl Layout {
    fn hasContainer(&self) -> (r: bool)
        ensures
            r == has_container(self@),
        decreases *self,
    {
        match self {
            Layout::Tabs { active, children } => {
                proof {
                    lemma_tabs_tree(*active, *children);
                }
                anyTerminal(children)
            },
            Layout::Split { a, b, .. } => a.hasContainer() || b.hasContainer(),
            Layout::Window(_) => false,
        }
    }

    /// Adds a terminal to the tabs container, unless it is there already.
    pub fn addTerminal(&mut self, name: &str)
        ensures
            final(self)@ == with_terminal(old(self)@, name@),
        decreases *old(self),
    {
        let ghost before = self@;
        match self {
            Layout::Tabs { active, children } => {
                let ghost c0 = *children;
                proof {
                    lemma_tabs_tree(*active, c0);
                }
                if anyTerminal(children) && positionNamed(children, name).is_none() {
                    let fresh = Layout::Window(WindowId::Terminal(String::from_str(name)));
                    proof {
                        assert(tree(fresh) == LayoutV::Window(WindowV::Terminal(name@)));
                    }
                    children.push(fresh);
                    proof {
                        lemma_tabs_tree(*active, *children);
                        assert(trees(children@) =~= trees(c0@).push(tree(fresh)));
                    }
                }
            },
            Layout::Split { a, b, .. } => {
                if a.hasContainer() {
                    a.addTerminal(name);
                } else {
                    b.addTerminal(name);
                }
            },
            Layout::Window(_) => {},
        }
    }

    /// Removes a terminal from the tabs container. Returns whether it was there.
    pub fn removeTerminal(&mut self, name: &str) -> (r: bool)
        ensures
            r == holds_terminal(old(self)@, name@),
            final(self)@ == without_terminal(old(self)@, name@),
        decreases *old(self),
    {
        match self {
            Layout::Tabs { active, children } => {
                let ghost c0 = *children;
                proof {
                    lemma_tabs_tree(*active, c0);
                }
                if !anyTerminal(children) {
                    return false;
                }
                match positionNamed(children, name) {
                    Some(i) => {
                        children.remove(i);
                        proof {
                            lemma_tabs_tree(*active, *children);
                            assert(trees(children@) =~= trees(c0@).remove(i as int));
                        }
                        true
                    },
                    None => false,
                }
            },
            Layout::Split { a, b, .. } => {
                if a.hasContainer() {
                    a.removeTerminal(name)
                } else {
                    b.removeTerminal(name)
                }
            },
            Layout::Window(_) => false,
        }
    }

    /// Makes a terminal the active tab. Returns whether it was there.
    pub fn setActiveTerminal(&mut self, name: &str) -> (r: bool)
        ensures
            r == holds_terminal(old(self)@, name@),
            final(self)@ == with_active(old(self)@, name@),
        decreases *old(self),
    {
        match self {
            Layout::Tabs { active, children } => {
                proof {
                    lemma_tabs_tree(*active, *children);
                }
                if !anyTerminal(children) {
                    return false;
                }
                match positionNamed(children, name) {
                    Some(i) => {
                        *active = i;
                        proof {
                            lemma_tabs_tree(i, *children);
                        }
                        true
                    },
                    None => false,
                }
            },
            Layout::Split { a, b, .. } => {
                if a.hasContainer() {
                    a.setActiveTerminal(name)
                } else {
                    b.setActiveTerminal(name)
                }
            },
            Layout::Window(_) => false,
        }
    }

    /// Name of the active terminal, if any.
    pub fn activeTerminalName(&self) -> (r: Option<&str>)
        ensures
            match r {
                Some(n) => active_terminal(self@) == Some(n@),
                None => active_terminal(self@) is None,
            },
        decreases *self,
    {
        match self {
            Layout::Tabs { active, children } => {
                proof {
                    lemma_tabs_tree(*active, *children);
                }
                if !anyTerminal(children) || *active >= children.len() {
                    return None;
                }
                proof {
                    assert(trees(children@)[*active as int] == children@[*active as int]@);
                }
                match &children[*active] {
                    Layout::Window(WindowId::Terminal(n)) => Some(n.as_str()),
                    _ => None,
                }
            },
            Layout::Split { a, b, .. } => {
                if a.hasContainer() {
                    a.activeTerminalName()
                } else {
                    b.activeTerminalName()
                }
            },
            Layout::Window(_) => None,
        }
    }
}

// ---- laws ----

pub proof fn lemma_container(l: LayoutV, active: int, children: Seq<LayoutV>)
    requires
        has_container(l),
    ensures
        any_terminal(container(l).1),
        with_container(l, container(l).0, container(l).1) == l,
        any_terminal(children) ==> has_container(with_container(l, active, children)),
        any_terminal(children) ==> container(with_container(l, active, children)) == (
            active,
            children,
        ),
    decreases l,
{
    match l {
        LayoutV::Split { a, b, .. } => {
            if has_container(*a) {
                lemma_container(*a, active, children);
            } else {
                lemma_container(*b, active, children);
            }
        },
        _ => {},
    }
}

proof fn lemma_replace_twice(
    l: LayoutV,
    a1: int,
    c1: Seq<LayoutV>,
    a2: int,
    c2: Seq<LayoutV>,
)
    requires
        has_container(l),
        any_terminal(c1),
    ensures
        with_container(with_container(l, a1, c1), a2, c2) == with_container(l, a2, c2),
    decreases l,
{
    match l {
        LayoutV::Split { a, b, .. } => {
            if has_container(*a) {
                lemma_container(*a, a1, c1);
                lemma_replace_twice(*a, a1, c1, a2, c2);
            } else {
                lemma_container(*b, a1, c1);
                lemma_replace_twice(*b, a1, c1, a2, c2);
            }
        },
        _ => {},
    }
}

proof fn lemma_pushed(l: LayoutV, name: Seq<char>)
    requires
        has_container(l),
        !holds_terminal(l, name),
    ensures
        ({
            let c = container(l).1;
            let w = LayoutV::Window(WindowV::Terminal(name));
            &&& any_terminal(c.push(w))
            &&& named_at(c.push(w), name) == Some(c.len() as int)
            &&& container(with_terminal(l, name)) == (container(l).0, c.push(w))
            &&& has_container(with_terminal(l, name))
        }),
{
    let c = container(l).1;
    let w = LayoutV::Window(WindowV::Terminal(name));
    c.index_of_first_ensures(w);
    c.push(w).index_of_first_ensures(w);
    assert(c.push(w)[c.len() as int] == w);
    assert(is_terminal(c.push(w)[c.len() as int]));
    assert(c.push(w).contains(w));
    let k = c.push(w).index_of_first(w)->0;
    if k < c.len() {
        assert(c[k] == w);
        assert(c.contains(w));
    }
    lemma_container(l, container(l).0, c.push(w));
}

/// Adding a terminal that is there already changes nothing; adding it makes it
/// be there wherever the tree has a container for terminals.
pub proof fn law_duplicate_add_is_ignored(l: LayoutV, name: Seq<char>)
    ensures
        holds_terminal(l, name) ==> with_terminal(l, name) == l,
        has_container(l) ==> holds_terminal(with_terminal(l, name), name),
        with_terminal(with_terminal(l, name), name) == with_terminal(l, name),
{
    if has_container(l) && !holds_terminal(l, name) {
        lemma_pushed(l, name);
    }
}

/// Removing a terminal that was just added gives the tree back.
pub proof fn law_remove_undoes_add(l: LayoutV, name: Seq<char>)
    requires
        has_container(l),
        !holds_terminal(l, name),
    ensures
        without_terminal(with_terminal(l, name), name) == l,
{
    let c = container(l);
    let w = LayoutV::Window(WindowV::Terminal(name));
    lemma_pushed(l, name);
    assert(c.1.push(w).remove(c.1.len() as int) =~= c.1);
    lemma_replace_twice(l, c.0, c.1.push(w), c.0, c.1);
    lemma_container(l, c.0, c.1);
}

/// A terminal that was made active is the active one.
pub proof fn law_active_is_what_was_set(l: LayoutV, name: Seq<char>)
    requires
        holds_terminal(l, name),
    ensures
        active_terminal(with_active(l, name)) == Some(name),
{
    let c = container(l);
    let w = LayoutV::Window(WindowV::Terminal(name));
    c.1.index_of_first_ensures(w);
    let k = named_at(c.1, name)->0;
    lemma_container(l, k, c.1);
}

pub proof fn lemma_canonical_container(l: LayoutV)
    requires
        is_canonical(l),
    ensures
        has_container(*(l->a)),
        has_container(l),
        container(l) == ((*(l->a))->active, (*(l->a))->children),
{
    let children = (*(l->a))->children;
    assert(is_terminal(children[0]));
    assert(has_container(*(l->a)));
    assert(container(*(l->a)) == ((*(l->a))->active, children));
}

/// Adding terminals and switching between them keeps the layout renderable.
pub proof fn law_terminals_keep_the_canonical_shape(l: LayoutV, name: Seq<char>)
    requires
        is_canonical(l),
    ensures
        is_canonical(with_terminal(l, name)),
        is_canonical(with_active(l, name)),
{
    lemma_canonical_container(l);
    let c = container(l);
    let w = LayoutV::Window(WindowV::Terminal(name));
    c.1.index_of_first_ensures(w);
    let t = with_terminal(l, name);
    if named_at(c.1, name) is None {
        let a = *(t->a);
        assert(a == with_container(*(l->a), c.0, c.1.push(w)));
        assert(a->children =~= c.1.push(w));
        assert forall|i: int| 0 <= i < a->children.len() implies is_terminal(
            #[trigger] a->children[i],
        ) by {
            if i < c.1.len() {
                assert(is_terminal(c.1[i]));
            }
        }
    } else {
        let k = named_at(c.1, name)->0;
        assert(*(with_active(l, name)->a) == with_container(*(l->a), k, c.1));
    }
}

/// A canonical layout shows two panes: the active terminal, with one tab for
/// every terminal, and the agent panel beside it. Together they fill the area.
pub proof fn law_canonical_shows_terminal_and_agent(l: LayoutV, area: Rect)
    requires
        is_canonical(l),
        area.wf(),
    ensures
        areas_of(l, area).len() == 2,
        areas_of(l, area)[0].window == WindowV::Terminal(active_terminal(l)->0),
        areas_of(l, area)[0].inTabs,
        areas_of(l, area)[0].tabSiblings.len() == container(l).1.len(),
        areas_of(l, area)[1].window == WindowV::AgentPanel,
        !areas_of(l, area)[1].inTabs,
        areas_of(l, area)[0].rect.x == area.x,
        areas_of(l, area)[0].rect.x + areas_of(l, area)[0].rect.width == areas_of(
            l,
            area,
        )[1].rect.x,
        areas_of(l, area)[0].rect.width + areas_of(l, area)[1].rect.width == area.width,
{
    reveal_with_fuel(areas_of, 3);
    lemma_canonical_container(l);
    let c = container(l);
    assert(is_terminal(c.1[c.0]));
    lemma_labels(c.1, c.0, c.1.len() as int);
    let pct = percent(l->ratio);
    assert(0 <= area.width * pct <= area.width * 95) by (nonlinear_arith)
        requires
            5 <= pct <= 95,
    ;
    let parts = split_at(true, pct, area);
    assert(areas_of(*(l->a), parts.0).len() == 1);
    assert(areas_of(*(l->b), parts.1).len() == 1);
}

proof fn lemma_labels(children: Seq<LayoutV>, k: int, n: int)
    requires
        0 <= n <= children.len(),
        forall|i: int| 0 <= i < children.len() ==> is_terminal(#[trigger] children[i]),
    ensures
        tab_labels(children, k, n).len() == n,
    decreases n,
{
    if n > 0 {
        lemma_labels(children, k, n - 1);
        assert(is_terminal(children[n - 1]));
    }
}

/// Every leaf is shown inside the area that the tree is shown in.
pub proof fn law_areas_lie_inside(l: LayoutV, area: Rect)
    requires
        area.wf(),
    ensures
        forall|i: int|
            0 <= i < areas_of(l, area).len() ==> (#[trigger] areas_of(l, area)[i]).rect.inside(
                area,
            ),
    decreases l,
{
    match l {
        LayoutV::Split { orient, ratio, a, b } => {
            let f = percent(ratio);
            let parts = split_at(orient is Horizontal, f, area);
            assert(0 <= (area.width * f + 50) / 100 <= area.width) by (nonlinear_arith)
                requires
                    5 <= f <= 95,
            ;
            assert(0 <= (area.height * f + 50) / 100 <= area.height) by (nonlinear_arith)
                requires
                    5 <= f <= 95,
            ;
            law_areas_lie_inside(*a, parts.0);
            law_areas_lie_inside(*b, parts.1);
            let x = areas_of(*a, parts.0);
            let y = areas_of(*b, parts.1);
            assert forall|i: int| 0 <= i < areas_of(l, area).len() implies (
            #[trigger] areas_of(l, area)[i]).rect.inside(area) by {
                if i < x.len() {
                    assert(areas_of(l, area)[i] == x[i]);
                } else {
                    assert(areas_of(l, area)[i] == y[i - x.len()]);
                }
            }
        },
        LayoutV::Tabs { active, children } => {
            if children.len() > 0 {
                let k = if 0 <= active < children.len() {
                    active
                } else {
                    children.len() - 1
                };
                law_areas_lie_inside(children[k], area);
                let inner = areas_of(children[k], area);
                assert forall|i: int| 0 <= i < areas_of(l, area).len() implies (
                #[trigger] areas_of(l, area)[i]).rect.inside(area) by {
                    assert(inner[i].rect.inside(area));
                }
            }
        },
        LayoutV::Window(w) => {},
    }
}

} // verus!
