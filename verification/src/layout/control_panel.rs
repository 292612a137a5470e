//! Layout control panel.
//!
//! Select among built-in presets, preview the resulting shape as a diagram,
//! apply it live, save it to disk on demand.

use vstd::prelude::*;
use vstd::string::*;
use crate::draw::{
    Color, Draw, DrawV, Line, Rect, SpanV, Style, addLine, centered, centeredIn, colored, draws,
    emit, emptyLine, insideBorders, inside_borders, lineOf, lineOf3, line_views, max, min, minus,
    span, spanOf, sv,
};
use crate::keys::{KeyCode, KeyEvent};
use crate::layout::{
    Layout, LayoutV, Orient, WindowId, WindowV, has_container, is_canonical, is_terminal,
    lemma_tabs_tree, splitOfMain, split_of_main, with_active, with_container, with_terminal,
    without_terminal,
};
use crate::text::{
    dec, decimal, firstChars, first_chars, opt_text, repeatChar, repeated, strEq,
};

verus! {

/// Built-in preset name and the corresponding layout tree.
pub struct Preset {
    pub name: &'static str,
    pub description: &'static str,
    pub layout: Layout,
}

/// A preset as a value.
pub ghost struct PresetV {
    pub name: Seq<char>,
    pub description: Seq<char>,
    pub layout: LayoutV,
}

impl View for Preset {
    type V = PresetV;

    open spec fn view(&self) -> PresetV {
        PresetV { name: self.name@, description: self.description@, layout: self.layout@ }
    }
}

/// The presets of `v` as values.
pub open spec fn preset_views(v: Seq<Preset>) -> Seq<PresetV> {
    Seq::new(v.len(), |i: int| v[i]@)
}

/// The shipped presets. All of them use a tabs container for terminals, so that
/// terminals that are opened later show up in it.
pub open spec fn builtin() -> Seq<PresetV> {
    seq![
        PresetV {
            name: "split"@,
            description: "60/40 horizontal \u{2014} terminals left, agent right (default)"@,
            layout: split_of_main(600_000),
        },
        PresetV {
            name: "wide"@,
            description: "50/50 horizontal \u{2014} more room for the agent panel"@,
            layout: split_of_main(500_000),
        },
        PresetV {
            name: "focus"@,
            description: "80/20 horizontal \u{2014} narrow agent, focus on the terminal"@,
            layout: split_of_main(800_000),
        },
    ]
}

/// Returns the built-in preset list.
pub fn builtinPresets() -> (r: Vec<Preset>)
    ensures
        preset_views(r@) == builtin(),
        r@.len() == 3,
{
    let mut v: Vec<Preset> = Vec::new();
    v.push(
        Preset {
            name: "split",
            description: "60/40 horizontal \u{2014} terminals left, agent right (default)",
            layout: splitOfMain(600_000),
        },
    );
    v.push(
        Preset {
            name: "wide",
            description: "50/50 horizontal \u{2014} more room for the agent panel",
            layout: splitOfMain(500_000),
        },
    );
    v.push(
        Preset {
            name: "focus",
            description: "80/20 horizontal \u{2014} narrow agent, focus on the terminal",
            layout: splitOfMain(800_000),
        },
    );
    proof {
        assert(preset_views(v@) =~= builtin());
    }
    v
}

// ---- preset identity ----

/// Whether two children are of the same kind.
pub open spec fn same_kind(a: LayoutV, b: LayoutV) -> bool {
    match (a, b) {
        (LayoutV::Tabs { .. }, LayoutV::Tabs { .. }) => true,
        (LayoutV::Window(WindowV::AgentPanel), LayoutV::Window(WindowV::AgentPanel)) => true,
        (LayoutV::Window(WindowV::Terminal(_)), LayoutV::Window(WindowV::Terminal(_))) => true,
        _ => false,
    }
}

/// Whether two layouts have the same top-level shape: the same direction, the
/// same ratio within one percent, and children of the same kinds. The contents
/// of tabs do not matter.
pub open spec fn same_shape(a: LayoutV, b: LayoutV) -> bool {
    match (a, b) {
        (
            LayoutV::Split { orient: oa, ratio: ra, a: aa, b: ab },
            LayoutV::Split { orient: ob, ratio: rb, a: ba, b: bb },
        ) => oa == ob && -10_000 <= ra - rb <= 10_000 && same_kind(*aa, *ba) && same_kind(*ab, *bb),
        _ => false,
    }
}

/// The name of the first preset with the shape of `l`.
pub open spec fn preset_name(l: LayoutV) -> Option<Seq<char>> {
    if same_shape(builtin()[0].layout, l) {
        Some("split"@)
    } else if same_shape(builtin()[1].layout, l) {
        Some("wide"@)
    } else if same_shape(builtin()[2].layout, l) {
        Some("focus"@)
    } else {
        None
    }
}

fn sameChildKind(a: &Layout, b: &Layout) -> (r: bool)
    ensures
        r == same_kind(a@, b@),
{
    match (a, b) {
        (Layout::Tabs { .. }, Layout::Tabs { .. }) => true,
        (Layout::Window(WindowId::AgentPanel), Layout::Window(WindowId::AgentPanel)) => true,
        (Layout::Window(WindowId::Terminal(_)), Layout::Window(WindowId::Terminal(_))) => true,
        _ => false,
    }
}

fn layoutsMatchShape(x: &Layout, y: &Layout) -> (r: bool)
    ensures
        r == same_shape(x@, y@),
{
    match (x, y) {
        (
            Layout::Split { orient: oa, ratio: ra, a: aa, b: ab },
            Layout::Split { orient: ob, ratio: rb, a: ba, b: bb },
        ) => {
            let apart: u32 = if *ra >= *rb {
                *ra - *rb
            } else {
                *rb - *ra
            };
            *oa == *ob && apart <= 10_000 && sameChildKind(aa, ba) && sameChildKind(ab, bb)
        },
        _ => false,
    }
}

/// If `layout` matches one of the built-in presets by top-level shape, returns
/// its name.
pub fn matchPresetName(layout: &Layout) -> (r: Option<String>)
    ensures
        opt_text(r) == preset_name(layout@),
{
    let presets = builtinPresets();
    let ghost views = preset_views(presets@);
    proof {
        assert(views[0] == presets@[0]@ && views[1] == presets@[1]@ && views[2] == presets@[2]@);
    }
    if layoutsMatchShape(&presets[0].layout, layout) {
        return Some(String::from_str(presets[0].name));
    }
    if layoutsMatchShape(&presets[1].layout, layout) {
        return Some(String::from_str(presets[1].name));
    }
    if layoutsMatchShape(&presets[2].layout, layout) {
        return Some(String::from_str(presets[2].name));
    }
    None
}

// ---- panel state ----

/// Result of handling a key in the panel.
#[derive(Debug)]
pub enum PanelAction {
    /// Key consumed, no caller action needed.
    Stay,
    /// Close the panel.
    Close,
    /// Apply the given preset's layout to the session immediately.
    ApplyPreset { name: String, layout: Layout },
    /// Save the panel's working layout to disk.
    Save,
    /// Reload the layout from disk; the caller answers with
    /// [`ControlPanel::resetTo`].
    Reset,
}

/// An action as a value.
pub ghost enum ActionV {
    Stay,
    Close,
    ApplyPreset { name: Seq<char>, layout: LayoutV },
    Save,
    Reset,
}

impl View for PanelAction {
    type V = ActionV;

    open spec fn view(&self) -> ActionV {
        match *self {
            PanelAction::Stay => ActionV::Stay,
            PanelAction::Close => ActionV::Close,
            PanelAction::ApplyPreset { name, layout } => ActionV::ApplyPreset {
                name: name@,
                layout: layout@,
            },
            PanelAction::Save => ActionV::Save,
            PanelAction::Reset => ActionV::Reset,
        }
    }
}

/// Confirm-overlay state for Esc with unsaved changes.
#[derive(Clone, Copy, Debug, PartialEq, Eq, Structural)]
pub enum DirtyConfirm {
    Hidden,
    Asking,
}

/// Layout control panel.
pub struct ControlPanel {
    pub presets: Vec<Preset>,
    pub selected: usize,
    /// Preset name currently applied to the session.
    pub appliedName: Option<String>,
    /// True if `working` differs from what is on disk.
    pub dirty: bool,
    /// Current working layout, used for the live diagram.
    pub working: Layout,
    pub confirm: DirtyConfirm,
}

/// The place of the preset `name`, if it is one.
pub open spec fn preset_at(name: Option<Seq<char>>) -> Option<int> {
    if name == Some("split"@) {
        Some(0)
    } else if name == Some("wide"@) {
        Some(1)
    } else if name == Some("focus"@) {
        Some(2)
    } else {
        None
    }
}

fn presetIndex(name: &str) -> (r: Option<usize>)
    ensures
        match r {
            Some(i) => preset_at(Some(name@)) == Some(i as int) && i < 3,
            None => preset_at(Some(name@)) is None,
        },
{
    if strEq(name, "split") {
        Some(0)
    } else if strEq(name, "wide") {
        Some(1)
    } else if strEq(name, "focus") {
        Some(2)
    } else {
        None
    }
}

impl ControlPanel {
    /// The panel offers the built-in presets and has one of them selected.
    pub open spec fn wf(self) -> bool {
        preset_views(self.presets@) == builtin() && self.selected < 3
    }

    /// A panel that was just opened.
    pub open spec fn is_new(self, current: Layout, appliedPreset: Option<String>) -> bool {
        &&& self.selected == (match preset_at(opt_text(appliedPreset)) {
            Some(i) => i,
            None => 0,
        })
        &&& self.appliedName == appliedPreset
        &&& !self.dirty
        &&& self.working == current
        &&& self.confirm is Hidden
    }

    /// What a key does.
    pub open spec fn on_key(self, key: KeyCode) -> (ControlPanel, ActionV) {
        if self.confirm is Asking {
            let hidden = ControlPanel { confirm: DirtyConfirm::Hidden, ..self };
            match key {
                KeyCode::Esc => (hidden, ActionV::Stay),
                KeyCode::Char(c) => if c == 'y' || c == 'Y' {
                    (hidden, ActionV::Close)
                } else if c == 'n' || c == 'N' {
                    (hidden, ActionV::Stay)
                } else {
                    (self, ActionV::Stay)
                },
                _ => (self, ActionV::Stay),
            }
        } else {
            match key {
                KeyCode::Esc => if self.dirty {
                    (ControlPanel { confirm: DirtyConfirm::Asking, ..self }, ActionV::Stay)
                } else {
                    (self, ActionV::Close)
                },
                KeyCode::Up => (self.up(), ActionV::Stay),
                KeyCode::Down => (self.down(), ActionV::Stay),
                KeyCode::Enter => (
                    self,
                    ActionV::ApplyPreset {
                        name: builtin()[self.selected as int].name,
                        layout: builtin()[self.selected as int].layout,
                    },
                ),
                KeyCode::Char(c) => if c == 'k' {
                    (self.up(), ActionV::Stay)
                } else if c == 'j' {
                    (self.down(), ActionV::Stay)
                } else if c == 's' || c == 'S' {
                    (self, ActionV::Save)
                } else if c == 'r' || c == 'R' {
                    (self, ActionV::Reset)
                } else {
                    (self, ActionV::Stay)
                },
                _ => (self, ActionV::Stay),
            }
        }
    }

    /// The panel with the preset above selected.
    pub open spec fn up(self) -> ControlPanel {
        ControlPanel { selected: minus(self.selected as int, 1) as usize, ..self }
    }

    /// The panel with the preset below selected.
    pub open spec fn down(self) -> ControlPanel {
        ControlPanel { selected: min(self.selected + 1, 2) as usize, ..self }
    }

    /// A panel for the session's current layout, with the applied preset
    /// selected where that is known, else the first.
    pub fn new(current: Layout, appliedPreset: Option<String>) -> (r: Self)
        ensures
            r.wf(),
            r.is_new(current, appliedPreset),
    {
        let selected: usize = match &appliedPreset {
            Some(n) => match presetIndex(n.as_str()) {
                Some(i) => i,
                None => 0,
            },
            None => 0,
        };
        ControlPanel {
            presets: builtinPresets(),
            selected,
            appliedName: appliedPreset,
            dirty: false,
            working: current,
            confirm: DirtyConfirm::Hidden,
        }
    }

    /// The caller's confirmation that a preset is now in use.
    pub fn confirmApplied(&mut self, name: String, layout: Layout)
        ensures
            *final(self) == (ControlPanel {
                appliedName: Some(name),
                working: layout,
                dirty: true,
                ..*old(self)
            }),
    {
        self.appliedName = Some(name);
        self.working = layout;
        self.dirty = true;
    }

    /// The caller's confirmation that a save succeeded: the next Esc does not
    /// prompt.
    pub fn confirmSaved(&mut self)
        ensures
            *final(self) == (ControlPanel { dirty: false, ..*old(self) }),
    {
        self.dirty = false;
    }

    /// The caller's reply to a reset: the layout loaded from disk, or the
    /// default, and the preset that it corresponds to.
    pub fn resetTo(&mut self, layout: Layout, appliedPreset: Option<String>)
        ensures
            *final(self) == (ControlPanel {
                working: layout,
                appliedName: appliedPreset,
                dirty: false,
                selected: match preset_at(opt_text(appliedPreset)) {
                    Some(i) => i as usize,
                    None => old(self).selected,
                },
                ..*old(self)
            }),
    {
        match &appliedPreset {
            Some(n) => match presetIndex(n.as_str()) {
                Some(i) => {
                    self.selected = i;
                },
                None => {},
            },
            None => {},
        }
        self.working = layout;
        self.appliedName = appliedPreset;
        self.dirty = false;
    }

    /// Handles a key event.
    pub fn handleKey(&mut self, key: KeyEvent) -> (r: PanelAction)
        requires
            old(self).wf(),
        ensures
            (*final(self), r@) == old(self).on_key(key.code),
            final(self).wf(),
    {
        match self.confirm {
            DirtyConfirm::Asking => {
                match key.code {
                    KeyCode::Esc => {
                        self.confirm = DirtyConfirm::Hidden;
                        return PanelAction::Stay;
                    },
                    KeyCode::Char(c) => {
                        if c == 'y' || c == 'Y' {
                            self.confirm = DirtyConfirm::Hidden;
                            return PanelAction::Close;
                        } else if c == 'n' || c == 'N' {
                            self.confirm = DirtyConfirm::Hidden;
                            return PanelAction::Stay;
                        }
                        return PanelAction::Stay;
                    },
                    _ => {
                        return PanelAction::Stay;
                    },
                }
            },
            DirtyConfirm::Hidden => {},
        }
        match key.code {
            KeyCode::Esc => {
                if self.dirty {
                    self.confirm = DirtyConfirm::Asking;
                    PanelAction::Stay
                } else {
                    PanelAction::Close
                }
            },
            KeyCode::Up => {
                self.moveUp();
                PanelAction::Stay
            },
            KeyCode::Down => {
                self.moveDown();
                PanelAction::Stay
            },
            KeyCode::Enter => {
                proof {
                    assert(preset_views(self.presets@).len() == 3);
                    assert(preset_views(self.presets@)[self.selected as int]
                        == self.presets@[self.selected as int]@);
                }
                let p = &self.presets[self.selected];
                PanelAction::ApplyPreset {
                    name: String::from_str(p.name),
                    layout: p.layout.copy(),
                }
            },
            KeyCode::Char(c) => {
                if c == 'k' {
                    self.moveUp();
                    PanelAction::Stay
                } else if c == 'j' {
                    self.moveDown();
                    PanelAction::Stay
                } else if c == 's' || c == 'S' {
                    PanelAction::Save
                } else if c == 'r' || c == 'R' {
                    PanelAction::Reset
                } else {
                    PanelAction::Stay
                }
            },
            _ => PanelAction::Stay,
        }
    }

    fn moveUp(&mut self)
        ensures
            *final(self) == old(self).up(),
    {
        if self.selected > 0 {
            self.selected = self.selected - 1;
        }
    }

    fn moveDown(&mut self)
        requires
            old(self).wf(),
        ensures
            *final(self) == old(self).down(),
    {
        proof {
            assert(preset_views(self.presets@).len() == 3);
        }
        if self.selected + 1 < self.presets.len() {
            self.selected = self.selected + 1;
        }
    }
}

// ---- the diagram ----

/// Hint and label text.
#[verifier::allow_in_spec]
pub fn faint() -> Color
    returns
        Color::Rgb(140, 140, 160),
{
    Color::Rgb(140, 140, 160)
}

/// Body text.
#[verifier::allow_in_spec]
pub fn soft() -> Color
    returns
        Color::Rgb(180, 180, 200),
{
    Color::Rgb(180, 180, 200)
}

/// `s` cut to `w` characters, or centered among `w`.
pub open spec fn pad_center(s: Seq<char>, w: int) -> Seq<char> {
    if w == 0 {
        Seq::empty()
    } else {
        let t = first_chars(s, w);
        let pad = w - t.len();
        repeated(' ', pad / 2) + t + repeated(' ', pad - pad / 2)
    }
}

pub fn padCenter(s: &str, w: u16) -> (r: String)
    ensures
        r@ == pad_center(s@, w as int),
        r@.len() == w,
{
    if w == 0 {
        return String::new();
    }
    let t = firstChars(s, w as usize);
    let pad: usize = w as usize - t.as_str().unicode_len();
    let mut out = repeatChar(' ', pad / 2);
    out.append(t.as_str());
    out.append(repeatChar(' ', pad - pad / 2).as_str());
    out
}

/// The label of a pane in the diagram.
pub open spec fn label_of(l: LayoutV) -> Seq<char> {
    match l {
        LayoutV::Tabs { children, .. } => if children.len() <= 1 {
            "terminal"@
        } else {
            "terminals ("@ + dec(children.len()) + ")"@
        },
        LayoutV::Window(WindowV::Terminal(name)) => "term: "@ + name,
        LayoutV::Window(WindowV::AgentPanel) => "agent"@,
        LayoutV::Split { .. } => "<nested split>"@,
    }
}

fn labelOf(layout: &Layout) -> (r: String)
    ensures
        r@ == label_of(layout@),
{
    match layout {
        Layout::Tabs { active, children } => {
            proof {
                lemma_tabs_tree(*active, *children);
            }
            let count: usize = children.len();
            if count <= 1 {
                String::from_str("terminal")
            } else {
                let mut s = String::from_str("terminals (");
                s.append(decimal(count as u64).as_str());
                s.append(")");
                s
            }
        },
        Layout::Window(WindowId::Terminal(name)) => {
            let mut s = String::from_str("term: ");
            s.append(name.as_str());
            s
        },
        Layout::Window(WindowId::AgentPanel) => String::from_str("agent"),
        Layout::Split { .. } => String::from_str("<nested split>"),
    }
}

/// `n` millionths in whole percent, to the nearest, halves to the even one.
pub open spec fn whole_percent(n: int) -> int {
    let q = n / 10_000;
    let rest = n % 10_000;
    if rest > 5_000 || (rest == 5_000 && q % 2 == 1) {
        q + 1
    } else {
        q
    }
}

fn wholePercent(n: u32) -> (r: u64)
    ensures
        r == whole_percent(n as int),
{
    let q: u32 = n / 10_000;
    let rest: u32 = n % 10_000;
    if rest > 5_000 || (rest == 5_000 && q % 2 == 1) {
        q as u64 + 1
    } else {
        q as u64
    }
}

/// What `ratio` leaves of the whole, in whole percent. It is negative where the ratio
/// is more than the whole.
pub open spec fn rest_percent(ratio: int) -> Seq<char> {
    if ratio <= 1_000_000 {
        dec(whole_percent(1_000_000 - ratio) as nat)
    } else {
        "-"@ + dec(whole_percent(ratio - 1_000_000) as nat)
    }
}

fn restPercent(ratio: u32) -> (r: String)
    ensures
        r@ == rest_percent(ratio as int),
{
    if ratio <= 1_000_000 {
        decimal(wholePercent(1_000_000 - ratio))
    } else {
        let mut s = String::from_str("-");
        s.append(decimal(wholePercent(ratio - 1_000_000)).as_str());
        s
    }
}

/// A line of plain text.
pub open spec fn raw(s: Seq<char>) -> Seq<SpanV> {
    seq![sv(s, Style::plain())]
}

/// A horizontal rule of the box: corners and a tee, with bars between.
pub open spec fn box_rule(l: Seq<char>, m: Seq<char>, r: Seq<char>, left: int, right: int) -> Seq<
    char,
> {
    l + repeated('\u{2500}', minus(left, 1)) + m + repeated('\u{2500}', minus(right, 1)) + r
}

fn boxRule(l: &str, m: &str, r: &str, left: u16, right: u16) -> (s: String)
    ensures
        s@ == box_rule(l@, m@, r@, left as int, right as int),
{
    let mut s = String::from_str(l);
    s.append(repeatChar('\u{2500}', left.saturating_sub(1) as usize).as_str());
    s.append(m);
    s.append(repeatChar('\u{2500}', right.saturating_sub(1) as usize).as_str());
    s.append(r);
    s
}

/// Row `i` of the box of `h` rows: the labels stand in the middle row.
pub open spec fn box_row(
    a: Seq<char>,
    b: Seq<char>,
    left: int,
    right: int,
    i: int,
    h: int,
) -> Seq<char> {
    let middle = i == h / 2;
    "\u{2502}"@ + pad_center(
        if middle {
            a
        } else {
            ""@
        },
        minus(left, 1),
    ) + "\u{2502}"@ + pad_center(
        if middle {
            b
        } else {
            ""@
        },
        minus(right, 1),
    ) + "\u{2502}"@
}

/// The diagram of a layout in an area of `width` by `height` cells.
pub open spec fn diagram(l: LayoutV, width: int, height: int) -> Seq<Seq<SpanV>> {
    let head = seq![seq![sv("Current"@, colored(Color::Cyan).bold())], Seq::<SpanV>::empty()];
    match l {
        LayoutV::Split { orient: Orient::Horizontal, ratio, a, b } => {
            let total = max(minus(width, 4), 20);
            let left = min((total * ratio + 500_000) / 1_000_000, u16::MAX as int);
            let right = minus(total, left);
            let h = min(max(minus(height, 4), 3), 5);
            head.push(
                raw(box_rule("\u{250C}"@, "\u{252C}"@, "\u{2510}"@, left, right)),
            ) + Seq::new(
                h as nat,
                |i: int| raw(box_row(label_of(*a), label_of(*b), left, right, i, h)),
            ).push(
                raw(box_rule("\u{2514}"@, "\u{2534}"@, "\u{2518}"@, left, right)),
            ).push(
                seq![
                    sv(
                        "ratio: "@ + dec(whole_percent(ratio) as nat) + "/"@ + rest_percent(ratio),
                        colored(faint()),
                    ),
                ],
            )
        },
        _ => head.push(seq![sv("<custom layout>"@, colored(faint()))]),
    }
}

/// Renders a small diagram of `layout` for an area of `width` by `height`.
pub fn renderDiagram(layout: &Layout, width: u16, height: u16) -> (out: Vec<Line>)
    ensures
        line_views(out@) == diagram(layout@, width as int, height as int),
{
    let mut out: Vec<Line> = Vec::new();
    addLine(&mut out, lineOf(span("Current", colored(Color::Cyan).bold())));
    addLine(&mut out, emptyLine());
    let ghost head = seq![
        seq![sv("Current"@, colored(Color::Cyan).bold())],
        Seq::<SpanV>::empty(),
    ];
    proof {
        assert(line_views(out@) =~= head);
    }
    match layout {
        Layout::Split { orient: Orient::Horizontal, ratio: at, a, b } => {
            let ratio: u32 = *at;
            let room: u16 = width.saturating_sub(4);
            let total: u16 = if room > 20 {
                room
            } else {
                20
            };
            proof {
                assert(0 <= total * ratio <= 65535 * 0xFFFF_FFFF) by (nonlinear_arith)
                    requires
                        total <= 65535,
                        ratio <= 0xFFFF_FFFF,
                ;
            }
            let wide: u64 = (total as u64 * ratio as u64 + 500_000) / 1_000_000;
            let left: u16 = if wide > 65535 {
                65535
            } else {
                wide as u16
            };
            let right: u16 = total.saturating_sub(left);
            let aLabel = labelOf(a);
            let bLabel = labelOf(b);
            let avail: u16 = height.saturating_sub(4);
            let h: u16 = if avail < 3 {
                3
            } else if avail > 5 {
                5
            } else {
                avail
            };
            let top = boxRule("\u{250C}", "\u{252C}", "\u{2510}", left, right);
            addLine(&mut out, lineOf(spanOf(top, Style::plain())));
            let ghost base = line_views(out@);
            let ghost rows = Seq::new(
                h as nat,
                |i: int|
                    raw(
                        box_row(
                            label_of((**a)@),
                            label_of((**b)@),
                            left as int,
                            right as int,
                            i,
                            h as int,
                        ),
                    ),
            );
            let mut i: u16 = 0;
            proof {
                assert(line_views(out@) =~= base + rows.take(0));
            }
            while i < h
                invariant
                    i <= h,
                    h <= 5,
                    aLabel@ == label_of((**a)@),
                    bLabel@ == label_of((**b)@),
                    rows == Seq::new(
                        h as nat,
                        |i: int|
                            raw(
                                box_row(
                                    label_of((**a)@),
                                    label_of((**b)@),
                                    left as int,
                                    right as int,
                                    i,
                                    h as int,
                                ),
                            ),
                    ),
                    line_views(out@) == base + rows.take(i as int),
                decreases h - i,
            {
                let middle = i == h / 2;
                let leftLabel = if middle {
                    aLabel.as_str()
                } else {
                    ""
                };
                let rightLabel = if middle {
                    bLabel.as_str()
                } else {
                    ""
                };
                let mut s = String::from_str("\u{2502}");
                s.append(padCenter(leftLabel, left.saturating_sub(1)).as_str());
                s.append("\u{2502}");
                s.append(padCenter(rightLabel, right.saturating_sub(1)).as_str());
                s.append("\u{2502}");
                addLine(&mut out, lineOf(spanOf(s, Style::plain())));
                i = i + 1;
                proof {
                    assert(line_views(out@) =~= base + rows.take(i as int));
                }
            }
            let bottom = boxRule("\u{2514}", "\u{2534}", "\u{2518}", left, right);
            addLine(&mut out, lineOf(spanOf(bottom, Style::plain())));
            let mut label = String::from_str("ratio: ");
            label.append(decimal(wholePercent(ratio)).as_str());
            label.append("/");
            label.append(restPercent(ratio).as_str());
            addLine(&mut out, lineOf(spanOf(label, colored(faint()))));
            proof {
                assert(line_views(out@) =~= diagram(layout@, width as int, height as int));
            }
        },
        _ => {
            addLine(&mut out, lineOf(span("<custom layout>", colored(faint()))));
        },
    }
    out
}

// ---- the popup ----

/// The popup: 60 percent of the width, at least 60 cells where there are as
/// many, up to 14 rows, centered.
pub open spec fn popup_rect(area: Rect) -> Rect {
    let w = max(min(area.width * 60, u16::MAX as int) / 100, 60);
    let h = min(14, area.height as int);
    Rect {
        x: (area.x + minus(area.width as int, w) / 2) as u16,
        y: (area.y + (area.height - h) / 2) as u16,
        width: min(w, area.width as int) as u16,
        height: h as u16,
    }
}

fn popupRect(area: Rect) -> (r: Rect)
    requires
        area.wf(),
    ensures
        r == popup_rect(area),
        r.wf(),
        r.inside(area),
{
    let wide: u32 = area.width as u32 * 60;
    let scaled: u16 = if wide > 65535 {
        655
    } else {
        (wide / 100) as u16
    };
    let w: u16 = if scaled > 60 {
        scaled
    } else {
        60
    };
    let h: u16 = if area.height < 14 {
        area.height
    } else {
        14
    };
    Rect {
        x: area.x + area.width.saturating_sub(w) / 2,
        y: area.y + (area.height - h) / 2,
        width: if w < area.width {
            w
        } else {
            area.width
        },
        height: h,
    }
}

/// The rows of preset `i` in the list.
pub open spec fn preset_rows(p: ControlPanel, i: int) -> Seq<Seq<SpanV>> {
    let here = i == p.selected;
    let preset = builtin()[i];
    seq![
        seq![
            sv(
                if here {
                    "\u{25B8} "@
                } else {
                    "  "@
                },
                Style::plain(),
            ),
            sv(
                preset.name,
                if here {
                    colored(Color::White).bold()
                } else {
                    colored(soft())
                },
            ),
            sv(
                if opt_text(p.appliedName) == Some(preset.name) {
                    "  (applied)"@
                } else {
                    ""@
                },
                colored(Color::Green),
            ),
        ],
        seq![sv("    "@ + preset.description, colored(Color::Rgb(120, 120, 140)))],
    ]
}

/// The preset list.
pub open spec fn preset_list(p: ControlPanel) -> Seq<Seq<SpanV>> {
    seq![seq![sv("Presets"@, colored(Color::Cyan).bold())], Seq::<SpanV>::empty()] + preset_rows(
        p,
        0,
    ) + preset_rows(p, 1) + preset_rows(p, 2)
}

/// The hotkey legend.
pub open spec fn legend() -> Seq<char> {
    " \u{2191}\u{2193} select \u{00B7} Enter apply \u{00B7} [s] save \u{00B7} [r] reset to disk \u{00B7} Esc close "@
}

/// The question of the confirm overlay.
pub open spec fn question() -> Seq<char> {
    " Unsaved changes \u{00B7} discard & close? [y/n] "@
}

/// The confirm overlay over the popup.
pub open spec fn confirm_draws(popup: Rect) -> Seq<DrawV> {
    let r = centered(
        popup,
        min(question().len() as int + 4, popup.width as int),
        min(3, popup.height as int),
    );
    seq![
        DrawV::Clear { rect: r },
        DrawV::Frame {
            rect: r,
            title: sv(" confirm "@, Style::plain()),
            border: colored(Color::Yellow),
            fill: Style::plain(),
        },
        DrawV::Para { rect: inside_borders(r), lines: seq![raw(question())], style: Style::plain() },
    ]
}

/// What the panel shows in `area`.
pub open spec fn panel_draws(p: ControlPanel, area: Rect) -> Seq<DrawV> {
    let popup = popup_rect(area);
    let inner = inside_borders(popup);
    let leftW = min(inner.width * 45, u16::MAX as int) / 100;
    let rows = minus(inner.height as int, 2) as u16;
    let left = Rect { width: leftW as u16, height: rows, ..inner };
    let right = Rect {
        x: min(inner.x + leftW + 1, u16::MAX as int) as u16,
        y: inner.y,
        width: minus(inner.width as int, leftW + 1) as u16,
        height: rows,
    };
    let footer = Rect {
        x: inner.x,
        y: (inner.y + minus(inner.height as int, 1)) as u16,
        width: inner.width,
        height: 1,
    };
    let body = seq![
        DrawV::Clear { rect: popup },
        DrawV::Frame {
            rect: popup,
            title: sv(
                if p.dirty {
                    " layout (Ctrl+O) \u{00B7} unsaved "@
                } else {
                    " layout (Ctrl+O) "@
                },
                Style::plain(),
            ),
            border: colored(Color::Cyan),
            fill: Style::plain(),
        },
        DrawV::Para {
            rect: left,
            lines: diagram(p.working@, leftW, rows as int),
            style: colored(soft()),
        },
        DrawV::Para { rect: right, lines: preset_list(p), style: Style::plain() },
        DrawV::Para { rect: footer, lines: seq![raw(legend())], style: colored(faint()) },
    ];
    if p.confirm is Asking {
        body + confirm_draws(popup)
    } else {
        body
    }
}

fn renderConfirmOverlay(out: &mut Vec<Draw>, popup: Rect)
    requires
        popup.wf(),
    ensures
        draws(final(out)@) == draws(old(out)@) + confirm_draws(popup),
{
    let msg = " Unsaved changes \u{00B7} discard & close? [y/n] ";
    let len: usize = msg.unicode_len();
    let w: u16 = if len < 1000 && len + 4 < popup.width as usize {
        len as u16 + 4
    } else {
        popup.width
    };
    proof {
        reveal_strlit(" Unsaved changes \u{00B7} discard & close? [y/n] ");
    }
    let h: u16 = if popup.height < 3 {
        popup.height
    } else {
        3
    };
    let r = centeredIn(popup, w, h);
    let mut lines: Vec<Line> = Vec::new();
    addLine(&mut lines, lineOf(span(msg, Style::plain())));
    proof {
        assert(line_views(lines@) =~= seq![raw(question())]);
    }
    emit(out, Draw::Clear { rect: r });
    emit(
        out,
        Draw::Frame {
            rect: r,
            title: span(" confirm ", Style::plain()),
            border: colored(Color::Yellow),
            fill: Style::plain(),
        },
    );
    emit(out, Draw::Para { rect: insideBorders(r), lines, style: Style::plain() });
    proof {
        assert(draws(out@) =~= draws(old(out)@) + confirm_draws(popup));
    }
}

impl ControlPanel {
    fn presetLines(&self) -> (out: Vec<Line>)
        requires
            self.wf(),
        ensures
            line_views(out@) == preset_list(*self),
    {
        let mut out: Vec<Line> = Vec::new();
        addLine(&mut out, lineOf(span("Presets", colored(Color::Cyan).bold())));
        addLine(&mut out, emptyLine());
        let ghost head = line_views(out@);
        proof {
            assert(preset_views(self.presets@).len() == 3);
            assert(head =~= seq![
                seq![sv("Presets"@, colored(Color::Cyan).bold())],
                Seq::<SpanV>::empty(),
            ]);
        }
        self.addPreset(&mut out, 0);
        self.addPreset(&mut out, 1);
        self.addPreset(&mut out, 2);
        out
    }

    fn addPreset(&self, out: &mut Vec<Line>, i: usize)
        requires
            self.wf(),
            i < 3,
        ensures
            line_views(final(out)@) == line_views(old(out)@) + preset_rows(*self, i as int),
    {
        proof {
            assert(preset_views(self.presets@).len() == 3);
            assert(preset_views(self.presets@)[i as int] == self.presets@[i as int]@);
        }
        let p = &self.presets[i];
        let here = i == self.selected;
        let cursor = if here {
            "\u{25B8} "
        } else {
            "  "
        };
        let applied = match &self.appliedName {
            Some(n) => strEq(n.as_str(), p.name),
            None => false,
        };
        let suffix = if applied {
            "  (applied)"
        } else {
            ""
        };
        let style = if here {
            colored(Color::White).bold()
        } else {
            colored(soft())
        };
        addLine(
            out,
            lineOf3(
                span(cursor, Style::plain()),
                span(p.name, style),
                span(suffix, colored(Color::Green)),
            ),
        );
        let mut text = String::from_str("    ");
        text.append(p.description);
        addLine(out, lineOf(spanOf(text, colored(Color::Rgb(120, 120, 140)))));
        proof {
            assert(line_views(out@) =~= line_views(old(out)@) + preset_rows(*self, i as int));
        }
    }

    /// Draws the modal popup.
    pub fn render(&self, area: Rect) -> (out: Vec<Draw>)
        requires
            self.wf(),
            area.wf(),
        ensures
            draws(out@) == panel_draws(*self, area),
    {
        let popup = popupRect(area);
        let inner = insideBorders(popup);
        let wide: u32 = inner.width as u32 * 45;
        let leftW: u16 = if wide > 65535 {
            655
        } else {
            (wide / 100) as u16
        };
        let rows: u16 = inner.height.saturating_sub(2);
        let left = Rect { x: inner.x, y: inner.y, width: leftW, height: rows };
        let right = Rect {
            x: inner.x.saturating_add(leftW + 1),
            y: inner.y,
            width: inner.width.saturating_sub(leftW + 1),
            height: rows,
        };
        let footer = Rect {
            x: inner.x,
            y: inner.y + inner.height.saturating_sub(1),
            width: inner.width,
            height: 1,
        };
        let title = if self.dirty {
            " layout (Ctrl+O) \u{00B7} unsaved "
        } else {
            " layout (Ctrl+O) "
        };
        let mut out: Vec<Draw> = Vec::new();
        emit(&mut out, Draw::Clear { rect: popup });
        emit(
            &mut out,
            Draw::Frame {
                rect: popup,
                title: span(title, Style::plain()),
                border: colored(Color::Cyan),
                fill: Style::plain(),
            },
        );
        let picture = renderDiagram(&self.working, left.width, left.height);
        emit(&mut out, Draw::Para { rect: left, lines: picture, style: colored(soft()) });
        let list = self.presetLines();
        emit(&mut out, Draw::Para { rect: right, lines: list, style: Style::plain() });
        let mut foot: Vec<Line> = Vec::new();
        addLine(
            &mut foot,
            lineOf(
                span(
                    " \u{2191}\u{2193} select \u{00B7} Enter apply \u{00B7} [s] save \u{00B7} [r] reset to disk \u{00B7} Esc close ",
                    Style::plain(),
                ),
            ),
        );
        proof {
            assert(line_views(foot@) =~= seq![raw(legend())]);
        }
        emit(&mut out, Draw::Para { rect: footer, lines: foot, style: colored(faint()) });
        if self.confirm == DirtyConfirm::Asking {
            renderConfirmOverlay(&mut out, popup);
        }
        proof {
            assert(draws(out@) =~= panel_draws(*self, area));
        }
        out
    }
}

// ---- laws ----

/// Every preset is renderable and keeps its terminals in a tabs container.
pub proof fn law_presets_are_renderable(i: int)
    requires
        0 <= i < 3,
    ensures
        is_canonical(builtin()[i].layout),
        has_container(builtin()[i].layout),
        preset_name(builtin()[i].layout) == Some(builtin()[i].name),
{
    let l = builtin()[i].layout;
    let children = (*(l->a))->children;
    assert(is_terminal(children[0]));
    assert(has_container(*(l->a)));
}

/// The terminals that are open do not change which preset a layout is.
pub proof fn law_preset_ignores_terminals(l: LayoutV, name: Seq<char>)
    requires
        is_canonical(l),
    ensures
        preset_name(with_terminal(l, name)) == preset_name(l),
        preset_name(without_terminal(l, name)) == preset_name(l),
        preset_name(with_active(l, name)) == preset_name(l),
{
    let children = (*(l->a))->children;
    assert(is_terminal(children[0]));
    assert(has_container(*(l->a)));
    assert forall|active: int, kids: Seq<LayoutV>|
        preset_name(#[trigger] with_container(l, active, kids)) == preset_name(l) by {
        assert(with_container(*(l->a), active, kids) is Tabs);
    }
}

/// Unsaved changes are never lost by Esc alone: it asks first, and only `y`
/// closes the panel from there.
pub proof fn law_unsaved_changes_ask_first(p: ControlPanel, key: KeyCode)
    requires
        p.dirty,
        p.on_key(key).1 is Close,
    ensures
        p.confirm is Asking,
        key == KeyCode::Char('y') || key == KeyCode::Char('Y'),
{
}

/// The presets are listed with what they are; the chosen one is marked and the applied
/// one is called so.
pub proof fn law_the_presets_are_listed(p: ControlPanel, i: int)
    requires
        0 <= i < 3,
    ensures
        preset_list(p).len() == 8,
        preset_list(p)[2 + 2 * i][1].text == builtin()[i].name,
        preset_list(p)[3 + 2 * i][0].text == "    "@ + builtin()[i].description,
        i == p.selected ==> preset_list(p)[2 + 2 * i][0].text == "\u{25B8} "@,
        i != p.selected ==> preset_list(p)[2 + 2 * i][0].text == "  "@,
        opt_text(p.appliedName) == Some(builtin()[i].name) ==> preset_list(p)[2 + 2 * i][2].text
            == "  (applied)"@,
{
}

/// The picture of the layout says what is on either side and how the width is shared, in
/// whole hundredths.
pub proof fn law_the_picture_shows_the_share(l: LayoutV, width: int, height: int)
    requires
        l is Split,
        l->orient is Horizontal,
        0 <= l->ratio <= 1_000_000,
        l->ratio % 10_000 == 0,
    ensures
        diagram(l, width, height).last()[0].text == "ratio: "@ + dec((l->ratio / 10_000) as nat)
            + "/"@ + dec((100 - l->ratio / 10_000) as nat),
        label_of(LayoutV::Window(WindowV::AgentPanel)) == "agent"@,
{
    assert(whole_percent(1_000_000 - l->ratio) == 100 - l->ratio / 10_000);
}

} // verus!
