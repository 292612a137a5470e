//! The mouse.

use vstd::prelude::*;
use vstd::string::*;
use crate::agent_panel::blocks::block_at;
use crate::agent_panel::events::last_session;
use crate::agent_panel::prompts::pending_command;
use crate::agent_panel::scrolling::{copy_hit, header_hit, toggle_hit};
use crate::agent_panel::state::{AgentPanel, CodeV, PanelV};
use crate::app::deck::{DeckV, Overlays};
use crate::app::desk::{Desk, DeskV, Focus, addAsks, ask_effects};
use crate::app::effect::{Effect, EffectV, addEffect, effects};
use crate::app::pace::{ScrollAxis, ScrollAxisLock};
use crate::app::request::{Reply, Request, RequestV, chip_asks, openStatusChipPanel};
use crate::app::status_bar::{chipHitTest, chip_at};
use crate::draw::{Rect, min, minus};

verus! {

/// Where the mouse can be.
#[derive(Clone, Copy, Debug, PartialEq, Eq, Structural)]
pub enum PanelId {
    Terminal,
    Agent,
    Input,
}

/// What the mouse does.
#[derive(Clone, Copy, Debug, PartialEq, Eq, Structural)]
pub enum MouseKind {
    DownLeft,
    DragLeft,
    UpLeft,
    ScrollUp,
    ScrollDown,
    ScrollLeft,
    ScrollRight,
    Moved,
    Other,
}

/// An event of the mouse: what it does, where, and which keys are held.
#[derive(Clone, Copy, Debug, PartialEq, Eq, Structural)]
pub struct MouseInput {
    pub kind: MouseKind,
    pub column: u16,
    pub row: u16,
    pub shift: bool,
    pub alt: bool,
}

/// A place in a panel: its column there and its line in what the panel shows.
#[derive(Clone, Copy, Debug, PartialEq, Eq, Structural)]
pub struct Spot {
    pub panel: PanelId,
    pub col: u16,
    pub gridLine: i32,
}

/// A click on the tabs of the terminals.
#[derive(Debug)]
pub enum TabClick {
    Switch(String),
    NewTab,
    Close(String),
    Empty,
}

/// The mouse between its events: where it selects, how it scrolls, and where the
/// input is.
pub struct Pointer {
    pub selectingIn: Option<PanelId>,
    pub lock: ScrollAxisLock,
    pub inputRect: Rect,
}

// ---- who gets an event ----

/// What becomes of an event of the mouse before the panels see it.
#[derive(Clone, Copy, Debug, PartialEq, Eq, Structural)]
pub enum MouseGate {
    /// The popup of subagents takes it.
    Popup,
    /// A panel that covers the others swallows it.
    Swallowed,
    /// A chip of the status bar took it.
    Chip,
    /// It goes to what lies under it.
    Through,
}

/// What a click on the tabs brings about outside.
pub open spec fn tab_effects(click: TabClick) -> Seq<EffectV> {
    match click {
        TabClick::NewTab => seq![EffectV::Ask(RequestV::SpawnTerminal, Reply::Ignored)],
        TabClick::Close(name) => seq![
            EffectV::Ask(RequestV::KillTerminal(name@), Reply::Ignored),
        ],
        _ => Seq::empty(),
    }
}

impl DeskV {
    /// What becomes of an event of the mouse before the panels see it.
    pub open spec fn mouse_gate(self, m: MouseInput) -> MouseGate {
        if self.deck.open.subagents {
            MouseGate::Popup
        } else if self.is_covered() {
            MouseGate::Swallowed
        } else if chip_at(self.chips, m.column, m.row, 0) is Some && (m.kind is DownLeft
            || m.kind is Moved) {
            MouseGate::Chip
        } else {
            MouseGate::Through
        }
    }

    /// The focused chip after an event of the mouse: hovering focuses, a click opens.
    pub open spec fn hovered(self, m: MouseInput) -> Option<usize> {
        if self.mouse_gate(m) is Chip {
            if m.kind is Moved {
                Some(chip_at(self.chips, m.column, m.row, 0)->0 as usize)
            } else {
                None
            }
        } else {
            self.statusFocus
        }
    }

    /// What a click on a chip brings about outside.
    pub open spec fn chip_effects(self, m: MouseInput) -> Seq<EffectV> {
        if self.mouse_gate(m) is Chip && m.kind is DownLeft {
            ask_effects(
                chip_asks(self.chips[chip_at(self.chips, m.column, m.row, 0)->0].kind),
            )
        } else {
            Seq::empty()
        }
    }
}

impl Desk {
    /// Looks at an event of the mouse before the panels see it.
    pub fn mouseGate(&mut self, m: MouseInput, out: &mut Vec<Effect>) -> (r: MouseGate)
        ensures
            r == old(self)@.mouse_gate(m),
            final(self)@ == (DeskV { statusFocus: old(self)@.hovered(m), ..old(self)@ }),
            effects(final(out)@) == effects(old(out)@) + old(self)@.chip_effects(m),
    {
        proof {
            assert(effects(out@) + Seq::<EffectV>::empty() =~= effects(out@));
        }
        if self.deck.open.subagents {
            return MouseGate::Popup;
        }
        if self.isCovered() {
            return MouseGate::Swallowed;
        }
        match chipHitTest(m.column, m.row, &self.chips) {
            Some(h) => match m.kind {
                MouseKind::DownLeft => {
                    addAsks(openStatusChipPanel(h.0), out);
                    self.statusFocus = None;
                    MouseGate::Chip
                },
                MouseKind::Moved => {
                    self.statusFocus = Some(h.1);
                    MouseGate::Chip
                },
                _ => MouseGate::Through,
            },
            None => MouseGate::Through,
        }
    }

    /// The popup of subagents saw an event of the mouse: a click outside closes it.
    pub fn popupMouse(&mut self, outside: bool)
        ensures
            final(self)@ == old(self)@.with_deck(
                DeckV {
                    open: Overlays {
                        subagents: old(self)@.deck.open.subagents && !outside,
                        ..old(self)@.deck.open
                    },
                    ..old(self)@.deck
                },
            ),
    {
        if outside {
            self.deck.open.subagents = false;
        }
    }

    /// A click on the tabs of the terminals. Returns whether there was something
    /// under it.
    pub fn tabClicked(&mut self, click: &TabClick, out: &mut Vec<Effect>) -> (r: bool)
        ensures
            r == !(*click is Empty),
            final(self)@ == (DeskV {
                focus: if *click is Switch {
                    Focus::Terminal
                } else {
                    old(self)@.focus
                },
                ..old(self)@
            }),
            effects(final(out)@) == effects(old(out)@) + tab_effects(*click),
    {
        match click {
            TabClick::Switch(_) => {
                self.focus = Focus::Terminal;
            },
            TabClick::NewTab => {
                addEffect(out, Effect::Ask(Request::SpawnTerminal, Reply::Ignored));
            },
            TabClick::Close(name) => {
                addEffect(
                    out,
                    Effect::Ask(Request::KillTerminal { name: name.clone() }, Reply::Ignored),
                );
            },
            TabClick::Empty => {},
        }
        proof {
            assert(effects(out@) =~= effects(old(out)@) + tab_effects(*click));
        }
        match click {
            TabClick::Empty => false,
            _ => true,
        }
    }
}

// ---- clicks in the conversation ----

/// What a click in the conversation hits.
#[derive(Debug)]
pub enum AgentHit {
    /// Something that took the click.
    Taken,
    /// The header of a subagent that runs: its popup opens.
    Popup,
    /// The header of a subagent that ran in a session that was resumed: its
    /// transcript is shown, if it can be had.
    Frozen { agentType: String, sessionId: String },
    /// Nothing: a selection begins.
    Free,
}

/// What a click hits, as a value.
pub ghost enum HitV {
    Taken,
    Popup,
    Frozen(Seq<char>, Seq<char>),
    Free,
}

impl View for AgentHit {
    type V = HitV;

    open spec fn view(&self) -> HitV {
        match *self {
            AgentHit::Taken => HitV::Taken,
            AgentHit::Popup => HitV::Popup,
            AgentHit::Frozen { agentType, sessionId } => HitV::Frozen(agentType@, sessionId@),
            AgentHit::Free => HitV::Free,
        }
    }
}

/// What a click in the conversation does.
pub ghost struct ClickStep {
    pub panel: PanelV,
    pub out: Seq<EffectV>,
    pub hit: HitV,
}

/// Whether a click hits the border that shows or hides what a subagent left.
pub open spec fn hits_content(p: PanelV, line: int) -> bool {
    p.shown.subagentToggle matches Some(t) && t.0 == line
}

/// Whether a click hits the header of a subagent.
pub open spec fn hits_header(p: PanelV, line: int) -> bool {
    p.shown.subagentHeader matches Some(h) && h == line
}

/// A click on what a subagent left, or on nothing.
pub open spec fn content_click(p: PanelV, line: int) -> ClickStep {
    if hits_content(p, line) {
        ClickStep {
            panel: p.block_toggled((p.shown.subagentToggle->0).1 as int),
            out: Seq::empty(),
            hit: HitV::Taken,
        }
    } else {
        ClickStep { panel: p, out: Seq::empty(), hit: HitV::Free }
    }
}

/// A click in the conversation: on the header of reasoning, the label or the border
/// of a code block, the header of a subagent, what it left, or nothing.
#[verifier::opaque]
pub open spec fn agent_click(p: PanelV, gridLine: int, col: int, now: u64) -> ClickStep {
    let line = p.line_at(gridLine);
    match header_hit(p.shown.reasoningHeaders, line, 0) {
        Some(i) => ClickStep {
            panel: p.reasoning_toggled(p.shown.reasoningHeaders[i].0),
            out: Seq::empty(),
            hit: HitV::Taken,
        },
        None => match copy_hit(p.shown.blocks, line, col, 0) {
            Some(i) => ClickStep {
                panel: PanelV {
                    code: CodeV {
                        copiedFlash: Some((p.shown.blocks[i].blockId, now)),
                        ..p.code
                    },
                    ..p
                },
                out: seq![EffectV::Copy(p.shown.blocks[i].rawCode)],
                hit: HitV::Taken,
            },
            None => match toggle_hit(p.shown.blocks, p.code.expanded, line, 0) {
                Some(i) => ClickStep {
                    panel: p.code_toggled(p.shown.blocks[i]),
                    out: Seq::empty(),
                    hit: HitV::Taken,
                },
                None => if hits_header(p, line) && p.subs.active.len() > 0 {
                    ClickStep { panel: p, out: Seq::empty(), hit: HitV::Popup }
                } else if hits_header(p, line) && last_session(
                    p.entries,
                    p.entries.len() as int,
                ) is Some {
                    let s = last_session(p.entries, p.entries.len() as int)->0;
                    ClickStep { panel: p, out: Seq::empty(), hit: HitV::Frozen(s.0, s.1) }
                } else {
                    content_click(p, line)
                },
            },
        },
    }
}

/// A click on what a subagent left, or on nothing. It follows a click on a header
/// whose transcript could not be had.
pub fn contentClick(panel: &mut AgentPanel, gridLine: i32) -> (r: AgentHit)
    ensures
        ({
            let s = content_click(old(panel)@, old(panel)@.line_at(gridLine as int));
            &&& final(panel)@ == s.panel
            &&& r@ == s.hit
        }),
{
    if panel.tryToggleSubagentContent(gridLine) {
        AgentHit::Taken
    } else {
        AgentHit::Free
    }
}

/// A click on a header or on what a subagent left.
fn headerClick(panel: &mut AgentPanel, gridLine: i32, col: u16, now: u64) -> (r: AgentHit)
    requires
        header_hit(
            old(panel)@.shown.reasoningHeaders,
            old(panel)@.line_at(gridLine as int),
            0,
        ) is None,
        copy_hit(
            old(panel)@.shown.blocks,
            old(panel)@.line_at(gridLine as int),
            col as int,
            0,
        ) is None,
        toggle_hit(
            old(panel)@.shown.blocks,
            old(panel)@.code.expanded,
            old(panel)@.line_at(gridLine as int),
            0,
        ) is None,
    ensures
        ({
            let s = agent_click(old(panel)@, gridLine as int, col as int, now);
            &&& final(panel)@ == s.panel
            &&& s.out.len() == 0
            &&& r@ == s.hit
        }),
{
    proof {
        reveal(agent_click);
    }
    if panel.isSubagentHeaderLine(gridLine) {
        proof {
            assert(panel@.subs.active.len() == panel.subs.active@.len());
        }
        if panel.subs.active.len() > 0 {
            return AgentHit::Popup;
        }
        match panel.lastSubagentSession() {
            Some(s) => {
                return AgentHit::Frozen {
                    agentType: String::from_str(s.0),
                    sessionId: String::from_str(s.1),
                };
            },
            None => {},
        }
    }
    contentClick(panel, gridLine)
}

/// Handles a click in the conversation.
pub fn agentClick(
    panel: &mut AgentPanel,
    gridLine: i32,
    col: u16,
    now: u64,
    out: &mut Vec<Effect>,
) -> (r: AgentHit)
    ensures
        ({
            let s = agent_click(old(panel)@, gridLine as int, col as int, now);
            &&& final(panel)@ == s.panel
            &&& effects(final(out)@) == effects(old(out)@) + s.out
            &&& r@ == s.hit
        }),
{
    proof {
        reveal(agent_click);
        assert(effects(out@) + Seq::<EffectV>::empty() =~= effects(out@));
    }
    if panel.toggleReasoningAtGridLine(gridLine) {
        return AgentHit::Taken;
    }
    match panel.tryCopyCodeBlock(gridLine, col, now) {
        Some(code) => {
            addEffect(out, Effect::Copy(code));
            proof {
                assert(effects(out@) =~= effects(old(out)@) + agent_click(
                    old(panel)@,
                    gridLine as int,
                    col as int,
                    now,
                ).out);
            }
            return AgentHit::Taken;
        },
        None => {},
    }
    if panel.tryToggleCodeBlock(gridLine) {
        return AgentHit::Taken;
    }
    let r = headerClick(panel, gridLine, col, now);
    proof {
        let s = agent_click(old(panel)@, gridLine as int, col as int, now);
        assert(s.out =~= Seq::<EffectV>::empty());
    }
    r
}

// ---- clicks in the input ----

/// A place in the text of the input: its column and row, and how wide the text is.
#[derive(Clone, Copy, Debug, PartialEq, Eq, Structural)]
pub struct TextSpot {
    pub col: u16,
    pub row: u16,
    pub width: u16,
}

/// The place in the text of the input under the mouse, behind the two columns of its
/// prefix. While text is selected, the mouse counts as inside the input.
pub open spec fn text_spot(r: Rect, column: u16, row: u16, clamped: bool) -> TextSpot {
    let c = minus(column as int, r.x as int);
    let l = minus(row as int, r.y as int);
    TextSpot {
        col: minus(
            if clamped {
                min(c, minus(r.width as int, 1))
            } else {
                c
            },
            2,
        ) as u16,
        row: (if clamped {
            min(l, minus(r.height as int, 1))
        } else {
            l
        }) as u16,
        width: minus(r.width as int, 2) as u16,
    }
}

/// The place in the text of the input under the mouse.
pub fn textSpot(r: Rect, column: u16, row: u16, clamped: bool) -> (s: TextSpot)
    ensures
        s == text_spot(r, column, row, clamped),
{
    let mut c: u16 = column.saturating_sub(r.x);
    let mut l: u16 = row.saturating_sub(r.y);
    if clamped {
        let w: u16 = r.width.saturating_sub(1);
        let h: u16 = r.height.saturating_sub(1);
        if c > w {
            c = w;
        }
        if l > h {
            l = h;
        }
    }
    TextSpot { col: c.saturating_sub(2), row: l, width: r.width.saturating_sub(2) }
}

/// Whether a click at the prompt hits the label that copies the command.
pub open spec fn hits_copy_label(r: Rect, column: u16, row: u16) -> bool {
    &&& minus(row as int, r.y as int) == 0
    &&& minus(column as int, r.x as int) + 6 >= r.width
}

/// What a click at the prompt brings about: the command is copied.
pub open spec fn prompt_click(p: PanelV, r: Rect, column: u16, row: u16, now: u64) -> (
    PanelV,
    Seq<EffectV>,
) {
    match pending_command(p) {
        Some(cmd) => if hits_copy_label(r, column, row) {
            (p.copied(now), seq![EffectV::Copy(cmd)])
        } else {
            (p, Seq::empty())
        },
        None => (p, Seq::empty()),
    }
}

/// Handles a click at the prompt.
pub fn promptClick(
    panel: &mut AgentPanel,
    r: Rect,
    column: u16,
    row: u16,
    now: u64,
    out: &mut Vec<Effect>,
)
    ensures
        final(panel)@ == prompt_click(old(panel)@, r, column, row, now).0,
        effects(final(out)@) == effects(old(out)@) + prompt_click(
            old(panel)@,
            r,
            column,
            row,
            now,
        ).1,
{
    proof {
        assert(effects(out@) + Seq::<EffectV>::empty() =~= effects(out@));
    }
    let atRow: u16 = row.saturating_sub(r.y);
    let atCol: u16 = column.saturating_sub(r.x);
    if atRow == 0 && atCol as u32 + 6 >= r.width as u32 {
        let cmd: Option<String> = match panel.pendingCommand() {
            Some(c) => Some(c.clone()),
            None => None,
        };
        match cmd {
            Some(c) => {
                addEffect(out, Effect::Copy(c));
                panel.flashCopied(now);
                proof {
                    assert(effects(out@) =~= effects(old(out)@) + prompt_click(
                        old(panel)@,
                        r,
                        column,
                        row,
                        now,
                    ).1);
                }
            },
            None => {},
        }
    }
}

// ---- presses, drags and releases ----

/// What is left to do for an event of the mouse.
#[derive(Debug)]
pub enum MouseStep {
    /// Nothing happened.
    Ignored,
    /// Something changed, and nothing is left to do.
    Done,
    /// The text cursor is put there and text is selected from there on.
    TextDown(TextSpot),
    /// Text is selected up to there.
    TextDrag(TextSpot),
    /// What is selected of the text is copied.
    TextUp,
    /// A selection begins in a panel, of a rectangle or of lines; repeated clicks on
    /// lines select more. What is selected elsewhere is dropped.
    Begin { panel: PanelId, rectangle: bool },
    /// The selection in a panel goes up to the mouse.
    Extend(PanelId),
    /// The selection in a panel ends at the mouse: it is copied, or dropped where it
    /// is empty.
    Finish(PanelId),
    /// The transcript of a subagent is shown; where it cannot be had, `contentClick`
    /// follows and then a selection begins.
    ShowFrozen { agentType: String, sessionId: String },
    /// The terminal scrolls by lines, up where positive; a selection that is being
    /// made there follows where `extend` says so.
    ScrollTerminal { lines: i32, extend: bool },
}

/// The focus that a click in a panel gives.
pub open spec fn focus_of(p: PanelId) -> Focus {
    match p {
        PanelId::Terminal => Focus::Terminal,
        PanelId::Agent => Focus::Agent,
        PanelId::Input => Focus::Agent,
    }
}

/// What is left to do for a press that nothing under it took.
pub open spec fn begins(hit: HitV, spot: Spot, alt: bool, step: MouseStep) -> bool {
    match hit {
        HitV::Taken => step is Done,
        HitV::Popup => step is Done,
        HitV::Frozen(t, s) => step matches MouseStep::ShowFrozen { agentType, sessionId }
            && agentType@ == t && sessionId@ == s,
        HitV::Free => step == MouseStep::Begin { panel: spot.panel, rectangle: alt },
    }
}

/// What a press in a panel hits.
pub open spec fn press_click(p: PanelV, spot: Spot, now: u64) -> ClickStep {
    if spot.panel is Agent {
        agent_click(p, spot.gridLine as int, spot.col as int, now)
    } else {
        ClickStep { panel: p, out: Seq::empty(), hit: HitV::Free }
    }
}

fn focusOf(p: PanelId) -> (r: Focus)
    ensures
        r == focus_of(p),
{
    match p {
        PanelId::Terminal => Focus::Terminal,
        PanelId::Agent => Focus::Agent,
        PanelId::Input => Focus::Agent,
    }
}

fn isPopup(hit: &AgentHit) -> (r: bool)
    ensures
        r == (hit@ is Popup),
{
    match hit {
        AgentHit::Popup => true,
        _ => false,
    }
}

fn stepOf(hit: AgentHit, spot: Spot, alt: bool) -> (r: MouseStep)
    ensures
        begins(hit@, spot, alt, r),
{
    match hit {
        AgentHit::Taken => MouseStep::Done,
        AgentHit::Popup => MouseStep::Done,
        AgentHit::Frozen { agentType, sessionId } => MouseStep::ShowFrozen {
            agentType,
            sessionId,
        },
        AgentHit::Free => MouseStep::Begin { panel: spot.panel, rectangle: alt },
    }
}

/// Handles a press in a panel, as far as the conversation is concerned.
fn pressPanel(panel: &mut AgentPanel, spot: Spot, now: u64, out: &mut Vec<Effect>) -> (r: AgentHit)
    ensures
        ({
            let c = press_click(old(panel)@, spot, now);
            &&& final(panel)@ == c.panel
            &&& effects(final(out)@) == effects(old(out)@) + c.out
            &&& r@ == c.hit
        }),
{
    match spot.panel {
        PanelId::Agent => agentClick(panel, spot.gridLine, spot.col, now, out),
        _ => {
            proof {
                assert(effects(out@) + Seq::<EffectV>::empty() =~= effects(out@));
            }
            AgentHit::Free
        },
    }
}

impl DeskV {
    /// The desk after a press in a panel: the panel has the focus, and what was hit
    /// shows.
    pub open spec fn pressed(self, spot: Spot, c: ClickStep) -> DeskV {
        DeskV {
            focus: focus_of(spot.panel),
            deck: DeckV {
                panel: c.panel,
                open: Overlays {
                    subagents: self.deck.open.subagents || c.hit is Popup,
                    ..self.deck.open
                },
                ..self.deck
            },
            ..self
        }
    }
}

impl Desk {
    /// Handles a press of the left button in a panel. The panel gets the focus.
    pub fn pressIn(&mut self, spot: Spot, alt: bool, now: u64, out: &mut Vec<Effect>) -> (r:
        MouseStep)
        ensures
            ({
                let c = press_click(old(self)@.deck.panel, spot, now);
                &&& begins(c.hit, spot, alt, r)
                &&& final(self)@ == old(self)@.pressed(spot, c)
                &&& effects(final(out)@) == effects(old(out)@) + c.out
            }),
    {
        let hit = pressPanel(&mut self.deck.panel, spot, now, out);
        self.focus = focusOf(spot.panel);
        self.deck.open.subagents = self.deck.open.subagents || isPopup(&hit);
        stepOf(hit, spot, alt)
    }

    /// Handles a press of the left button in the input: at a prompt it may copy the
    /// command, else the input gets the focus and text is selected.
    pub fn pressInput(
        &mut self,
        rect: Rect,
        column: u16,
        row: u16,
        now: u64,
        out: &mut Vec<Effect>,
    ) -> (r: MouseStep)
        ensures
            ({
                let p = old(self)@.deck.panel;
                let c = prompt_click(p, rect, column, row, now);
                if p.permit.pending {
                    &&& r is Done
                    &&& final(self)@ == old(self)@.with_panel(c.0)
                    &&& effects(final(out)@) == effects(old(out)@) + c.1
                } else {
                    &&& r == MouseStep::TextDown(text_spot(rect, column, row, false))
                    &&& final(self)@ == (DeskV { focus: Focus::Agent, ..old(self)@ })
                    &&& effects(final(out)@) == effects(old(out)@)
                }
            }),
    {
        if self.deck.panel.permit.pending {
            promptClick(&mut self.deck.panel, rect, column, row, now, out);
            return MouseStep::Done;
        }
        self.focus = Focus::Agent;
        MouseStep::TextDown(textSpot(rect, column, row, false))
    }
}

impl Pointer {
    /// What a drag of the left button does: where a selection was begun, it grows.
    pub fn drag(&self, column: u16, row: u16) -> (r: MouseStep)
        ensures
            r == (match self.selectingIn {
                Some(p) => if p is Input {
                    MouseStep::TextDrag(text_spot(self.inputRect, column, row, true))
                } else {
                    MouseStep::Extend(p)
                },
                None => MouseStep::Done,
            }),
    {
        match self.selectingIn {
            Some(PanelId::Input) => MouseStep::TextDrag(
                textSpot(self.inputRect, column, row, true),
            ),
            Some(p) => MouseStep::Extend(p),
            None => MouseStep::Done,
        }
    }

    /// What the release of the left button does: where a selection was begun, it
    /// ends.
    pub fn release(&mut self) -> (r: MouseStep)
        ensures
            *final(self) == (Pointer { selectingIn: None, ..*old(self) }),
            r == (match old(self).selectingIn {
                Some(p) => if p is Input {
                    MouseStep::TextUp
                } else {
                    MouseStep::Finish(p)
                },
                None => MouseStep::Done,
            }),
    {
        match self.selectingIn {
            Some(PanelId::Input) => {
                self.selectingIn = None;
                MouseStep::TextUp
            },
            Some(p) => {
                self.selectingIn = None;
                MouseStep::Finish(p)
            },
            None => MouseStep::Done,
        }
    }

    /// Takes note of where a selection begins.
    pub fn began(&mut self, step: &MouseStep)
        ensures
            *final(self) == (Pointer {
                selectingIn: match *step {
                    MouseStep::TextDown(_) => Some(PanelId::Input),
                    MouseStep::Begin { panel, .. } => Some(panel),
                    _ => old(self).selectingIn,
                },
                ..*old(self)
            }),
    {
        match step {
            MouseStep::TextDown(_) => {
                self.selectingIn = Some(PanelId::Input);
            },
            MouseStep::Begin { panel, .. } => {
                self.selectingIn = Some(*panel);
            },
            _ => {},
        }
    }
}

// ---- several clicks ----

/// What several clicks in a row make of a selection.
#[derive(Clone, Copy, Debug, PartialEq, Eq, Structural)]
pub enum Expansion {
    /// Nothing at all.
    Nothing,
    /// It stays and is copied.
    Kept,
    /// It grows by what stands on the screen around it, and is copied.
    Screen,
    /// It covers these lines from edge to edge, and is copied.
    Lines(i32, i32),
}

/// What several clicks in a row make of a selection. Four of them select what a command
/// left in the terminal, or a whole message in the conversation: `region` and `entry`
/// are the lines of these under the mouse.
pub fn expansionOf(
    panel: PanelId,
    clicks: u32,
    region: Option<(i32, i32)>,
    entry: Option<(i32, i32)>,
) -> (r: Expansion)
    ensures
        r == (if panel is Input || clicks < 2 {
            Expansion::Nothing
        } else if clicks != 4 {
            Expansion::Screen
        } else if panel is Terminal {
            match region {
                Some(b) => Expansion::Lines(b.0, b.1),
                None => Expansion::Screen,
            }
        } else {
            match entry {
                Some(b) => Expansion::Lines(b.0, b.1),
                None => Expansion::Kept,
            }
        }),
{
    if clicks < 2 {
        return Expansion::Nothing;
    }
    match panel {
        PanelId::Input => Expansion::Nothing,
        PanelId::Terminal => {
            if clicks != 4 {
                return Expansion::Screen;
            }
            match region {
                Some(b) => Expansion::Lines(b.0, b.1),
                None => Expansion::Screen,
            }
        },
        PanelId::Agent => {
            if clicks != 4 {
                return Expansion::Screen;
            }
            match entry {
                Some(b) => Expansion::Lines(b.0, b.1),
                None => Expansion::Kept,
            }
        },
    }
}

// ---- scrolling ----

/// The axis that the wheel turns along.
pub open spec fn axis_of(k: MouseKind) -> ScrollAxis {
    if k is ScrollUp || k is ScrollDown {
        ScrollAxis::Vertical
    } else {
        ScrollAxis::Horizontal
    }
}

/// The panel after a code block under the mouse scrolled sideways, and whether there
/// is one.
pub open spec fn block_scrolled(p: PanelV, gridLine: int, delta: int) -> (PanelV, bool) {
    match block_at(p.shown.blocks, p.line_at(gridLine), 0) {
        Some(i) => (p.code_scrolled(p.shown.blocks[i].blockId, delta), true),
        None => (p, false),
    }
}

/// Scrolls the code block under the mouse sideways, where there is one.
pub fn scrollBlockAt(panel: &mut AgentPanel, gridLine: i32, delta: i16) -> (r: bool)
    ensures
        (final(panel)@, r) == block_scrolled(old(panel)@, gridLine as int, delta as int),
{
    match panel.codeBlockAtGridLine(gridLine) {
        Some(id) => {
            panel.scrollCodeBlockH(id, delta);
            true
        },
        None => false,
    }
}

/// The conversation after the wheel turned along it. With Shift held, a code block
/// scrolls sideways instead.
pub open spec fn wheel_scrolled(p: PanelV, gridLine: int, up: bool, shift: bool) -> PanelV {
    let b = block_scrolled(
        p,
        gridLine,
        if up {
            -3
        } else {
            3
        },
    );
    if shift && b.1 {
        b.0
    } else if up {
        p.scrolled_up(3)
    } else {
        p.scrolled_down(3)
    }
}

/// Scrolls the conversation as the wheel turned along it.
pub fn wheelScroll(panel: &mut AgentPanel, gridLine: i32, up: bool, shift: bool)
    ensures
        final(panel)@ == wheel_scrolled(old(panel)@, gridLine as int, up, shift),
{
    let delta: i16 = if up {
        -3
    } else {
        3
    };
    if shift && scrollBlockAt(panel, gridLine, delta) {
        return;
    }
    if up {
        panel.scrollUp(3);
    } else {
        panel.scrollDown(3);
    }
}

/// The panel after the wheel turned sideways: the command of a prompt scrolls where
/// the mouse is on it, else the code block under the mouse.
pub open spec fn sideways(p: PanelV, onInput: bool, spot: Option<Spot>, left: bool) -> PanelV {
    let delta = if left {
        -3int
    } else {
        3int
    };
    if p.permit.pending && onInput {
        PanelV { permit: p.permit.scrolled(delta), ..p }
    } else {
        match spot {
            Some(s) => if s.panel is Agent {
                block_scrolled(p, s.gridLine as int, delta).0
            } else {
                p
            },
            None => p,
        }
    }
}

/// Scrolls sideways.
pub fn scrollSideways(panel: &mut AgentPanel, onInput: bool, spot: Option<Spot>, left: bool)
    ensures
        final(panel)@ == sideways(old(panel)@, onInput, spot, left),
{
    let delta: i16 = if left {
        -3
    } else {
        3
    };
    if panel.permit.pending && onInput {
        panel.scrollPermitCode(delta);
        return;
    }
    match spot {
        Some(s) => match s.panel {
            PanelId::Agent => {
                let _ = scrollBlockAt(panel, s.gridLine, delta);
            },
            _ => {},
        },
        None => {},
    }
}

impl DeskV {
    /// Whether `d`, `q` and `r` are what the wheel makes of the desk and the pointer,
    /// and what is left to do for it. A gesture stays on the axis that it began on.
    #[verifier::opaque]
    pub open spec fn wheeled(
        self,
        pointer: Pointer,
        m: MouseInput,
        spot: Option<Spot>,
        now: u64,
        d: DeskV,
        q: Pointer,
        r: MouseStep,
    ) -> bool {
        let axis = axis_of(m.kind);
        let p = self.deck.panel;
        let up = m.kind is ScrollUp;
        &&& q == (Pointer { lock: pointer.lock.after(axis, now), ..pointer })
        &&& if !pointer.lock.allows(axis, now) {
            r is Ignored && d == self
        } else {
            if axis is Horizontal {
                &&& r is Done
                &&& d == self.with_panel(
                    sideways(
                        p,
                        pointer.inputRect.holds(m.column, m.row),
                        spot,
                        m.kind is ScrollLeft,
                    ),
                )
            } else if spot matches Some(s) && s.panel is Agent {
                &&& r is Done
                &&& d == self.with_panel(
                    wheel_scrolled(p, (spot->0).gridLine as int, up, m.shift),
                )
            } else if spot matches Some(s) && s.panel is Terminal {
                &&& r == MouseStep::ScrollTerminal {
                    lines: if up {
                        3i32
                    } else {
                        -3i32 as i32
                    },
                    extend: pointer.selectingIn == Some(PanelId::Terminal),
                }
                &&& d == self
            } else {
                r is Done && d == self
            }
        }
    }
}

impl Desk {
    /// Handles the wheel. A gesture stays on the axis that it began on.
    pub fn wheel(&mut self, pointer: &mut Pointer, m: MouseInput, spot: Option<Spot>, now: u64) -> (r:
        MouseStep)
        requires
            m.kind is ScrollUp || m.kind is ScrollDown || m.kind is ScrollLeft || m.kind
                is ScrollRight,
        ensures
            old(self)@.wheeled(*old(pointer), m, spot, now, final(self)@, *final(pointer), r),
    {
        proof {
            reveal(DeskV::wheeled);
        }
        let up = m.kind == MouseKind::ScrollUp;
        let vertical = up || m.kind == MouseKind::ScrollDown;
        let axis = if vertical {
            ScrollAxis::Vertical
        } else {
            ScrollAxis::Horizontal
        };
        if !pointer.lock.allow(axis, now) {
            return MouseStep::Ignored;
        }
        if !vertical {
            let on = pointer.inputRect.holds(m.column, m.row);
            let left = m.kind == MouseKind::ScrollLeft;
            scrollSideways(&mut self.deck.panel, on, spot, left);
            return MouseStep::Done;
        }
        match spot {
            Some(s) => match s.panel {
                PanelId::Agent => {
                    wheelScroll(&mut self.deck.panel, s.gridLine, up, m.shift);
                    MouseStep::Done
                },
                PanelId::Terminal => {
                    let lines: i32 = if up {
                        3
                    } else {
                        -3
                    };
                    let extend = pointer.selectingIn == Some(PanelId::Terminal);
                    MouseStep::ScrollTerminal { lines, extend }
                },
                PanelId::Input => MouseStep::Done,
            },
            None => MouseStep::Done,
        }
    }

    /// Handles an event of the mouse that goes to what lies under it. `spot` is the
    /// place in the panel under the mouse.
    pub fn handleMouse(
        &mut self,
        pointer: &mut Pointer,
        m: MouseInput,
        spot: Option<Spot>,
        now: u64,
        out: &mut Vec<Effect>,
    ) -> (r: MouseStep)
        ensures
            match m.kind {
                MouseKind::DownLeft => {
                    if old(pointer).inputRect.holds(m.column, m.row) {
                        let p = old(self)@.deck.panel;
                        let c = prompt_click(p, old(pointer).inputRect, m.column, m.row, now);
                        if p.permit.pending {
                            &&& r is Done
                            &&& final(self)@ == old(self)@.with_panel(c.0)
                            &&& effects(final(out)@) == effects(old(out)@) + c.1
                            &&& *final(pointer) == *old(pointer)
                        } else {
                            &&& r == MouseStep::TextDown(
                                text_spot(old(pointer).inputRect, m.column, m.row, false),
                            )
                            &&& final(self)@ == (DeskV { focus: Focus::Agent, ..old(self)@ })
                            &&& effects(final(out)@) == effects(old(out)@)
                            &&& *final(pointer) == (Pointer {
                                selectingIn: Some(PanelId::Input),
                                ..*old(pointer)
                            })
                        }
                    } else {
                        match spot {
                            Some(s) => {
                                let c = press_click(old(self)@.deck.panel, s, now);
                                &&& begins(c.hit, s, m.alt, r)
                                &&& final(self)@ == old(self)@.pressed(s, c)
                                &&& effects(final(out)@) == effects(old(out)@) + c.out
                                &&& *final(pointer) == (Pointer {
                                    selectingIn: if c.hit is Free {
                                        Some(s.panel)
                                    } else {
                                        old(pointer).selectingIn
                                    },
                                    ..*old(pointer)
                                })
                            },
                            None => {
                                &&& r is Done
                                &&& final(self)@ == old(self)@
                                &&& effects(final(out)@) == effects(old(out)@)
                                &&& *final(pointer) == *old(pointer)
                            },
                        }
                    }
                },
                MouseKind::DragLeft => {
                    &&& r == (match old(pointer).selectingIn {
                        Some(p) => if p is Input {
                            MouseStep::TextDrag(
                                text_spot(old(pointer).inputRect, m.column, m.row, true),
                            )
                        } else {
                            MouseStep::Extend(p)
                        },
                        None => MouseStep::Done,
                    })
                    &&& final(self)@ == old(self)@
                    &&& *final(pointer) == *old(pointer)
                    &&& effects(final(out)@) == effects(old(out)@)
                },
                MouseKind::UpLeft => {
                    &&& r == (match old(pointer).selectingIn {
                        Some(p) => if p is Input {
                            MouseStep::TextUp
                        } else {
                            MouseStep::Finish(p)
                        },
                        None => MouseStep::Done,
                    })
                    &&& final(self)@ == old(self)@
                    &&& *final(pointer) == (Pointer { selectingIn: None, ..*old(pointer) })
                    &&& effects(final(out)@) == effects(old(out)@)
                },
                MouseKind::Moved => {
                    &&& r is Ignored
                    &&& final(self)@ == old(self)@
                    &&& *final(pointer) == *old(pointer)
                    &&& effects(final(out)@) == effects(old(out)@)
                },
                MouseKind::Other => {
                    &&& r is Ignored
                    &&& final(self)@ == old(self)@
                    &&& *final(pointer) == *old(pointer)
                    &&& effects(final(out)@) == effects(old(out)@)
                },
                _ => {
                    &&& old(self)@.wheeled(
                        *old(pointer),
                        m,
                        spot,
                        now,
                        final(self)@,
                        *final(pointer),
                        r,
                    )
                    &&& effects(final(out)@) == effects(old(out)@)
                },
            },
    {
        match m.kind {
            MouseKind::DownLeft => {
                let step = if pointer.inputRect.holds(m.column, m.row) {
                    self.pressInput(pointer.inputRect, m.column, m.row, now, out)
                } else {
                    match spot {
                        Some(s) => self.pressIn(s, m.alt, now, out),
                        None => MouseStep::Done,
                    }
                };
                pointer.began(&step);
                step
            },
            MouseKind::DragLeft => pointer.drag(m.column, m.row),
            MouseKind::UpLeft => pointer.release(),
            MouseKind::Moved => MouseStep::Ignored,
            MouseKind::Other => MouseStep::Ignored,
            _ => self.wheel(pointer, m, spot, now),
        }
    }
}

// ---- laws ----

/// No click reaches what lies under a panel that covers it.
pub proof fn law_covered_panes_get_no_clicks(d: DeskV, m: MouseInput)
    requires
        d.is_covered() || d.deck.open.subagents,
    ensures
        !(d.mouse_gate(m) is Through),
        !(d.mouse_gate(m) is Chip),
        d.hovered(m) == d.statusFocus,
        d.chip_effects(m) == Seq::<EffectV>::empty(),
{
}

} // verus!
