//! The keys: which part of the deck takes a key, and what the key does there.

use vstd::prelude::*;
use vstd::string::*;
use crate::agent_panel::entry::EntryV;
use crate::agent_panel::state::{ComposeV, PanelV, PermitV};
use crate::app::arrangement::Arrangement;
use crate::app::deck::{Deck, DeckV, Overlays, StoredAttachment};
use crate::app::effect::{Effect, EffectV, addEffect, effects};
use crate::app::pace::{presses_again, pressesAgain};
use crate::app::request::{
    Ask, PermitResponse, Reply, Request, RequestV, ResponseV, asks, chip_asks,
    openStatusChipPanel,
};
use crate::app::session::SettingsChange;
use crate::app::status_bar::ChipSpot;
use crate::app::terminal_input::{commandBytes, key_bytes, keyToBytes, utf8_text};
use crate::app::title::TitleV;
use crate::fork_picker::{ForkAction, ForkPicker};
use crate::jobs_panel::{JobsPanel, Mode, PanelAction};
use crate::keys::{KeyCode, KeyEvent};
use crate::text::{cat4, opt_text};

verus! {

/// Which panel has the focus.
#[derive(Clone, Copy, Debug, PartialEq, Eq, Structural)]
pub enum Focus {
    Terminal,
    Agent,
}

/// The deck and what the keys steer: the focus, the press that quits, the popup of
/// hotkeys, the status bar and the layout.
pub struct Desk {
    pub deck: Deck,
    pub focus: Focus,
    pub quitPress: Option<u64>,
    pub help: bool,
    pub statusFocus: Option<usize>,
    pub chips: Vec<ChipSpot>,
    pub arrangement: Arrangement,
}

/// The desk as a value.
pub ghost struct DeskV {
    pub deck: DeckV,
    pub focus: Focus,
    pub quitPress: Option<u64>,
    pub help: bool,
    pub statusFocus: Option<usize>,
    pub chips: Seq<ChipSpot>,
    pub arrangement: Arrangement,
}

impl View for Desk {
    type V = DeskV;

    open spec fn view(&self) -> DeskV {
        DeskV {
            deck: self.deck@,
            focus: self.focus,
            quitPress: self.quitPress,
            help: self.help,
            statusFocus: self.statusFocus,
            chips: self.chips@,
            arrangement: self.arrangement,
        }
    }
}

impl DeskV {
    /// The deck and the panel of the layout are well-formed.
    pub open spec fn wf(self) -> bool {
        self.deck.wf() && self.arrangement.wf()
    }

    pub open spec fn with_deck(self, deck: DeckV) -> DeskV {
        DeskV { deck, ..self }
    }

    pub open spec fn with_panel(self, panel: PanelV) -> DeskV {
        self.with_deck(self.deck.with_panel(panel))
    }

    /// Whether a panel covers the others, so that keys and the mouse go to it.
    pub open spec fn is_covered(self) -> bool {
        ||| self.deck.open.sessions
        ||| self.deck.open.rewind
        ||| self.deck.forks is Some
        ||| self.deck.open.mcp
        ||| self.deck.open.lsp
        ||| self.deck.open.model
        ||| self.deck.open.permissions
        ||| self.deck.tasks is Some
        ||| self.deck.open.log
        ||| self.arrangement.panel is Some
    }
}

impl Desk {
    /// Whether a panel covers the others.
    pub fn isCovered(&self) -> (r: bool)
        ensures
            r == self@.is_covered(),
    {
        self.deck.open.sessions || self.deck.open.rewind || self.deck.forks.is_some()
            || self.deck.open.mcp || self.deck.open.lsp || self.deck.open.model
            || self.deck.open.permissions || self.deck.tasks.is_some() || self.deck.open.log
            || self.arrangement.panel.is_some()
    }
}

/// Whether `key` is the character `c` with Ctrl held.
#[verifier::allow_in_spec]
pub fn isCtrl(key: KeyEvent, c: char) -> bool
    returns
        key.modifiers.control && key.code == KeyCode::Char(c),
{
    key.modifiers.control && key.code == KeyCode::Char(c)
}

// ---- keys that count everywhere ----

/// What a key that counts everywhere does.
#[derive(Clone, Copy, Debug, PartialEq, Eq, Structural)]
pub enum Global {
    /// It ends the deck.
    Quit,
    /// The screen is drawn anew from scratch.
    Redraw,
    /// It is done with.
    Taken,
    /// It is for something else.
    Pass,
}

impl DeskV {
    /// Whether the last turn failed and the key brings it back.
    pub open spec fn recovers(self, key: KeyEvent) -> bool {
        self.deck.panel.compose.errorHint && (isCtrl(key, 'r') || isCtrl(key, ' '))
    }

    /// What a key that counts everywhere does.
    pub open spec fn global(self, key: KeyEvent, now: u64) -> Global {
        if isCtrl(key, 'q') {
            if presses_again(self.quitPress, now) {
                Global::Quit
            } else {
                Global::Taken
            }
        } else if isCtrl(key, 'l') {
            Global::Redraw
        } else if isCtrl(key, 'o') || isCtrl(key, 'h') || self.help || self.recovers(key) {
            Global::Taken
        } else {
            Global::Pass
        }
    }

    /// Whether a key opens or closes the panel of the layout.
    pub open spec fn toggles_layout(self, key: KeyEvent) -> bool {
        isCtrl(key, 'o')
    }

    /// The desk after a key that counts everywhere, but for the panel of the layout.
    pub open spec fn after_global(self, key: KeyEvent, now: u64) -> DeskV {
        if isCtrl(key, 'q') {
            if presses_again(self.quitPress, now) {
                self
            } else {
                DeskV { quitPress: Some(now), ..self }
            }
        } else if isCtrl(key, 'l') || isCtrl(key, 'o') {
            self
        } else if isCtrl(key, 'h') {
            DeskV { help: !self.help, ..self }
        } else if self.help {
            DeskV { help: false, ..self }
        } else if self.recovers(key) {
            self.with_panel(
                PanelV {
                    compose: ComposeV { errorHint: false, ..self.deck.panel.compose },
                    ..self.deck.panel
                },
            )
        } else {
            self
        }
    }

    /// What a key that counts everywhere brings about outside.
    pub open spec fn global_effects(self, key: KeyEvent) -> Seq<EffectV> {
        if !self.help && self.recovers(key) && !isCtrl(key, 'q') {
            seq![
                EffectV::Cancel(false),
                EffectV::Ask(
                    if isCtrl(key, 'r') {
                        RequestV::RetryLastTurn
                    } else {
                        RequestV::ContinueLastTurn
                    },
                    Reply::Ack,
                ),
            ]
        } else {
            Seq::empty()
        }
    }
}

impl Desk {
    /// Handles a key that counts everywhere.
    pub fn globalKey(&mut self, key: KeyEvent, now: u64, out: &mut Vec<Effect>) -> (r: Global)
        ensures
            r == old(self)@.global(key, now),
            final(self)@ == (DeskV {
                arrangement: final(self)@.arrangement,
                ..old(self)@.after_global(key, now)
            }),
            old(self)@.toggles_layout(key) ==> {
                &&& final(self).arrangement.same_but_panel(old(self).arrangement)
                &&& old(self).arrangement.panel is Some ==> final(self).arrangement.panel is None
                &&& old(self).arrangement.panel is None ==> final(self).arrangement.just_opened()
            },
            !old(self)@.toggles_layout(key) ==> final(self).arrangement == old(self).arrangement,
            effects(final(out)@) == effects(old(out)@) + old(self)@.global_effects(key),
    {
        proof {
            assert(effects(out@) + Seq::<EffectV>::empty() =~= effects(out@));
        }
        if isCtrl(key, 'q') {
            if pressesAgain(self.quitPress, now) {
                return Global::Quit;
            }
            self.quitPress = Some(now);
            return Global::Taken;
        }
        if isCtrl(key, 'l') {
            return Global::Redraw;
        }
        if isCtrl(key, 'o') {
            self.arrangement.toggle();
            return Global::Taken;
        }
        if isCtrl(key, 'h') {
            self.help = !self.help;
            return Global::Taken;
        }
        if self.help {
            self.help = false;
            return Global::Taken;
        }
        let retry = isCtrl(key, 'r');
        if self.deck.panel.compose.errorHint && (retry || isCtrl(key, ' ')) {
            self.deck.panel.compose.errorHint = false;
            addEffect(out, Effect::Cancel(false));
            let q = if retry {
                Request::RetryLastTurn
            } else {
                Request::ContinueLastTurn
            };
            addEffect(out, Effect::Ask(q, Reply::Ack));
            proof {
                assert(effects(out@) =~= effects(old(out)@) + old(self)@.global_effects(key));
            }
            return Global::Taken;
        }
        Global::Pass
    }

    /// The hint that another press quits goes once it is too late for one. Returns
    /// whether it went.
    pub fn dropQuitHint(&mut self, now: u64) -> (r: bool)
        ensures
            r == (old(self)@.quitPress is Some && !presses_again(old(self)@.quitPress, now)),
            final(self)@ == (if r {
                DeskV { quitPress: None, ..old(self)@ }
            } else {
                old(self)@
            }),
    {
        if self.quitPress.is_none() || pressesAgain(self.quitPress, now) {
            return false;
        }
        self.quitPress = None;
        true
    }

    /// The popup of subagents saw a key: `close` tells that it closes, `consumed`
    /// that it took the key. Returns whether the key is done with.
    pub fn popupKey(&mut self, close: bool, consumed: bool) -> (r: bool)
        ensures
            r == (old(self)@.deck.open.subagents && (close || consumed)),
            final(self)@ == old(self)@.with_deck(
                DeckV {
                    open: Overlays {
                        subagents: old(self)@.deck.open.subagents && !close,
                        ..old(self)@.deck.open
                    },
                    ..old(self)@.deck
                },
            ),
    {
        if !self.deck.open.subagents {
            return false;
        }
        if close {
            self.deck.open.subagents = false;
        }
        close || consumed
    }
}

// ---- who takes a key ----

/// Who takes a key.
#[derive(Clone, Copy, Debug, PartialEq, Eq, Structural)]
pub enum Route {
    /// It cancels the running turn.
    Cancel,
    /// It moves the focus.
    SwitchFocus,
    /// It copies what is selected.
    Copy,
    Permit,
    Sessions,
    Tasks,
    Log,
    Rewind,
    Forks,
    Mcp,
    Layout,
    Lsp,
    Model,
    Permissions,
    Status,
    Terminal,
    Agent,
}

/// Whether the status bar takes a key while one of its chips is focused.
pub open spec fn steers_status(code: KeyCode) -> bool {
    ||| code == KeyCode::Left
    ||| code == KeyCode::Right
    ||| code == KeyCode::Esc
    ||| code == KeyCode::Up
    ||| code == KeyCode::Enter
    ||| code == KeyCode::Char(' ')
}

impl DeskV {
    /// Who takes a key that counts nowhere else. A prompt comes before every panel,
    /// and the panels come in a fixed order.
    pub open spec fn route(self, key: KeyEvent) -> Route {
        let d = self.deck;
        if key.code == KeyCode::Esc && d.panel.turnActive {
            Route::Cancel
        } else if key.code == KeyCode::Tab && !self.is_covered() && !(self.focus is Agent
            && d.panel.compose.completion is Some) {
            Route::SwitchFocus
        } else if key.modifiers.superKey && key.code == KeyCode::Char('c') {
            Route::Copy
        } else if d.panel.permit.pending {
            Route::Permit
        } else if d.open.sessions {
            Route::Sessions
        } else if d.tasks is Some {
            Route::Tasks
        } else if d.open.log {
            Route::Log
        } else if d.open.rewind {
            Route::Rewind
        } else if d.forks is Some {
            Route::Forks
        } else if d.open.mcp {
            Route::Mcp
        } else if self.arrangement.panel is Some {
            Route::Layout
        } else if d.open.lsp {
            Route::Lsp
        } else if d.open.model {
            Route::Model
        } else if d.open.permissions {
            Route::Permissions
        } else if self.statusFocus is Some && steers_status(key.code) {
            Route::Status
        } else if self.focus is Terminal {
            Route::Terminal
        } else {
            Route::Agent
        }
    }
}

impl Desk {
    /// Who takes a key that counts nowhere else.
    pub fn route(&self, key: KeyEvent) -> (r: Route)
        ensures
            r == self@.route(key),
    {
        let d = &self.deck;
        if key.code == KeyCode::Esc && d.panel.isActive() {
            Route::Cancel
        } else if key.code == KeyCode::Tab && !self.isCovered() && !(self.focus == Focus::Agent
            && d.panel.completionActive()) {
            Route::SwitchFocus
        } else if key.modifiers.superKey && key.code == KeyCode::Char('c') {
            Route::Copy
        } else if d.panel.permit.pending {
            Route::Permit
        } else if d.open.sessions {
            Route::Sessions
        } else if d.tasks.is_some() {
            Route::Tasks
        } else if d.open.log {
            Route::Log
        } else if d.open.rewind {
            Route::Rewind
        } else if d.forks.is_some() {
            Route::Forks
        } else if d.open.mcp {
            Route::Mcp
        } else if self.arrangement.panel.is_some() {
            Route::Layout
        } else if d.open.lsp {
            Route::Lsp
        } else if d.open.model {
            Route::Model
        } else if d.open.permissions {
            Route::Permissions
        } else if self.statusFocus.is_some() && (key.code == KeyCode::Left || key.code
            == KeyCode::Right || key.code == KeyCode::Esc || key.code == KeyCode::Up || key.code
            == KeyCode::Enter || key.code == KeyCode::Char(' ')) {
            Route::Status
        } else {
            match self.focus {
                Focus::Terminal => Route::Terminal,
                Focus::Agent => Route::Agent,
            }
        }
    }

    /// Cancels the running turn.
    pub fn cancelTurn(&mut self, out: &mut Vec<Effect>)
        ensures
            final(self)@ == old(self)@.with_panel(old(self)@.deck.panel.turn_cancelled()),
            effects(final(out)@) == effects(old(out)@).push(EffectV::Cancel(true)),
    {
        addEffect(out, Effect::Cancel(true));
        self.deck.panel.finalizeCancelled();
    }

    /// Moves the focus to the other panel.
    pub fn switchFocus(&mut self)
        ensures
            final(self)@ == (DeskV {
                focus: match old(self)@.focus {
                    Focus::Terminal => Focus::Agent,
                    Focus::Agent => Focus::Terminal,
                },
                ..old(self)@
            }),
    {
        self.focus = match self.focus {
            Focus::Terminal => Focus::Agent,
            Focus::Agent => Focus::Terminal,
        };
    }
}

/// What is copied when the user asks for it.
#[derive(Debug)]
pub enum CopySource {
    /// What is selected in the input.
    Text(String),
    Agent,
    Terminal,
    Nothing,
}

/// What is copied when the user asks for it: what is selected in the input, else in
/// the conversation, else in the terminal.
pub fn copySource(inputText: Option<String>, agent: bool, terminal: bool) -> (r: CopySource)
    ensures
        match inputText {
            Some(t) => r == CopySource::Text(t),
            None => r == (if agent {
                CopySource::Agent
            } else if terminal {
                CopySource::Terminal
            } else {
                CopySource::Nothing
            }),
        },
{
    match inputText {
        Some(t) => CopySource::Text(t),
        None => {
            if agent {
                CopySource::Agent
            } else if terminal {
                CopySource::Terminal
            } else {
                CopySource::Nothing
            }
        },
    }
}

// ---- the prompt ----

/// What is said where a blank pattern would be allowed for ever.
pub open spec fn blank_allow() -> Seq<char> {
    "\u{26A0}\u{FE0E} cannot persist an empty pattern \u{2014} type one in the custom field first, or press y to allow once."@
}

/// What is said where a blank pattern would be denied for ever.
pub open spec fn blank_deny() -> Seq<char> {
    "\u{26A0}\u{FE0E} cannot persist an empty pattern \u{2014} type one in the custom field first, or press n to deny once."@
}

impl DeckV {
    /// The answer that a key gives to the prompt.
    pub open spec fn permit_answer(self, key: KeyEvent) -> Option<ResponseV> {
        let pattern = self.panel.permit.pattern();
        if key.code == KeyCode::Char('y') {
            Some(ResponseV::Allow)
        } else if key.code == KeyCode::Char('n') {
            Some(ResponseV::Deny)
        } else if key.code == KeyCode::Char('A') && pattern is Some {
            Some(ResponseV::AlwaysAllow(pattern->0))
        } else if key.code == KeyCode::Char('D') && pattern is Some {
            Some(ResponseV::AlwaysDeny(pattern->0))
        } else {
            None
        }
    }

    /// The panel after the prompt was answered.
    #[verifier::opaque]
    pub open spec fn panel_answered(self, a: ResponseV) -> PanelV {
        match a {
            ResponseV::Allow => self.panel.approved(),
            ResponseV::AlwaysAllow(_) => self.panel.approved(),
            ResponseV::Deny => self.panel.prompt_closed(),
            ResponseV::AlwaysDeny(_) => self.panel.prompt_closed(),
        }
    }

    /// The deck after the prompt was answered. What was flagged in the title is seen.
    pub open spec fn answered(self, a: ResponseV) -> DeckV {
        DeckV {
            panel: self.panel_answered(a),
            title: TitleV { unseenPermit: false, ..self.title },
            ..self
        }
    }

    /// What an answer brings about outside.
    #[verifier::opaque]
    pub open spec fn answer_effects(self, a: ResponseV) -> Seq<EffectV> {
        let t = TitleV { unseenPermit: false, ..self.title };
        seq![EffectV::Answer(a)] + (if self.title.unseenPermit {
            seq![EffectV::Title(t.text(t.seen_glyph(self.panel.turnActive)))]
        } else {
            Seq::empty()
        })
    }

    /// The deck after a key at the prompt that does not answer it.
    #[verifier::opaque]
    pub open spec fn at_prompt(self, key: KeyEvent) -> DeckV {
        let p = self.panel;
        match key.code {
            KeyCode::Up => if key.modifiers.shift {
                self.with_panel(PanelV { permit: p.permit.previous(), ..p })
            } else {
                self
            },
            KeyCode::Down => if key.modifiers.shift {
                self.with_panel(PanelV { permit: p.permit.next(), ..p })
            } else {
                self
            },
            KeyCode::Backspace => if p.permit.editing {
                self.with_panel(
                    PanelV {
                        permit: PermitV {
                            custom: if p.permit.custom.len() > 0 {
                                p.permit.custom.drop_last()
                            } else {
                                p.permit.custom
                            },
                            ..p.permit
                        },
                        ..p
                    },
                )
            } else {
                self
            },
            KeyCode::Char(c) => if c == 'A' {
                self.with_panel(p.with_entry(EntryV::CommandResult(blank_allow())))
            } else if c == 'D' {
                self.with_panel(p.with_entry(EntryV::CommandResult(blank_deny())))
            } else if p.permit.editing {
                self.with_panel(
                    PanelV {
                        permit: PermitV { custom: p.permit.custom.push(c), ..p.permit },
                        ..p
                    },
                )
            } else if (c == 'v' || c == 'V') && p.subs.active.len() > 0 {
                DeckV { open: Overlays { subagents: true, ..self.open }, ..self }
            } else {
                self
            },
            _ => self,
        }
    }
}

impl Desk {
    /// Closes the prompt as the answer says.
    fn closePrompt(&mut self, a: &PermitResponse)
        ensures
            final(self)@ == old(self)@.with_panel(old(self)@.deck.panel_answered(a@)),
    {
        proof {
            reveal(DeckV::panel_answered);
        }
        let allow = match a {
            PermitResponse::Allow => true,
            PermitResponse::AlwaysAllow { .. } => true,
            PermitResponse::Deny => false,
            PermitResponse::AlwaysDeny { .. } => false,
        };
        if allow {
            self.deck.panel.approvePending();
        } else {
            self.deck.panel.denyPending();
        }
    }

    /// Answers the prompt.
    fn answerPermit(&mut self, a: PermitResponse, out: &mut Vec<Effect>)
        ensures
            final(self)@ == old(self)@.with_deck(old(self)@.deck.answered(a@)),
            effects(final(out)@) == effects(old(out)@) + old(self)@.deck.answer_effects(a@),
    {
        proof {
            reveal(DeckV::answer_effects);
        }
        let active = self.deck.panel.isActive();
        self.closePrompt(&a);
        addEffect(out, Effect::Answer(a));
        if self.deck.title.unseenPermit {
            self.deck.title.unseenPermit = false;
            addEffect(out, Effect::Title(self.deck.title.seenTitle(active)));
        }
        proof {
            assert(effects(out@) =~= effects(old(out)@) + old(self)@.deck.answer_effects(a@));
        }
    }

    /// Handles a character at the prompt that does not answer it.
    fn promptChar(&mut self, key: KeyEvent, c: char)
        requires
            key.code == KeyCode::Char(c),
            c != 'A',
            c != 'D',
        ensures
            final(self)@ == old(self)@.with_deck(old(self)@.deck.at_prompt(key)),
    {
        proof {
            reveal(DeckV::at_prompt);
        }
        if self.deck.panel.isEditingCustom() {
            self.deck.panel.customPatternInsert(c);
        } else if c == 'v' || c == 'V' {
            proof {
                assert(self@.deck.panel.subs.active.len() == self.deck.panel.subs.active@.len());
            }
            if self.deck.panel.subs.active.len() > 0 {
                self.deck.open.subagents = true;
            }
        }
    }

    /// Says that a blank pattern cannot be kept.
    fn refuseBlank(&mut self, key: KeyEvent)
        requires
            key.code == KeyCode::Char('A') || key.code == KeyCode::Char('D'),
        ensures
            final(self)@ == old(self)@.with_deck(old(self)@.deck.at_prompt(key)),
    {
        proof {
            reveal(DeckV::at_prompt);
        }
        if key.code == KeyCode::Char('A') {
            self.deck.panel.pushNotice(
                "\u{26A0}\u{FE0E} cannot persist an empty pattern \u{2014} type one in the custom field first, or press y to allow once.",
            );
        } else {
            self.deck.panel.pushNotice(
                "\u{26A0}\u{FE0E} cannot persist an empty pattern \u{2014} type one in the custom field first, or press n to deny once.",
            );
        }
    }

    /// Handles any other key at the prompt.
    fn promptMove(&mut self, key: KeyEvent)
        requires
            !(key.code is Char),
        ensures
            final(self)@ == old(self)@.with_deck(old(self)@.deck.at_prompt(key)),
    {
        proof {
            reveal(DeckV::at_prompt);
        }
        match key.code {
            KeyCode::Up => {
                if key.modifiers.shift {
                    self.deck.panel.prevPattern();
                }
            },
            KeyCode::Down => {
                if key.modifiers.shift {
                    self.deck.panel.nextPattern();
                }
            },
            KeyCode::Backspace => {
                if self.deck.panel.isEditingCustom() {
                    self.deck.panel.customPatternBackspace();
                }
            },
            _ => {},
        }
    }

    /// Handles a key at the prompt. An empty pattern is never kept.
    pub fn permitKey(&mut self, key: KeyEvent, out: &mut Vec<Effect>)
        ensures
            match old(self)@.deck.permit_answer(key) {
                Some(a) => {
                    &&& final(self)@ == old(self)@.with_deck(old(self)@.deck.answered(a))
                    &&& effects(final(out)@) == effects(old(out)@) + old(
                        self,
                    )@.deck.answer_effects(a)
                },
                None => {
                    &&& final(self)@ == old(self)@.with_deck(old(self)@.deck.at_prompt(key))
                    &&& effects(final(out)@) == effects(old(out)@)
                },
            },
    {
        let c: char = match key.code {
            KeyCode::Char(c) => c,
            _ => {
                self.promptMove(key);
                return;
            },
        };
        if c == 'y' {
            self.answerPermit(PermitResponse::Allow, out);
        } else if c == 'n' {
            self.answerPermit(PermitResponse::Deny, out);
        } else if c == 'A' || c == 'D' {
            match self.deck.panel.selectedPattern() {
                Some(pattern) => {
                    if c == 'A' {
                        self.answerPermit(PermitResponse::AlwaysAllow { pattern }, out);
                    } else {
                        self.answerPermit(PermitResponse::AlwaysDeny { pattern }, out);
                    }
                },
                None => {
                    self.refuseBlank(key);
                },
            }
        } else {
            self.promptChar(key, c);
        }
    }
}

// ---- panels that cover the others ----

/// The open panels without the one that takes the keys of `r`.
pub open spec fn without_panel(o: Overlays, r: Route) -> Overlays {
    match r {
        Route::Sessions => Overlays { sessions: false, ..o },
        Route::Log => Overlays { log: false, ..o },
        Route::Rewind => Overlays { rewind: false, ..o },
        Route::Mcp => Overlays { mcp: false, ..o },
        Route::Lsp => Overlays { lsp: false, ..o },
        Route::Model => Overlays { model: false, ..o },
        Route::Permissions => Overlays { permissions: false, ..o },
        _ => o,
    }
}

/// The panel of tasks after a key; none where the key closes it.
pub open spec fn tasks_after(p: JobsPanel, key: KeyEvent) -> Option<JobsPanel> {
    if p.on_key(key).1 is Close {
        None
    } else {
        Some(p.on_key(key).0)
    }
}

/// What an action of the panel of tasks brings about outside.
pub open spec fn action_effects(a: PanelAction, p: JobsPanel) -> Seq<EffectV> {
    match a {
        PanelAction::Kill(id) => seq![EffectV::Ask(RequestV::KillTask(id), Reply::Ack)],
        PanelAction::Inspect(id) => seq![
            EffectV::Ask(RequestV::GetTaskOutput { id, sinceLine: None }, Reply::OutputOpen),
        ],
        PanelAction::Refetch(id) => seq![
            EffectV::FetchOutput {
                id,
                sinceLine: match p.mode {
                    Mode::Inspect(s) => s.requestedSinceLine,
                    Mode::List => None,
                },
            },
        ],
        _ => Seq::empty(),
    }
}

/// Hands a key to the panel of tasks.
fn keyTasks(p: JobsPanel, key: KeyEvent, out: &mut Vec<Effect>) -> (r: Option<JobsPanel>)
    ensures
        r == tasks_after(p, key),
        effects(final(out)@) == effects(old(out)@) + action_effects(
            p.on_key(key).1,
            p.on_key(key).0,
        ),
{
    let mut q = p;
    let a = q.handleKey(key);
    match a {
        PanelAction::Kill(id) => {
            addEffect(out, Effect::Ask(Request::KillTask { id }, Reply::Ack));
        },
        PanelAction::Inspect(id) => {
            addEffect(
                out,
                Effect::Ask(Request::GetTaskOutput { id, sinceLine: None }, Reply::OutputOpen),
            );
        },
        PanelAction::Refetch(id) => {
            addEffect(out, Effect::FetchOutput { id, sinceLine: q.inspectorSinceLine() });
        },
        _ => {},
    }
    proof {
        assert(effects(out@) =~= effects(old(out)@) + action_effects(a, q));
    }
    match a {
        PanelAction::Close => None,
        _ => Some(q),
    }
}

/// What a key in the picker of forks brings about outside.
pub open spec fn fork_effects(p: ForkPicker, key: KeyEvent) -> Seq<EffectV> {
    if p.state is Browsing && key.code == KeyCode::Enter && p.selected < p.rows@.len() {
        seq![
            EffectV::Ask(
                RequestV::SwitchFork(p.rows@[p.selected as int].forkId@),
                Reply::Ack,
            ),
        ]
    } else {
        Seq::empty()
    }
}

/// Hands a key to the picker of forks.
fn keyForks(p: ForkPicker, key: KeyEvent, out: &mut Vec<Effect>) -> (r: Option<ForkPicker>)
    requires
        p.wf(),
    ensures
        r == (if key.code == KeyCode::Esc {
            None
        } else {
            Some(p.after_key(key.code))
        }),
        effects(final(out)@) == effects(old(out)@) + fork_effects(p, key),
{
    let mut q = p;
    let mut close = false;
    match q.handleKey(key) {
        ForkAction::Stay => {},
        ForkAction::Close => {
            close = true;
        },
        ForkAction::Switch(forkId) => {
            addEffect(out, Effect::Ask(Request::SwitchFork { forkId }, Reply::Ack));
        },
    }
    proof {
        assert(effects(out@) =~= effects(old(out)@) + fork_effects(p, key));
    }
    if close {
        None
    } else {
        Some(q)
    }
}

impl DeskV {
    /// The desk after a key in the panel of tasks.
    pub open spec fn after_tasks(self, key: KeyEvent) -> DeskV {
        self.with_deck(DeckV { tasks: tasks_after(self.deck.tasks->0, key), ..self.deck })
    }

    /// What a key in the panel of tasks brings about outside.
    pub open spec fn tasks_effects(self, key: KeyEvent) -> Seq<EffectV> {
        let r = self.deck.tasks->0.on_key(key);
        action_effects(r.1, r.0)
    }

    /// The desk after a key in the picker of forks.
    pub open spec fn after_forks(self, key: KeyEvent) -> DeskV {
        self.with_deck(
            DeckV {
                forks: if key.code == KeyCode::Esc {
                    None
                } else {
                    Some(self.deck.forks->0.after_key(key.code))
                },
                ..self.deck
            },
        )
    }
}

/// What the user chose in the picker of rewinds.
#[derive(Debug)]
pub struct RewindChoice {
    pub target: String,
    pub userMessage: Option<String>,
    pub attachments: Option<Vec<StoredAttachment>>,
    /// Whether the conversation so far is kept as a fork.
    pub saveFork: bool,
}

impl Desk {
    /// Hands a key to the panel of tasks.
    pub fn tasksKey(&mut self, key: KeyEvent, out: &mut Vec<Effect>)
        requires
            old(self)@.deck.tasks is Some,
        ensures
            final(self)@ == old(self)@.after_tasks(key),
            effects(final(out)@) == effects(old(out)@) + old(self)@.tasks_effects(key),
    {
        match self.deck.tasks.take() {
            Some(p) => {
                self.deck.tasks = keyTasks(p, key, out);
            },
            None => {},
        }
    }

    /// Hands a key to the picker of forks.
    pub fn forksKey(&mut self, key: KeyEvent, out: &mut Vec<Effect>)
        requires
            old(self)@.deck.forks is Some,
            old(self)@.deck.forks->0.wf(),
        ensures
            final(self)@ == old(self)@.after_forks(key),
            effects(final(out)@) == effects(old(out)@) + fork_effects(
                old(self)@.deck.forks->0,
                key,
            ),
    {
        match self.deck.forks.take() {
            Some(p) => {
                self.deck.forks = keyForks(p, key, out);
            },
            None => {},
        }
    }

    /// The user chose a session: it is resumed, and the picker stays open until
    /// that is answered.
    pub fn resumeChosen(&self, sessionId: String, out: &mut Vec<Effect>)
        ensures
            effects(final(out)@) == effects(old(out)@).push(
                EffectV::Ask(RequestV::ResumeSession(sessionId@), Reply::Resumed),
            ),
    {
        addEffect(out, Effect::Ask(Request::ResumeSession { sessionId }, Reply::Resumed));
    }

    /// The user chose where to rewind to: what goes back into the input is kept
    /// until that is done.
    pub fn rewindChosen(&mut self, c: RewindChoice, out: &mut Vec<Effect>)
        ensures
            final(self)@.deck.rewind.message == opt_text(c.userMessage),
            final(self)@.deck.rewind.attachments == (match c.attachments {
                Some(a) => Some(a@),
                None => None,
            }),
            final(self)@ == old(self)@.with_deck(
                DeckV { rewind: final(self)@.deck.rewind, ..old(self)@.deck },
            ),
            effects(final(out)@) == effects(old(out)@).push(
                EffectV::Ask(
                    RequestV::Rewind { target: c.target@, saveFork: c.saveFork },
                    Reply::Ack,
                ),
            ),
    {
        self.deck.rewind.message = c.userMessage;
        self.deck.rewind.attachments = c.attachments;
        addEffect(
            out,
            Effect::Ask(
                Request::Rewind { target: c.target, saveFork: c.saveFork },
                Reply::Ack,
            ),
        );
    }

    /// The user wants a language server installed: its command runs in the terminal.
    pub fn installChosen(&mut self, serverId: &str, command: &str, out: &mut Vec<Effect>)
        ensures
            final(self)@ == old(self)@.with_deck(
                DeckV {
                    panel: old(self)@.deck.panel.answered(
                        EntryV::CommandResult(
                            "\u{2699}\u{FE0E} Installing "@ + serverId@ + ": "@ + command@,
                        ),
                    ),
                    open: Overlays { lsp: false, ..old(self)@.deck.open },
                    ..old(self)@.deck
                },
            ),
            effects(final(out)@) == effects(old(out)@).push(
                EffectV::SendToTerminal(utf8_text(command@).push(0x0Au8)),
            ),
    {
        self.deck.open.lsp = false;
        let text = cat4("\u{2699}\u{FE0E} Installing ", serverId, ": ", command);
        self.deck.panel.pushCommandResult(text.as_str());
        addEffect(out, Effect::SendToTerminal(commandBytes(command)));
    }

    /// The user wants to see what models a provider offers.
    pub fn discoverChosen(&self, provider: String, out: &mut Vec<Effect>)
        ensures
            effects(final(out)@) == effects(old(out)@).push(
                EffectV::Ask(RequestV::DiscoverModels(provider@), Reply::Catalog),
            ),
    {
        addEffect(out, Effect::Ask(Request::DiscoverModels { provider }, Reply::Catalog));
    }

    /// The user changed the model settings. The panel of models stays open, and only a
    /// failure is told.
    pub fn settingsChosen(&self, c: SettingsChange, out: &mut Vec<Effect>)
        ensures
            effects(final(out)@) == effects(old(out)@).push(
                EffectV::Ask(RequestV::ChangeModels(c), Reply::SilentAck),
            ),
    {
        addEffect(out, Effect::Ask(Request::ChangeModels(c), Reply::SilentAck));
    }

    /// A panel that covers the others was closed.
    pub fn panelClosed(&mut self, r: Route)
        ensures
            final(self)@ == old(self)@.with_deck(
                DeckV { open: without_panel(old(self)@.deck.open, r), ..old(self)@.deck },
            ),
    {
        let o = self.deck.open;
        self.deck.open = match r {
            Route::Sessions => Overlays { sessions: false, ..o },
            Route::Log => Overlays { log: false, ..o },
            Route::Rewind => Overlays { rewind: false, ..o },
            Route::Mcp => Overlays { mcp: false, ..o },
            Route::Lsp => Overlays { lsp: false, ..o },
            Route::Model => Overlays { model: false, ..o },
            Route::Permissions => Overlays { permissions: false, ..o },
            _ => o,
        };
    }

    /// The user wants the permissions saved.
    pub fn permissionsChosen(&mut self, out: &mut Vec<Effect>)
        ensures
            final(self)@ == old(self)@.with_deck(
                DeckV {
                    open: Overlays { permissions: false, ..old(self)@.deck.open },
                    ..old(self)@.deck
                },
            ),
            effects(final(out)@) == effects(old(out)@).push(
                EffectV::Ask(RequestV::SavePermissions, Reply::Ack),
            ),
    {
        self.deck.open.permissions = false;
        addEffect(out, Effect::Ask(Request::SavePermissions, Reply::Ack));
    }
}

// ---- the status bar ----

/// Requests as effects.
pub open spec fn ask_effects(a: Seq<(RequestV, Reply)>) -> Seq<EffectV> {
    Seq::new(a.len(), |i: int| EffectV::Ask(a[i].0, a[i].1))
}

/// Adds requests to what is to be done.
pub fn addAsks(v: Vec<Ask>, out: &mut Vec<Effect>)
    ensures
        effects(final(out)@) == effects(old(out)@) + ask_effects(asks(v@)),
{
    let mut v = v;
    let ghost all = asks(v@);
    let ghost before = effects(out@);
    proof {
        assert(before =~= before + ask_effects(all.take(0)));
    }
    let ghost mut n: int = 0;
    while v.len() > 0
        invariant
            0 <= n <= all.len(),
            asks(v@) == all.skip(n),
            effects(out@) == before + ask_effects(all.take(n)),
        decreases v@.len(),
    {
        let ghost was = v@;
        let a = v.remove(0);
        proof {
            assert(asks(was).len() == was.len());
            assert(asks(was) == all.skip(n));
            assert(asks(was)[0] == all.skip(n)[0]);
            assert(asks(v@) =~= all.skip(n + 1)) by {
                assert forall|i: int| 0 <= i < asks(v@).len() implies asks(v@)[i] == all.skip(
                    n + 1,
                )[i] by {
                    assert(v@[i] == was[i + 1]);
                    assert(asks(was)[i + 1] == all.skip(n)[i + 1]);
                }
            }
        }
        addEffect(out, Effect::Ask(a.request, a.reply));
        proof {
            assert(ask_effects(all.take(n + 1)) =~= ask_effects(all.take(n)).push(
                EffectV::Ask(all[n].0, all[n].1),
            ));
            assert(effects(out@) =~= before + ask_effects(all.take(n + 1)));
            n = n + 1;
        }
    }
    proof {
        assert(all.take(n) =~= all);
    }
}

impl DeskV {
    /// The focused chip after a key.
    pub open spec fn status_focus_after(self, key: KeyEvent) -> Option<usize> {
        let i = self.statusFocus->0;
        if key.code == KeyCode::Left {
            Some(
                if i > 0 {
                    (i - 1) as usize
                } else {
                    i
                },
            )
        } else if key.code == KeyCode::Right {
            Some(
                if i + 1 < self.chips.len() {
                    (i + 1) as usize
                } else {
                    i
                },
            )
        } else {
            None
        }
    }

    /// What a key on the status bar asks for.
    pub open spec fn status_asks(self, key: KeyEvent) -> Seq<(RequestV, Reply)> {
        if (key.code == KeyCode::Enter || key.code == KeyCode::Char(' '))
            && self.statusFocus->0 < self.chips.len() {
            chip_asks(self.chips[self.statusFocus->0 as int].kind)
        } else {
            Seq::empty()
        }
    }
}

impl Desk {
    /// Handles a key while a chip of the status bar is focused: the arrows move
    /// along the chips, Enter opens one, and anything else leaves the bar.
    pub fn statusKey(&mut self, key: KeyEvent, out: &mut Vec<Effect>)
        requires
            old(self)@.statusFocus is Some,
        ensures
            final(self)@ == (DeskV {
                statusFocus: old(self)@.status_focus_after(key),
                ..old(self)@
            }),
            effects(final(out)@) == effects(old(out)@) + ask_effects(
                old(self)@.status_asks(key),
            ),
    {
        let i: usize = match self.statusFocus {
            Some(i) => i,
            None => 0,
        };
        let count: usize = self.chips.len();
        let mut open = false;
        if key.code == KeyCode::Left {
            if i > 0 {
                self.statusFocus = Some(i - 1);
            }
        } else if key.code == KeyCode::Right {
            if i < count && i + 1 < count {
                self.statusFocus = Some(i + 1);
            }
        } else {
            if (key.code == KeyCode::Enter || key.code == KeyCode::Char(' ')) && i < count {
                open = true;
            }
            self.statusFocus = None;
        }
        if open {
            addAsks(openStatusChipPanel(self.chips[i].kind), out);
        } else {
            proof {
                assert(ask_effects(Seq::empty()) =~= Seq::<EffectV>::empty());
                assert(effects(out@) =~= effects(old(out)@) + Seq::<EffectV>::empty());
            }
        }
    }
}

// ---- the terminal ----

/// What a key in the terminal does.
#[derive(Debug)]
pub enum TerminalAct {
    Nothing,
    /// A new terminal is started.
    Spawn,
    /// The tab with this number is shown, counted from 0.
    Jump(usize),
    /// The running command is stopped.
    Kill,
    /// Bytes are sent; a terminal that is scrolled back goes to its end.
    Send(Vec<u8>),
}

/// What a key in the terminal does, as a value.
pub ghost enum TerminalActV {
    Nothing,
    Spawn,
    Jump(usize),
    Kill,
    Send(Seq<u8>),
}

impl View for TerminalAct {
    type V = TerminalActV;

    open spec fn view(&self) -> TerminalActV {
        match *self {
            TerminalAct::Nothing => TerminalActV::Nothing,
            TerminalAct::Spawn => TerminalActV::Spawn,
            TerminalAct::Jump(n) => TerminalActV::Jump(n),
            TerminalAct::Kill => TerminalActV::Kill,
            TerminalAct::Send(b) => TerminalActV::Send(b@),
        }
    }
}

/// What a key in the terminal does.
pub open spec fn terminal_act(key: KeyEvent) -> TerminalActV {
    if key.modifiers.superKey {
        TerminalActV::Nothing
    } else if isCtrl(key, 't') {
        TerminalActV::Spawn
    } else if key.modifiers.control && (key.code matches KeyCode::Char(c) && '1' <= c <= '9') {
        TerminalActV::Jump((key.code->Char_0 as int - '1' as int) as usize)
    } else if isCtrl(key, 'c') {
        TerminalActV::Kill
    } else {
        match key_bytes(key) {
            Some(b) => TerminalActV::Send(b),
            None => TerminalActV::Nothing,
        }
    }
}

impl Desk {
    /// Handles a key in the terminal. The status bar loses its focus.
    pub fn terminalKey(&mut self, key: KeyEvent) -> (r: TerminalAct)
        ensures
            r@ == terminal_act(key),
            final(self)@ == (DeskV { statusFocus: None, ..old(self)@ }),
    {
        self.statusFocus = None;
        if key.modifiers.superKey {
            return TerminalAct::Nothing;
        }
        if isCtrl(key, 't') {
            return TerminalAct::Spawn;
        }
        if key.modifiers.control {
            match key.code {
                KeyCode::Char(c) => {
                    if '1' <= c && c <= '9' {
                        return TerminalAct::Jump((c as u32 - '1' as u32) as usize);
                    }
                },
                _ => {},
            }
        }
        if isCtrl(key, 'c') {
            return TerminalAct::Kill;
        }
        match keyToBytes(key) {
            Some(b) => TerminalAct::Send(b),
            None => TerminalAct::Nothing,
        }
    }
}

// ---- laws ----

/// A key at the prompt that keeps a pattern keeps one that is not blank.
pub proof fn law_kept_patterns_are_not_blank(d: DeckV, key: KeyEvent)
    ensures
        d.permit_answer(key) matches Some(ResponseV::AlwaysAllow(p)) ==> p.len() > 0,
        d.permit_answer(key) matches Some(ResponseV::AlwaysDeny(p)) ==> p.len() > 0,
{
}

/// A prompt takes every key but those that cancel, move the focus or copy, whatever
/// else is open.
pub proof fn law_prompts_come_first(d: DeskV, key: KeyEvent)
    requires
        d.deck.panel.permit.pending,
    ensures
        d.route(key) is Permit || d.route(key) is Cancel || d.route(key) is SwitchFocus
            || d.route(key) is Copy,
{
}

/// No key reaches the terminal or the input while a panel covers them.
pub proof fn law_covered_panes_get_no_keys(d: DeskV, key: KeyEvent)
    requires
        d.is_covered(),
    ensures
        !(d.route(key) is Terminal),
        !(d.route(key) is Agent),
        !(d.route(key) is SwitchFocus),
        !(d.route(key) is Status),
{
}

/// One press never quits.
pub proof fn law_quitting_takes_two_presses(d: DeskV, key: KeyEvent, now: u64)
    requires
        d.quitPress is None,
    ensures
        !(d.global(key, now) is Quit),
{
}

/// The focused chip stays among the chips while the arrows move along them.
pub proof fn law_arrows_stay_on_the_bar(d: DeskV, key: KeyEvent)
    requires
        d.statusFocus is Some,
        d.statusFocus->0 < d.chips.len(),
    ensures
        d.status_focus_after(key) matches Some(i) ==> i < d.chips.len(),
{
}

} // verus!
