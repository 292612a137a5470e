//! What the keys do in the input, what is sent from it, and what is pasted.

use vstd::prelude::*;
use vstd::string::*;
use crate::agent_panel::entry::EntryV;
use crate::agent_panel::prompts::{completed, completion_for};
use crate::agent_panel::state::{AgentPanel, Attachment, CompletionV, ComposeV, PanelV, PermitV, UserInput};
use crate::app::deck::{DeckV, Overlays};
use crate::app::desk::{Desk, DeskV, Focus, addAsks, ask_effects, isCtrl};
use crate::app::effect::{Effect, EffectV, addEffect, effects};
use crate::app::request::{command_asks, dispatchSlashCommand};
use crate::app::terminal_input::{normalizePaste, normalized, pasteBytes, paste_bytes};
use crate::command::{ActionV, CommandAction, CommandOutput, OutputV, handled, tryHandle};
use crate::draw::minus;
use crate::history::HistoryV;
use crate::keys::{KeyCode, KeyEvent};
use crate::text::{cat5, charsOf, dec, decimal, opt_text};

verus! {

// ---- what a key does to the text ----

/// What is done to the text of the input.
#[derive(Clone, Copy, Debug, PartialEq, Eq, Structural)]
pub enum TextAct {
    Nothing,
    Insert(char),
    /// The text is taken and sent.
    Submit,
    /// What is in the clipboard is pasted.
    PasteClipboard,
    MoveHome,
    MoveEnd,
    KillToEnd,
    KillToStart,
    Yank,
    DeleteWordLeft,
    Backspace,
    Delete,
    MoveWordLeft,
    MoveWordRight,
    MoveLeft,
    MoveRight,
    MoveUp,
    MoveDown,
}

/// What a key does to the text, where it does nothing else.
pub open spec fn text_act(key: KeyEvent) -> TextAct {
    let m = key.modifiers;
    match key.code {
        KeyCode::Enter => if m.shift {
            TextAct::Insert('\n')
        } else {
            TextAct::Submit
        },
        KeyCode::Char(c) => if m.control && c == 'a' {
            TextAct::MoveHome
        } else if m.control && c == 'e' {
            TextAct::MoveEnd
        } else if m.control && c == 'k' {
            TextAct::KillToEnd
        } else if m.control && c == 'u' {
            TextAct::KillToStart
        } else if m.control && c == 'y' {
            TextAct::Yank
        } else if m.control && (c == 't' || c == 'b') {
            TextAct::Nothing
        } else if !m.superKey {
            TextAct::Insert(c)
        } else {
            TextAct::Nothing
        },
        KeyCode::Backspace => if m.superKey {
            TextAct::KillToStart
        } else if m.alt {
            TextAct::DeleteWordLeft
        } else {
            TextAct::Backspace
        },
        KeyCode::Delete => TextAct::Delete,
        KeyCode::Left => if m.superKey {
            TextAct::MoveHome
        } else if m.alt || m.control {
            TextAct::MoveWordLeft
        } else {
            TextAct::MoveLeft
        },
        KeyCode::Right => if m.superKey {
            TextAct::MoveEnd
        } else if m.alt || m.control {
            TextAct::MoveWordRight
        } else {
            TextAct::MoveRight
        },
        KeyCode::Home => TextAct::MoveHome,
        KeyCode::End => TextAct::MoveEnd,
        _ => TextAct::Nothing,
    }
}

/// What a key does to the text, where it does nothing else.
pub fn textAct(key: KeyEvent) -> (r: TextAct)
    ensures
        r == text_act(key),
{
    let m = key.modifiers;
    match key.code {
        KeyCode::Enter => {
            if m.shift {
                TextAct::Insert('\n')
            } else {
                TextAct::Submit
            }
        },
        KeyCode::Char(c) => {
            if m.control && c == 'a' {
                TextAct::MoveHome
            } else if m.control && c == 'e' {
                TextAct::MoveEnd
            } else if m.control && c == 'k' {
                TextAct::KillToEnd
            } else if m.control && c == 'u' {
                TextAct::KillToStart
            } else if m.control && c == 'y' {
                TextAct::Yank
            } else if m.control && (c == 't' || c == 'b') {
                TextAct::Nothing
            } else if !m.superKey {
                TextAct::Insert(c)
            } else {
                TextAct::Nothing
            }
        },
        KeyCode::Backspace => {
            if m.superKey {
                TextAct::KillToStart
            } else if m.alt {
                TextAct::DeleteWordLeft
            } else {
                TextAct::Backspace
            }
        },
        KeyCode::Delete => TextAct::Delete,
        KeyCode::Left => {
            if m.superKey {
                TextAct::MoveHome
            } else if m.alt || m.control {
                TextAct::MoveWordLeft
            } else {
                TextAct::MoveLeft
            }
        },
        KeyCode::Right => {
            if m.superKey {
                TextAct::MoveEnd
            } else if m.alt || m.control {
                TextAct::MoveWordRight
            } else {
                TextAct::MoveRight
            }
        },
        KeyCode::Home => TextAct::MoveHome,
        KeyCode::End => TextAct::MoveEnd,
        _ => TextAct::Nothing,
    }
}

// ---- the menu of completions ----

/// What a key does in the menu of completions: the panel after it, the text that is
/// put into the input, and whether the key is done with.
pub ghost struct MenuStep {
    pub panel: PanelV,
    pub set: Option<Seq<char>>,
    pub done: bool,
}

/// What a key does in the menu of completions. Enter takes the completion and goes
/// on to send it.
#[verifier::opaque]
pub open spec fn menu_step(p: PanelV, key: KeyEvent) -> MenuStep {
    match p.compose.completion {
        Some(c) => match key.code {
            KeyCode::Tab => MenuStep { panel: p, set: completed(Some(c)), done: true },
            KeyCode::Up => MenuStep {
                panel: PanelV {
                    compose: ComposeV {
                        completion: Some(
                            CompletionV {
                                selected: minus(c.selected as int, 1) as usize,
                                ..c
                            },
                        ),
                        ..p.compose
                    },
                    ..p
                },
                set: None,
                done: true,
            },
            KeyCode::Down => MenuStep {
                panel: PanelV {
                    compose: ComposeV {
                        completion: Some(
                            if c.selected + 1 < c.matches.len() {
                                CompletionV { selected: (c.selected + 1) as usize, ..c }
                            } else {
                                c
                            },
                        ),
                        ..p.compose
                    },
                    ..p
                },
                set: None,
                done: true,
            },
            KeyCode::Esc => MenuStep {
                panel: PanelV { compose: ComposeV { completion: None, ..p.compose }, ..p },
                set: None,
                done: true,
            },
            KeyCode::Enter => MenuStep {
                panel: p,
                set: if key.modifiers.shift {
                    None
                } else {
                    completed(Some(c))
                },
                done: false,
            },
            _ => MenuStep { panel: p, set: None, done: false },
        },
        None => MenuStep { panel: p, set: None, done: false },
    }
}

/// A text that is put into the input, as an effect.
pub open spec fn set_effects(t: Option<Seq<char>>) -> Seq<EffectV> {
    match t {
        Some(t) => seq![EffectV::SetInput(t)],
        None => Seq::empty(),
    }
}

fn addSet(t: Option<String>, out: &mut Vec<Effect>)
    ensures
        effects(final(out)@) == effects(old(out)@) + set_effects(opt_text(t)),
{
    match t {
        Some(t) => {
            addEffect(out, Effect::SetInput(t));
        },
        None => {},
    }
    proof {
        assert(effects(out@) =~= effects(old(out)@) + set_effects(opt_text(t)));
    }
}

/// Hands a key to the menu of completions, where it is open. Returns whether the key
/// is done with.
fn menuKey(panel: &mut AgentPanel, key: KeyEvent, out: &mut Vec<Effect>) -> (r: bool)
    ensures
        final(panel)@ == menu_step(old(panel)@, key).panel,
        r == menu_step(old(panel)@, key).done,
        effects(final(out)@) == effects(old(out)@) + set_effects(menu_step(old(panel)@, key).set),
{
    proof {
        reveal(menu_step);
        assert(effects(out@) + Seq::<EffectV>::empty() =~= effects(out@));
    }
    if !panel.completionActive() {
        return false;
    }
    match key.code {
        KeyCode::Tab => {
            addSet(panel.completeSelected(), out);
            true
        },
        KeyCode::Up => {
            panel.selectPrev();
            true
        },
        KeyCode::Down => {
            panel.selectNext();
            true
        },
        KeyCode::Esc => {
            panel.dismissCompletion();
            true
        },
        KeyCode::Enter => {
            if !key.modifiers.shift {
                addSet(panel.completeSelected(), out);
            }
            false
        },
        _ => false,
    }
}

// ---- a key in the input ----

/// What is left to do to the text after a key. `finish` tells that nothing else
/// follows the key; `navigating`, that it walks through the history.
#[derive(Clone, Copy, Debug, PartialEq, Eq, Structural)]
pub struct AgentStep {
    pub act: TextAct,
    pub navigating: bool,
    pub finish: bool,
}

/// What a key in the input makes of the desk.
pub ghost struct InputStep {
    pub panel: PanelV,
    pub statusFocus: Option<usize>,
    pub out: Seq<EffectV>,
    pub step: AgentStep,
}

/// A step that leaves everything to the text.
pub open spec fn to_text(act: TextAct) -> AgentStep {
    AgentStep { act, navigating: false, finish: false }
}

/// Whether a key takes back the message that was queued last.
pub open spec fn takes_back(p: PanelV, key: KeyEvent, first: bool) -> bool {
    key.code == KeyCode::Up && first && p.turnActive && p.compose.queue.len() > 0
}

/// What a key in the input does once the menu is done with it. `first` and `last`
/// tell whether the cursor is in the first and the last line, `text` is the text of
/// the input, and `chips` tells whether the status bar has chips.
#[verifier::opaque]
pub open spec fn input_step(
    p: PanelV,
    key: KeyEvent,
    first: bool,
    last: bool,
    text: Seq<char>,
    chips: bool,
) -> InputStep {
    let none = Seq::<EffectV>::empty();
    if isCtrl(key, 'd') && p.compose.attachments.len() > 0 {
        InputStep {
            panel: PanelV {
                compose: ComposeV {
                    attachments: p.compose.attachments.drop_last(),
                    ..p.compose
                },
                ..p
            },
            statusFocus: None,
            out: none,
            step: AgentStep { act: TextAct::Nothing, navigating: false, finish: true },
        }
    } else if isCtrl(key, 'v') {
        InputStep {
            panel: p,
            statusFocus: None,
            out: none,
            step: AgentStep { act: TextAct::PasteClipboard, navigating: false, finish: true },
        }
    } else if takes_back(p, key, first) {
        InputStep {
            panel: PanelV {
                compose: ComposeV {
                    queue: p.compose.queue.drop_last(),
                    attachments: p.compose.attachments + p.compose.queue.last().attachments@,
                    ..p.compose
                },
                ..p
            },
            statusFocus: None,
            out: seq![EffectV::SetInput(p.compose.queue.last().text@)],
            step: AgentStep { act: TextAct::Nothing, navigating: false, finish: true },
        }
    } else if key.code == KeyCode::Up {
        if first {
            InputStep {
                panel: PanelV {
                    compose: ComposeV { history: p.compose.history.up(text), ..p.compose },
                    ..p
                },
                statusFocus: None,
                out: set_effects(p.compose.history.shown_up(text)),
                step: AgentStep { act: TextAct::Nothing, navigating: true, finish: false },
            }
        } else {
            InputStep { panel: p, statusFocus: None, out: none, step: to_text(TextAct::MoveUp) }
        }
    } else if key.code == KeyCode::Down {
        if last {
            let shown = p.compose.history.shown_down();
            InputStep {
                panel: PanelV {
                    compose: ComposeV { history: p.compose.history.down(), ..p.compose },
                    ..p
                },
                statusFocus: if shown is None && chips {
                    Some(0)
                } else {
                    None
                },
                out: set_effects(shown),
                step: AgentStep { act: TextAct::Nothing, navigating: true, finish: false },
            }
        } else {
            InputStep { panel: p, statusFocus: None, out: none, step: to_text(TextAct::MoveDown) }
        }
    } else if isCtrl(key, 't') {
        InputStep {
            panel: p.thinking_toggled(),
            statusFocus: None,
            out: none,
            step: to_text(TextAct::Nothing),
        }
    } else if isCtrl(key, 'b') {
        InputStep {
            panel: p,
            statusFocus: None,
            out: seq![EffectV::ToBackground],
            step: to_text(TextAct::Nothing),
        }
    } else if key.code == KeyCode::PageUp {
        InputStep {
            panel: p.scrolled_up(10),
            statusFocus: None,
            out: none,
            step: to_text(TextAct::Nothing),
        }
    } else if key.code == KeyCode::PageDown {
        InputStep {
            panel: p.scrolled_down(10),
            statusFocus: None,
            out: none,
            step: to_text(TextAct::Nothing),
        }
    } else {
        InputStep { panel: p, statusFocus: None, out: none, step: to_text(text_act(key)) }
    }
}

/// What a key in the input makes of the desk, with the menu of completions.
pub open spec fn agent_step(
    p: PanelV,
    key: KeyEvent,
    first: bool,
    last: bool,
    text: Seq<char>,
    chips: bool,
) -> InputStep {
    let m = menu_step(p, key);
    let s = input_step(m.panel, key, first, last, text, chips);
    if m.done {
        InputStep {
            panel: m.panel,
            statusFocus: None,
            out: set_effects(m.set),
            step: to_text(TextAct::Nothing),
        }
    } else {
        InputStep { out: set_effects(m.set) + s.out, ..s }
    }
}

/// Walks through the history.
fn historyKey(
    panel: &mut AgentPanel,
    key: KeyEvent,
    text: &str,
    chips: bool,
    out: &mut Vec<Effect>,
) -> (r: Option<usize>)
    requires
        key.code == KeyCode::Up || key.code == KeyCode::Down,
        !takes_back(old(panel)@, key, true),
        old(panel)@.compose.history.wf(),
    ensures
        ({
            let s = input_step(old(panel)@, key, true, true, text@, chips);
            &&& final(panel)@ == s.panel
            &&& r == s.statusFocus
            &&& effects(final(out)@) == effects(old(out)@) + s.out
        }),
{
    proof {
        reveal(input_step);
    }
    let mut focus: Option<usize> = None;
    let shown: Option<String>;
    if key.code == KeyCode::Up {
        shown = match panel.compose.history.navigateUp(text) {
            Some(t) => Some(String::from_str(t)),
            None => None,
        };
    } else {
        shown = match panel.compose.history.navigateDown() {
            Some(t) => Some(String::from_str(t)),
            None => None,
        };
        if shown.is_none() && chips {
            focus = Some(0);
        }
    }
    addSet(shown, out);
    focus
}

/// Does what a key does to the rest of the panel.
fn panelKey(
    panel: &mut AgentPanel,
    key: KeyEvent,
    first: bool,
    last: bool,
    text: &str,
    chips: bool,
    out: &mut Vec<Effect>,
) -> (r: AgentStep)
    requires
        !(key.code == KeyCode::Up && first),
        !(key.code == KeyCode::Down && last),
    ensures
        ({
            let s = input_step(old(panel)@, key, first, last, text@, chips);
            &&& final(panel)@ == s.panel
            &&& s.statusFocus is None
            &&& effects(final(out)@) == effects(old(out)@) + s.out
            &&& r == s.step
        }),
{
    proof {
        reveal(input_step);
        assert(effects(out@) + Seq::<EffectV>::empty() =~= effects(out@));
    }
    if isCtrl(key, 'd') && panel.attachmentCount() > 0 {
        panel.removeLastAttachment();
        return AgentStep { act: TextAct::Nothing, navigating: false, finish: true };
    }
    if isCtrl(key, 'v') {
        return AgentStep { act: TextAct::PasteClipboard, navigating: false, finish: true };
    }
    let act: TextAct = if key.code == KeyCode::Up {
        TextAct::MoveUp
    } else if key.code == KeyCode::Down {
        TextAct::MoveDown
    } else {
        textAct(key)
    };
    if isCtrl(key, 't') {
        panel.toggleThinking();
    } else if isCtrl(key, 'b') {
        addEffect(out, Effect::ToBackground);
        proof {
            assert(effects(out@) =~= effects(old(out)@) + seq![EffectV::ToBackground]);
        }
    } else if key.code == KeyCode::PageUp {
        panel.scrollUp(10);
    } else if key.code == KeyCode::PageDown {
        panel.scrollDown(10);
    }
    AgentStep { act, navigating: false, finish: false }
}

/// Takes back the message that was queued last.
fn takeBack(
    panel: &mut AgentPanel,
    key: KeyEvent,
    text: &str,
    chips: bool,
    out: &mut Vec<Effect>,
)
    requires
        takes_back(old(panel)@, key, true),
    ensures
        ({
            let s = input_step(old(panel)@, key, true, true, text@, chips);
            &&& final(panel)@ == s.panel
            &&& s.statusFocus is None
            &&& effects(final(out)@) == effects(old(out)@) + s.out
        }),
{
    proof {
        reveal(input_step);
    }
    match panel.popQueuedMessage() {
        Some(input) => {
            addSet(Some(input.text), out);
            panel.restoreAttachments(input.attachments);
        },
        None => {},
    }
}

/// Handles a key in the input.
fn inputKey(
    panel: &mut AgentPanel,
    key: KeyEvent,
    first: bool,
    last: bool,
    text: &str,
    chips: bool,
    out: &mut Vec<Effect>,
) -> (r: (AgentStep, Option<usize>))
    requires
        old(panel)@.compose.history.wf(),
    ensures
        ({
            let s = agent_step(old(panel)@, key, first, last, text@, chips);
            &&& final(panel)@ == s.panel
            &&& r == (s.step, s.statusFocus)
            &&& effects(final(out)@) == effects(old(out)@) + s.out
        }),
{
    let ghost base = effects(out@);
    let ghost m = menu_step(panel@, key);
    let ghost s = input_step(m.panel, key, first, last, text@, chips);
    proof {
        lemma_menu_keeps_history(panel@, key);
        lemma_lines_do_not_matter(m.panel, key, first, last, text@, chips);
        assert(base + set_effects(m.set) + s.out =~= base + (set_effects(m.set) + s.out));
    }
    if menuKey(panel, key, out) {
        return (AgentStep { act: TextAct::Nothing, navigating: false, finish: false }, None);
    }
    if key.code == KeyCode::Up && first && panel.isActive() && panel.queuedCount() > 0 {
        takeBack(panel, key, text, chips, out);
        return (AgentStep { act: TextAct::Nothing, navigating: false, finish: true }, None);
    }
    if (key.code == KeyCode::Up && first) || (key.code == KeyCode::Down && last) {
        let focus = historyKey(panel, key, text, chips, out);
        return (AgentStep { act: TextAct::Nothing, navigating: true, finish: false }, focus);
    }
    (panelKey(panel, key, first, last, text, chips, out), None)
}

impl Desk {
    /// Handles a key in the input. The status bar loses its focus, unless the key
    /// walks past the end of the history. Returns what is left to do to the text;
    /// unless that says that the key is done with, `afterAgentKey` follows once it is
    /// done.
    pub fn agentKey(
        &mut self,
        key: KeyEvent,
        first: bool,
        last: bool,
        text: &str,
        out: &mut Vec<Effect>,
    ) -> (r: AgentStep)
        requires
            old(self)@.deck.panel.compose.history.wf(),
        ensures
            ({
                let s = agent_step(
                    old(self)@.deck.panel,
                    key,
                    first,
                    last,
                    text@,
                    old(self)@.chips.len() > 0,
                );
                &&& final(self)@ == (DeskV {
                    statusFocus: s.statusFocus,
                    ..old(self)@.with_panel(s.panel)
                })
                &&& effects(final(out)@) == effects(old(out)@) + s.out
                &&& r == s.step
            }),
    {
        let chips = self.chips.len() > 0;
        let (step, focus) = inputKey(&mut self.deck.panel, key, first, last, text, chips, out);
        self.statusFocus = focus;
        step
    }
}

proof fn lemma_menu_keeps_history(p: PanelV, key: KeyEvent)
    ensures
        menu_step(p, key).panel.compose.history == p.compose.history,
{
    reveal(menu_step);
}

/// Where the cursor is in the first line, it does not matter for Up whether it is in
/// the last, and the other way round for Down.
proof fn lemma_lines_do_not_matter(
    p: PanelV,
    key: KeyEvent,
    first: bool,
    last: bool,
    text: Seq<char>,
    chips: bool,
)
    ensures
        key.code == KeyCode::Up && first ==> input_step(p, key, first, last, text, chips)
            == input_step(p, key, true, true, text, chips) && input_step(
            p,
            key,
            first,
            last,
            text,
            chips,
        ).step == (AgentStep {
            act: TextAct::Nothing,
            navigating: !takes_back(p, key, true),
            finish: takes_back(p, key, true),
        }),
        key.code == KeyCode::Down && last ==> input_step(p, key, first, last, text, chips)
            == input_step(p, key, true, true, text, chips) && input_step(
            p,
            key,
            first,
            last,
            text,
            chips,
        ).step == (AgentStep { act: TextAct::Nothing, navigating: true, finish: false }),
{
    reveal(input_step);
}

impl DeskV {
    /// The desk once a key in the input is done: any key that does not walk through
    /// the history leaves it, and the completion follows the text.
    pub open spec fn input_settled(self, navigating: bool, text: Seq<char>) -> DeskV {
        let p = self.deck.panel;
        self.with_panel(
            PanelV {
                compose: ComposeV {
                    history: if navigating {
                        p.compose.history
                    } else {
                        HistoryV { cursor: None, ..p.compose.history }
                    },
                    completion: completion_for(text, p.compose.completion),
                    ..p.compose
                },
                ..p
            },
        )
    }
}

impl Desk {
    /// A key in the input is done, and `text` is there now.
    pub fn afterAgentKey(&mut self, navigating: bool, text: &str)
        ensures
            final(self)@ == old(self)@.input_settled(navigating, text@),
    {
        if !navigating {
            self.deck.panel.compose.history.resetCursor();
        }
        self.deck.panel.updateCompletion(text);
    }
}

// ---- sending ----

/// The panels that are open once a command opened its own.
pub open spec fn opened_by(open: Overlays, a: ActionV) -> Overlays {
    match a {
        ActionV::Resume(id) => Overlays { sessions: open.sessions || id is None, ..open },
        ActionV::Logs => Overlays { log: true, ..open },
        _ => open,
    }
}

/// What the action of a command brings about outside.
pub open spec fn action_asks(a: ActionV) -> Seq<EffectV> {
    match a {
        ActionV::Resume(id) => if id is None {
            seq![EffectV::OpenSessions]
        } else {
            ask_effects(command_asks(a))
        },
        ActionV::Logs => seq![EffectV::OpenLog],
        ActionV::ShowLayout => Seq::empty(),
        _ => ask_effects(command_asks(a)),
    }
}

/// What a command brings about outside.
pub open spec fn command_effects(o: OutputV) -> Seq<EffectV> {
    match o {
        OutputV::Inline(_) => Seq::empty(),
        OutputV::Action(a) => action_asks(a),
    }
}

impl DeskV {
    /// The panel once the history holds `msg`.
    pub open spec fn remembering(self, msg: Seq<char>) -> PanelV {
        let p = self.deck.panel;
        PanelV {
            compose: ComposeV { history: p.compose.history.pushed(msg), ..p.compose },
            ..p
        }
    }

    /// Whether the file of the history is to keep `msg`, as an effect.
    pub open spec fn kept(self, msg: Seq<char>) -> Seq<EffectV> {
        if self.deck.panel.compose.history.records(msg) {
            seq![EffectV::KeepHistory]
        } else {
            Seq::empty()
        }
    }

    /// The panel that shows a command.
    pub open spec fn command_shown(self, msg: Seq<char>) -> PanelV {
        self.remembering(msg).with_entry(EntryV::User(msg)).snapped()
    }

    /// The desk after a command, but for the panel of the layout.
    #[verifier::opaque]
    pub open spec fn after_command(self, msg: Seq<char>, o: OutputV) -> DeskV {
        let p = self.command_shown(msg);
        match o {
            OutputV::Inline(t) => self.with_panel(p.answered(EntryV::CommandResult(t))),
            OutputV::Action(a) => self.with_deck(
                DeckV { panel: p, open: opened_by(self.deck.open, a), ..self.deck },
            ),
        }
    }

    /// Whether a command opens the panel of the layout.
    pub open spec fn opens_layout(self, o: OutputV) -> bool {
        o == OutputV::Action(ActionV::ShowLayout) && self.arrangement.panel is None
    }

    /// The panel once a message waits for the running turn.
    pub open spec fn queued(self, msg: Seq<char>, input: UserInput) -> PanelV {
        let p = self.remembering(msg);
        PanelV {
            compose: ComposeV {
                attachments: Seq::empty(),
                queue: p.compose.queue.push(input),
                ..p.compose
            },
            ..p
        }
    }

    /// The panel once a message starts a turn.
    pub open spec fn sent(self, msg: Seq<char>, now: u64) -> PanelV {
        let p = self.remembering(msg).user_sent(msg, now);
        PanelV {
            compose: ComposeV { attachments: Seq::empty(), errorHint: false, ..p.compose },
            ..p
        }
    }
}

/// Whether `i` is a message with the text `msg` and the images of the input.
pub open spec fn is_message(i: UserInput, msg: String, p: PanelV) -> bool {
    i.text == msg && i.attachments@ == p.compose.attachments
}

/// Does what a command asks for, but for the panel of the layout.
fn runAction(open: &mut Overlays, a: CommandAction, out: &mut Vec<Effect>)
    ensures
        *final(open) == opened_by(*old(open), a@),
        effects(final(out)@) == effects(old(out)@) + action_asks(a@),
{
    proof {
        assert(effects(out@) + Seq::<EffectV>::empty() =~= effects(out@));
    }
    match a {
        CommandAction::Resume { sessionId: None } => {
            open.sessions = true;
            addEffect(out, Effect::OpenSessions);
            proof {
                assert(effects(out@) =~= effects(old(out)@) + seq![EffectV::OpenSessions]);
            }
        },
        CommandAction::ShowLayout => {},
        CommandAction::Logs => {
            open.log = true;
            addEffect(out, Effect::OpenLog);
            proof {
                assert(effects(out@) =~= effects(old(out)@) + seq![EffectV::OpenLog]);
            }
        },
        other => {
            addAsks(dispatchSlashCommand(other), out);
        },
    }
}

impl Desk {
    /// Keeps what the user wrote in the history.
    fn remember(&mut self, msg: &str, out: &mut Vec<Effect>)
        requires
            old(self).deck.panel.compose.history.entries@.len() < usize::MAX,
        ensures
            final(self)@ == old(self)@.with_panel(old(self)@.remembering(msg@)),
            effects(final(out)@) == effects(old(out)@) + old(self)@.kept(msg@),
    {
        if self.deck.panel.compose.history.push(msg) {
            addEffect(out, Effect::KeepHistory);
        }
        proof {
            assert(effects(out@) =~= effects(old(out)@) + old(self)@.kept(msg@));
        }
    }

    /// Shows a command and remembers it.
    fn showCommand(&mut self, msg: &str, out: &mut Vec<Effect>)
        requires
            old(self).deck.panel.compose.history.entries@.len() < usize::MAX,
        ensures
            final(self)@ == old(self)@.with_panel(old(self)@.command_shown(msg@)),
            effects(final(out)@) == effects(old(out)@) + old(self)@.kept(msg@),
    {
        self.remember(msg, out);
        self.deck.panel.pushCommand(msg);
    }

    /// Does what a command that was shown asks for.
    fn commandAction(&mut self, a: CommandAction, out: &mut Vec<Effect>)
        ensures
            ({
                let o = OutputV::Action(a@);
                &&& final(self)@ == (DeskV {
                    arrangement: final(self)@.arrangement,
                    ..old(self)@.with_deck(
                        DeckV { open: opened_by(old(self)@.deck.open, a@), ..old(self)@.deck },
                    )
                })
                &&& old(self)@.opens_layout(o) ==> final(self).arrangement.just_opened()
                    && final(self).arrangement.same_but_panel(old(self).arrangement)
                &&& !old(self)@.opens_layout(o) ==> final(self).arrangement == old(
                    self,
                ).arrangement
                &&& effects(final(out)@) == effects(old(out)@) + action_asks(a@)
            }),
    {
        let layout = match &a {
            CommandAction::ShowLayout => true,
            _ => false,
        };
        if layout && self.arrangement.panel.is_none() {
            self.arrangement.open();
        }
        runAction(&mut self.deck.open, a, out);
    }

    /// Carries out a command that the user wrote.
    fn runCommand(&mut self, msg: &str, o: CommandOutput, out: &mut Vec<Effect>)
        requires
            old(self).deck.panel.compose.history.entries@.len() < usize::MAX,
        ensures
            final(self)@ == (DeskV {
                arrangement: final(self)@.arrangement,
                ..old(self)@.after_command(msg@, o@)
            }),
            old(self)@.opens_layout(o@) ==> final(self).arrangement.just_opened()
                && final(self).arrangement.same_but_panel(old(self).arrangement),
            !old(self)@.opens_layout(o@) ==> final(self).arrangement == old(self).arrangement,
            effects(final(out)@) == effects(old(out)@) + old(self)@.kept(msg@)
                + command_effects(o@),
    {
        proof {
            reveal(DeskV::after_command);
        }
        self.showCommand(msg, out);
        match o {
            CommandOutput::Inline(text) => {
                self.deck.panel.pushCommandResult(text.as_str());
                proof {
                    assert(effects(out@) + Seq::<EffectV>::empty() =~= effects(out@));
                }
            },
            CommandOutput::Action(a) => {
                self.commandAction(a, out);
            },
        }
    }

    /// Queues a message for the running turn.
    fn queueInput(&mut self, msg: String, out: &mut Vec<Effect>)
        requires
            old(self).deck.panel.compose.history.entries@.len() < usize::MAX,
        ensures
            ({
                let input = final(self)@.deck.panel.compose.queue.last();
                &&& is_message(input, msg, old(self)@.deck.panel)
                &&& final(self)@ == old(self)@.with_panel(old(self)@.queued(msg@, input))
            }),
            effects(final(out)@) == (effects(old(out)@) + old(self)@.kept(msg@)).push(
                EffectV::Steer,
            ),
    {
        self.remember(msg.as_str(), out);
        let attachments = self.deck.panel.takeAttachments();
        self.deck.panel.queueMessage(UserInput { text: msg, attachments });
        addEffect(out, Effect::Steer);
    }

    /// Starts a turn with a message.
    fn sendInput(&mut self, msg: String, now: u64, out: &mut Vec<Effect>)
        requires
            old(self).deck.panel.compose.history.entries@.len() < usize::MAX,
        ensures
            final(self)@ == old(self)@.with_panel(old(self)@.sent(msg@, now)),
            exists|input: UserInput| #[trigger]
                is_message(input, msg, old(self)@.deck.panel) && effects(final(out)@) == (effects(
                    old(out)@,
                ).push(EffectV::Cancel(false)) + old(self)@.kept(msg@)).push(
                    EffectV::Send(input),
                ),
    {
        addEffect(out, Effect::Cancel(false));
        self.remember(msg.as_str(), out);
        self.deck.panel.pushUser(msg.as_str(), now);
        self.deck.panel.compose.errorHint = false;
        let attachments = self.deck.panel.takeAttachments();
        let input = UserInput { text: msg, attachments };
        proof {
            assert(is_message(input, msg, old(self)@.deck.panel));
        }
        addEffect(out, Effect::Send(input));
    }

    /// What the user wrote is taken from the input: a command is carried out, a
    /// message is queued while a turn goes on, and else starts one.
    pub fn submitted(&mut self, msg: String, now: u64, out: &mut Vec<Effect>)
        requires
            old(self).deck.panel.compose.history.entries@.len() < usize::MAX,
        ensures
            match handled(msg@) {
                Some(o) => {
                    &&& final(self)@ == (DeskV {
                        arrangement: final(self)@.arrangement,
                        ..old(self)@.after_command(msg@, o)
                    })
                    &&& old(self)@.opens_layout(o) ==> final(self).arrangement.just_opened()
                        && final(self).arrangement.same_but_panel(old(self).arrangement)
                    &&& !old(self)@.opens_layout(o) ==> final(self).arrangement == old(
                        self,
                    ).arrangement
                    &&& effects(final(out)@) == effects(old(out)@) + old(self)@.kept(msg@)
                        + command_effects(o)
                },
                None => if old(self)@.deck.panel.turnActive {
                    let input = final(self)@.deck.panel.compose.queue.last();
                    &&& is_message(input, msg, old(self)@.deck.panel)
                    &&& final(self)@ == old(self)@.with_panel(old(self)@.queued(msg@, input))
                    &&& effects(final(out)@) == (effects(old(out)@) + old(self)@.kept(msg@)).push(
                        EffectV::Steer,
                    )
                } else {
                    &&& final(self)@ == old(self)@.with_panel(old(self)@.sent(msg@, now))
                    &&& exists|input: UserInput|
                        #![trigger is_message(input, msg, old(self)@.deck.panel)]
                        is_message(input, msg, old(self)@.deck.panel) && effects(final(out)@)
                            == (effects(old(out)@).push(EffectV::Cancel(false)) + old(
                            self,
                        )@.kept(msg@)).push(EffectV::Send(input))
                },
            },
    {
        match tryHandle(msg.as_str()) {
            Some(o) => {
                self.runCommand(msg.as_str(), o, out);
            },
            None => {
                if self.deck.panel.isActive() {
                    self.queueInput(msg, out);
                } else {
                    self.sendInput(msg, now, out);
                }
            },
        }
    }
}

// ---- pasting ----

/// An image from the clipboard, as an attachment. It is turned into a file only when
/// it is sent. Its size is kept in 32 bits.
pub fn pastedImage(width: usize, height: usize, bytes: Vec<u8>) -> (r: Attachment)
    ensures
        r.mimeType@ == "image/rgba"@,
        r.data == bytes,
        r.label@ == "pasted image ("@ + dec(width as nat) + "x"@ + dec(height as nat) + ")"@,
        r.rgbaDimensions == Some(
            ((width as int % 0x1_0000_0000) as u32, (height as int % 0x1_0000_0000) as u32),
        ),
{
    Attachment {
        mimeType: String::from_str("image/rgba"),
        data: bytes,
        label: cat5(
            "pasted image (",
            decimal(width as u64).as_str(),
            "x",
            decimal(height as u64).as_str(),
            ")",
        ),
        rgbaDimensions: Some(
            ((width as u64 % 0x1_0000_0000) as u32, (height as u64 % 0x1_0000_0000) as u32),
        ),
    }
}

/// What is done with a paste.
#[derive(Debug)]
pub enum PasteAct {
    /// It is dropped, or it was taken up already.
    Done,
    /// The text is inserted into the input.
    Insert(String),
    /// The bytes are sent to the terminal, which goes to its end if it is scrolled
    /// back.
    Send(Vec<u8>),
}

impl Desk {
    /// Adds a text to the custom pattern of the prompt.
    fn patternText(&mut self, text: &str)
        ensures
            final(self)@ == old(self)@.with_panel(
                PanelV {
                    permit: PermitV {
                        custom: old(self)@.deck.panel.permit.custom + text@,
                        ..old(self)@.deck.panel.permit
                    },
                    ..old(self)@.deck.panel
                },
            ),
    {
        let v = charsOf(text);
        let mut i: usize = 0;
        let ghost p = self@.deck.panel;
        proof {
            assert(p.permit.custom + text@.take(0) =~= p.permit.custom);
        }
        while i < v.len()
            invariant
                i <= v@.len(),
                v@ == text@,
                p == old(self)@.deck.panel,
                self@ == old(self)@.with_panel(
                    PanelV {
                        permit: PermitV {
                            custom: p.permit.custom + text@.take(i as int),
                            ..p.permit
                        },
                        ..p
                    },
                ),
            decreases v@.len() - i,
        {
            self.deck.panel.customPatternInsert(v[i]);
            proof {
                assert(p.permit.custom + text@.take(i + 1) =~= (p.permit.custom + text@.take(
                    i as int,
                )).push(v@[i as int]));
            }
            i = i + 1;
        }
        proof {
            assert(text@.take(text@.len() as int) =~= text@);
        }
    }

    /// Handles a paste. The popup of subagents takes it, and keeps it only for the
    /// custom pattern of a prompt; else it goes to what has the focus, with its line
    /// ends as line feeds. `bracketed` tells what the terminal asks for.
    pub fn paste(&mut self, text: &str, bracketed: bool) -> (r: PasteAct)
        ensures
            ({
                let d = old(self)@.deck;
                if d.open.subagents {
                    &&& r is Done
                    &&& final(self)@ == (if d.panel.permit.pending && d.panel.permit.editing {
                        old(self)@.with_panel(
                            PanelV {
                                permit: PermitV {
                                    custom: d.panel.permit.custom + text@,
                                    ..d.panel.permit
                                },
                                ..d.panel
                            },
                        )
                    } else {
                        old(self)@
                    })
                } else {
                    &&& final(self)@ == old(self)@
                    &&& match old(self)@.focus {
                        Focus::Agent => if d.panel.permit.pending {
                            r is Done
                        } else {
                            r matches PasteAct::Insert(t) && t@ == normalized(text@)
                        },
                        Focus::Terminal => r matches PasteAct::Send(b) && b@ == paste_bytes(
                            text@,
                            bracketed,
                        ),
                    }
                }
            }),
    {
        if self.deck.open.subagents {
            if self.deck.panel.permit.pending && self.deck.panel.isEditingCustom() {
                self.patternText(text);
            }
            return PasteAct::Done;
        }
        match self.focus {
            Focus::Agent => {
                if self.deck.panel.permit.pending {
                    PasteAct::Done
                } else {
                    PasteAct::Insert(normalizePaste(text))
                }
            },
            Focus::Terminal => PasteAct::Send(pasteBytes(text, bracketed)),
        }
    }
}

// ---- laws ----

/// A message that was queued and is taken back leaves the queue as it was, and its
/// images go back into the input.
pub proof fn law_taking_back_undoes_queueing(d: DeskV, msg: Seq<char>, input: UserInput, key: KeyEvent)
    requires
        d.deck.panel.turnActive,
        key.code == KeyCode::Up,
    ensures
        ({
            let p = d.queued(msg, input);
            let s = input_step(p, key, true, true, Seq::empty(), false);
            &&& s.panel.compose.queue == d.deck.panel.compose.queue
            &&& s.panel.compose.attachments == input.attachments@
            &&& s.out == seq![EffectV::SetInput(input.text@)]
        }),
{
    reveal(input_step);
    let p = d.queued(msg, input);
    assert(p.compose.queue.drop_last() =~= d.deck.panel.compose.queue);
    assert(Seq::<Attachment>::empty() + input.attachments@ =~= input.attachments@);
}

/// What is written while a turn goes on never starts a second one.
pub proof fn law_messages_wait_for_the_turn(d: DeskV, msg: Seq<char>, input: UserInput)
    ensures
        d.queued(msg, input).turnActive == d.deck.panel.turnActive,
        d.queued(msg, input).entries == d.deck.panel.entries,
        d.queued(msg, input).compose.queue == d.deck.panel.compose.queue.push(input),
{
}

} // verus!
