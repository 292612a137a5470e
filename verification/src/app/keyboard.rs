//! A key that counts nowhere else, from who takes it to what comes of it.

use vstd::prelude::*;
use vstd::string::*;
use crate::app::arrangement::LayoutWork;
use crate::app::composing::{AgentStep, agent_step};
use crate::app::desk::{
    Desk, DeskV, Focus, Route, TerminalAct, ask_effects, fork_effects, terminal_act,
};
use crate::app::effect::{Effect, EffectV, effects};
use crate::keys::KeyEvent;

verus! {

/// What is left to do after a key.
#[derive(Debug)]
pub enum KeyStep {
    Done,
    /// What is selected is copied.
    Copy,
    /// The panel that covers the others takes the key.
    Panel(Route),
    /// The panel of the layout took it.
    Layout(LayoutWork),
    Terminal(TerminalAct),
    /// The text of the input is changed.
    Input(AgentStep),
}

impl DeskV {
    /// The desk after a key, but for the panel of the layout. The input holds `text`,
    /// and its cursor stands on the first line where `first`, on the last where `last`.
    #[verifier::opaque]
    pub open spec fn after_key(self, key: KeyEvent, first: bool, last: bool, text: Seq<char>) -> DeskV {
        match self.route(key) {
            Route::Cancel => self.with_panel(self.deck.panel.turn_cancelled()),
            Route::SwitchFocus => DeskV {
                focus: match self.focus {
                    Focus::Terminal => Focus::Agent,
                    Focus::Agent => Focus::Terminal,
                },
                ..self
            },
            Route::Permit => self.with_deck(
                match self.deck.permit_answer(key) {
                    Some(a) => self.deck.answered(a),
                    None => self.deck.at_prompt(key),
                },
            ),
            Route::Tasks => self.after_tasks(key),
            Route::Forks => self.after_forks(key),
            Route::Status => DeskV { statusFocus: self.status_focus_after(key), ..self },
            Route::Terminal => DeskV { statusFocus: None, ..self },
            Route::Agent => {
                let s = agent_step(
                    self.deck.panel,
                    key,
                    first,
                    last,
                    text,
                    self.chips.len() > 0,
                );
                DeskV { statusFocus: s.statusFocus, ..self.with_panel(s.panel) }
            },
            _ => self,
        }
    }

    /// What a key brings about outside.
    #[verifier::opaque]
    pub open spec fn key_effects(
        self,
        key: KeyEvent,
        first: bool,
        last: bool,
        text: Seq<char>,
    ) -> Seq<EffectV> {
        match self.route(key) {
            Route::Cancel => seq![EffectV::Cancel(true)],
            Route::Permit => match self.deck.permit_answer(key) {
                Some(a) => self.deck.answer_effects(a),
                None => Seq::empty(),
            },
            Route::Tasks => self.tasks_effects(key),
            Route::Forks => fork_effects(self.deck.forks->0, key),
            Route::Status => ask_effects(self.status_asks(key)),
            Route::Agent => agent_step(
                self.deck.panel,
                key,
                first,
                last,
                text,
                self.chips.len() > 0,
            ).out,
            _ => Seq::empty(),
        }
    }

    /// Whether `r` is what is left to do after a key.
    #[verifier::opaque]
    pub open spec fn leaves(
        self,
        key: KeyEvent,
        first: bool,
        last: bool,
        text: Seq<char>,
        r: KeyStep,
    ) -> bool {
        match self.route(key) {
            Route::Cancel => r is Done,
            Route::SwitchFocus => r is Done,
            Route::Copy => r is Copy,
            Route::Permit => r is Done,
            Route::Tasks => r is Done,
            Route::Forks => r is Done,
            Route::Status => r is Done,
            Route::Layout => r is Layout,
            Route::Terminal => r is Terminal && r->Terminal_0@ == terminal_act(key),
            Route::Agent => r == KeyStep::Input(
                agent_step(
                    self.deck.panel,
                    key,
                    first,
                    last,
                    text,
                    self.chips.len() > 0,
                ).step,
            ),
            other => r == KeyStep::Panel(other),
        }
    }

    /// Whether the key leads to `after`, leaves `r` to do, and brings about what stands
    /// in `out` behind `before`.
    #[verifier::opaque]
    pub open spec fn takes_key(
        self,
        key: KeyEvent,
        first: bool,
        last: bool,
        text: Seq<char>,
        after: DeskV,
        r: KeyStep,
        before: Seq<EffectV>,
        out: Seq<EffectV>,
    ) -> bool {
        &&& self.leaves(key, first, last, text, r)
        &&& after == (DeskV {
            arrangement: after.arrangement,
            ..self.after_key(key, first, last, text)
        })
        &&& match r {
            KeyStep::Layout(work) => self.arrangement.keyed(key, after.arrangement, work),
            _ => after.arrangement == self.arrangement,
        }
        &&& after.arrangement.wf()
        &&& out == before + self.key_effects(key, first, last, text)
    }
}

impl Desk {
    /// The key cancels the turn.
    fn cancelKey(
        &mut self,
        key: KeyEvent,
        first: bool,
        last: bool,
        text: &str,
        out: &mut Vec<Effect>,
    ) -> (r: KeyStep)
        requires
            old(self)@.route(key) is Cancel,
            old(self).arrangement.wf(),

        ensures
            old(self)@.takes_key(
                key,
                first,
                last,
                text@,
                final(self)@,
                r,
                effects(old(out)@),
                effects(final(out)@),
            ),
    {
        proof {
            reveal(DeskV::takes_key);
            reveal(DeskV::after_key);
            reveal(DeskV::key_effects);
            reveal(DeskV::leaves);
            assert(effects(out@) + Seq::<EffectV>::empty() =~= effects(out@));
        }
        self.cancelTurn(out);
        proof {
            assert(effects(out@) =~= effects(old(out)@) + seq![EffectV::Cancel(true)]);
        }
        KeyStep::Done
    }

    /// The key moves the focus.
    fn focusKey(
        &mut self,
        key: KeyEvent,
        first: bool,
        last: bool,
        text: &str,
        out: &mut Vec<Effect>,
    ) -> (r: KeyStep)
        requires
            old(self)@.route(key) is SwitchFocus,
            old(self).arrangement.wf(),

        ensures
            old(self)@.takes_key(
                key,
                first,
                last,
                text@,
                final(self)@,
                r,
                effects(old(out)@),
                effects(final(out)@),
            ),
    {
        proof {
            reveal(DeskV::takes_key);
            reveal(DeskV::after_key);
            reveal(DeskV::key_effects);
            reveal(DeskV::leaves);
            assert(effects(out@) + Seq::<EffectV>::empty() =~= effects(out@));
        }
        self.switchFocus();
        KeyStep::Done
    }

    /// The prompt takes the key.
    fn promptKey(
        &mut self,
        key: KeyEvent,
        first: bool,
        last: bool,
        text: &str,
        out: &mut Vec<Effect>,
    ) -> (r: KeyStep)
        requires
            old(self)@.route(key) is Permit,
            old(self).arrangement.wf(),

        ensures
            old(self)@.takes_key(
                key,
                first,
                last,
                text@,
                final(self)@,
                r,
                effects(old(out)@),
                effects(final(out)@),
            ),
    {
        proof {
            reveal(DeskV::takes_key);
            reveal(DeskV::after_key);
            reveal(DeskV::key_effects);
            reveal(DeskV::leaves);
            assert(effects(out@) + Seq::<EffectV>::empty() =~= effects(out@));
        }
        self.permitKey(key, out);
        KeyStep::Done
    }

    /// The panel of tasks takes the key.
    fn taskListKey(
        &mut self,
        key: KeyEvent,
        first: bool,
        last: bool,
        text: &str,
        out: &mut Vec<Effect>,
    ) -> (r: KeyStep)
        requires
            old(self)@.route(key) is Tasks,
            old(self).arrangement.wf(),

        ensures
            old(self)@.takes_key(
                key,
                first,
                last,
                text@,
                final(self)@,
                r,
                effects(old(out)@),
                effects(final(out)@),
            ),
    {
        proof {
            reveal(DeskV::takes_key);
            reveal(DeskV::after_key);
            reveal(DeskV::key_effects);
            reveal(DeskV::leaves);
            assert(effects(out@) + Seq::<EffectV>::empty() =~= effects(out@));
        }
        self.tasksKey(key, out);
        KeyStep::Done
    }

    /// The picker of forks takes the key.
    fn forkListKey(
        &mut self,
        key: KeyEvent,
        first: bool,
        last: bool,
        text: &str,
        out: &mut Vec<Effect>,
    ) -> (r: KeyStep)
        requires
            old(self)@.route(key) is Forks,
            old(self).arrangement.wf(),
            old(self)@.deck.forks matches Some(f) ==> f.wf(),
        ensures
            old(self)@.takes_key(
                key,
                first,
                last,
                text@,
                final(self)@,
                r,
                effects(old(out)@),
                effects(final(out)@),
            ),
    {
        proof {
            reveal(DeskV::takes_key);
            reveal(DeskV::after_key);
            reveal(DeskV::key_effects);
            reveal(DeskV::leaves);
            assert(effects(out@) + Seq::<EffectV>::empty() =~= effects(out@));
        }
        self.forksKey(key, out);
        KeyStep::Done
    }

    /// The panel of the layout takes the key.
    fn layoutKey(
        &mut self,
        key: KeyEvent,
        first: bool,
        last: bool,
        text: &str,
        out: &mut Vec<Effect>,
    ) -> (r: KeyStep)
        requires
            old(self)@.route(key) is Layout,
            old(self).arrangement.wf(),

        ensures
            old(self)@.takes_key(
                key,
                first,
                last,
                text@,
                final(self)@,
                r,
                effects(old(out)@),
                effects(final(out)@),
            ),
    {
        proof {
            reveal(DeskV::takes_key);
            reveal(DeskV::after_key);
            reveal(DeskV::key_effects);
            reveal(DeskV::leaves);
            assert(effects(out@) + Seq::<EffectV>::empty() =~= effects(out@));
        }
        let work = self.arrangement.handleKey(key);
        KeyStep::Layout(work)
    }

    /// The status bar takes the key.
    fn barKey(
        &mut self,
        key: KeyEvent,
        first: bool,
        last: bool,
        text: &str,
        out: &mut Vec<Effect>,
    ) -> (r: KeyStep)
        requires
            old(self)@.route(key) is Status,
            old(self).arrangement.wf(),

        ensures
            old(self)@.takes_key(
                key,
                first,
                last,
                text@,
                final(self)@,
                r,
                effects(old(out)@),
                effects(final(out)@),
            ),
    {
        proof {
            reveal(DeskV::takes_key);
            reveal(DeskV::after_key);
            reveal(DeskV::key_effects);
            reveal(DeskV::leaves);
            assert(effects(out@) + Seq::<EffectV>::empty() =~= effects(out@));
        }
        self.statusKey(key, out);
        KeyStep::Done
    }

    /// The terminal takes the key.
    fn shellKey(
        &mut self,
        key: KeyEvent,
        first: bool,
        last: bool,
        text: &str,
        out: &mut Vec<Effect>,
    ) -> (r: KeyStep)
        requires
            old(self)@.route(key) is Terminal,
            old(self).arrangement.wf(),

        ensures
            old(self)@.takes_key(
                key,
                first,
                last,
                text@,
                final(self)@,
                r,
                effects(old(out)@),
                effects(final(out)@),
            ),
    {
        proof {
            reveal(DeskV::takes_key);
            reveal(DeskV::after_key);
            reveal(DeskV::key_effects);
            reveal(DeskV::leaves);
            assert(effects(out@) + Seq::<EffectV>::empty() =~= effects(out@));
        }
        let act = self.terminalKey(key);
        KeyStep::Terminal(act)
    }

    /// The input takes the key.
    fn inputKey(
        &mut self,
        key: KeyEvent,
        first: bool,
        last: bool,
        text: &str,
        out: &mut Vec<Effect>,
    ) -> (r: KeyStep)
        requires
            old(self)@.route(key) is Agent,
            old(self).arrangement.wf(),
            old(self)@.deck.panel.compose.history.wf(),
        ensures
            old(self)@.takes_key(
                key,
                first,
                last,
                text@,
                final(self)@,
                r,
                effects(old(out)@),
                effects(final(out)@),
            ),
    {
        proof {
            reveal(DeskV::takes_key);
            reveal(DeskV::after_key);
            reveal(DeskV::key_effects);
            reveal(DeskV::leaves);
            assert(effects(out@) + Seq::<EffectV>::empty() =~= effects(out@));
        }
        let step = self.agentKey(key, first, last, text, out);
        KeyStep::Input(step)
    }

    /// The key is left to what lies outside.
    fn otherKey(
        &mut self,
        key: KeyEvent,
        first: bool,
        last: bool,
        text: &str,
        out: &mut Vec<Effect>,
    ) -> (r: KeyStep)
        requires
            ({
                let r = old(self)@.route(key);
                r is Copy || r is Sessions || r is Log || r is Rewind || r is Mcp || r is Lsp || r
                    is Model || r is Permissions
            }),
            old(self).arrangement.wf(),

        ensures
            old(self)@.takes_key(
                key,
                first,
                last,
                text@,
                final(self)@,
                r,
                effects(old(out)@),
                effects(final(out)@),
            ),
    {
        proof {
            reveal(DeskV::takes_key);
            reveal(DeskV::after_key);
            reveal(DeskV::key_effects);
            reveal(DeskV::leaves);
            assert(effects(out@) + Seq::<EffectV>::empty() =~= effects(out@));
        }
        let route = self.route(key);
        if route == Route::Copy {
            return KeyStep::Copy;
        }
        KeyStep::Panel(route)
    }

    /// Handles a key that counts nowhere else: whoever has it by the order of the
    /// panels takes it. Returns what is left to do outside.
    pub fn handleKey(
        &mut self,
        key: KeyEvent,
        first: bool,
        last: bool,
        text: &str,
        out: &mut Vec<Effect>,
    ) -> (r: KeyStep)
        requires
            old(self)@.deck.panel.compose.history.wf(),
            old(self)@.deck.forks matches Some(f) ==> f.wf(),
            old(self).arrangement.wf(),
        ensures
            old(self)@.takes_key(
                key,
                first,
                last,
                text@,
                final(self)@,
                r,
                effects(old(out)@),
                effects(final(out)@),
            ),
    {
        match self.route(key) {
            Route::Cancel => self.cancelKey(key, first, last, text, out),
            Route::SwitchFocus => self.focusKey(key, first, last, text, out),
            Route::Permit => self.promptKey(key, first, last, text, out),
            Route::Tasks => self.taskListKey(key, first, last, text, out),
            Route::Forks => self.forkListKey(key, first, last, text, out),
            Route::Layout => self.layoutKey(key, first, last, text, out),
            Route::Status => self.barKey(key, first, last, text, out),
            Route::Terminal => self.shellKey(key, first, last, text, out),
            Route::Agent => self.inputKey(key, first, last, text, out),
            _ => self.otherKey(key, first, last, text, out),
        }
    }
}

} // verus!
