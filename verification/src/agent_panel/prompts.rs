//! The permission prompt and the completion of slash commands.

use vstd::prelude::*;
use vstd::string::*;
use crate::agent_panel::blocks::STREAMING;
use crate::agent_panel::entry::{EntryV, PanelEntry, addEntry};
use crate::agent_panel::labels::{is_wake_tool, isWakeToolName};
use crate::agent_panel::state::{
    AgentPanel, CodeV, CompletionState, CompletionV, ComposeV, OriginV, PanelV, PermitOrigin,
    PermitV,
};
use crate::command::{command_views, completing, completions};
use crate::draw::{min, minus};
use crate::impact::ShellImpact;
use crate::text::{charsOf, fromRange, opt_text, strEq, texts, trim, trimmed};

verus! {

impl PanelV {
    /// A tool asks for permission. The first pattern is chosen and can be edited;
    /// where none is suggested, the custom one is written at once.
    pub open spec fn tool_request(
        self,
        name: Seq<char>,
        summary: Seq<char>,
        command: Option<Seq<char>>,
        patterns: Seq<Seq<char>>,
        diff: Option<Seq<char>>,
        explanation: Option<Seq<char>>,
        impact: ShellImpact,
        origin: OriginV,
    ) -> PanelV {
        if !self.turnActive {
            self
        } else {
            let p = self.finalized().with_entry(EntryV::ToolRequest { summary, diff, command });
            PanelV {
                permit: PermitV {
                    pending: true,
                    origin: Some(origin),
                    suppressed: p.permit.suppressed,
                    toolName: name,
                    toolSummary: summary,
                    explanation,
                    impact,
                    patterns,
                    selected: 0,
                    custom: if patterns.len() > 0 {
                        patterns[0]
                    } else {
                        Seq::empty()
                    },
                    editing: patterns.len() == 0,
                    scrollX: 0,
                },
                ..p
            }.noted()
        }
    }

    /// The prompt is answered.
    pub open spec fn prompt_closed(self) -> PanelV {
        PanelV {
            permit: PermitV {
                pending: false,
                origin: None,
                toolName: Seq::empty(),
                patterns: Seq::empty(),
                editing: false,
                ..self.permit
            },
            ..self
        }
    }

    /// The command of the prompt was copied at `now`.
    pub open spec fn copied(self, now: u64) -> PanelV {
        PanelV {
            code: CodeV { copiedFlash: Some(((STREAMING, 0), now)), ..self.code },
            ..self
        }
    }

    /// The pending tool was approved. Subagents and wake tools have entries of
    /// their own.
    pub open spec fn approved(self) -> PanelV {
        let name = self.permit.toolName;
        if name == "task"@ || is_wake_tool(name) {
            self.prompt_closed()
        } else {
            self.prompt_closed().with_entry(EntryV::ToolApproved(name))
        }
    }
}

impl PermitV {
    /// The "always allow" pattern that is chosen. A blank one would match every
    /// call of the tool, so it counts as none.
    pub open spec fn pattern(self) -> Option<Seq<char>> {
        let raw = if self.selected >= self.patterns.len() {
            self.custom
        } else {
            self.patterns[self.selected as int]
        };
        if trimmed(raw).len() == 0 {
            None
        } else {
            Some(trimmed(raw))
        }
    }

    pub open spec fn previous(self) -> PermitV {
        if self.selected > 0 {
            PermitV { selected: (self.selected - 1) as usize, editing: false, ..self }
        } else {
            self
        }
    }

    /// The next pattern; behind the last one the custom one is edited.
    pub open spec fn next(self) -> PermitV {
        if self.selected < self.patterns.len() {
            PermitV {
                selected: (self.selected + 1) as usize,
                editing: self.editing || self.selected + 1 >= self.patterns.len(),
                ..self
            }
        } else {
            self
        }
    }

    pub open spec fn scrolled(self, delta: int) -> PermitV {
        PermitV {
            scrollX: (if delta < 0 {
                minus(self.scrollX as int, -delta)
            } else {
                min(self.scrollX + delta, u16::MAX as int)
            }) as u16,
            ..self
        }
    }
}

impl AgentPanel {
    // ---- permission ----

    /// Asks for permission to run a tool. `command` is the command of a shell
    /// tool, and `patterns` are the suggested "always allow" patterns.
    pub fn showToolRequest(
        &mut self,
        name: &str,
        summary: &str,
        command: Option<String>,
        patterns: Vec<String>,
        diff: Option<String>,
        explanation: Option<String>,
        impact: ShellImpact,
        origin: PermitOrigin,
    )
        ensures
            final(self)@ == old(self)@.tool_request(
                name@,
                summary@,
                opt_text(command),
                texts(patterns@),
                opt_text(diff),
                opt_text(explanation),
                impact,
                origin@,
            ),
    {
        if !self.turnActive {
            return;
        }
        self.finalizeStreaming();
        addEntry(
            &mut self.entries,
            PanelEntry::ToolRequest { summary: String::from_str(summary), diff, command },
        );
        self.permit.pending = true;
        self.permit.origin = Some(origin);
        self.permit.toolName = String::from_str(name);
        self.permit.toolSummary = String::from_str(summary);
        self.permit.explanation = explanation;
        self.permit.impact = impact;
        self.permit.custom = if patterns.len() > 0 {
            proof {
                assert(texts(patterns@)[0] == patterns@[0]@);
            }
            patterns[0].clone()
        } else {
            String::new()
        };
        self.permit.editing = patterns.len() == 0;
        self.permit.patterns = patterns;
        self.permit.selected = 0;
        self.permit.scrollX = 0;
        self.scroll.newContent = self.scroll.offset != 0;
        self.scroll.idle = false;
    }

    fn closePrompt(&mut self)
        ensures
            final(self)@ == old(self)@.prompt_closed(),
    {
        self.permit.pending = false;
        self.permit.origin = None;
        self.permit.toolName = String::new();
        self.permit.patterns = Vec::new();
        self.permit.editing = false;
        proof {
            assert(self@.permit.patterns =~= Seq::empty());
        }
    }

    /// The pending tool was approved.
    pub fn approvePending(&mut self)
        ensures
            final(self)@ == old(self)@.approved(),
    {
        let name = self.permit.toolName.clone();
        self.closePrompt();
        if !strEq(name.as_str(), "task") && !isWakeToolName(name.as_str()) {
            addEntry(&mut self.entries, PanelEntry::ToolApproved { name });
        }
    }

    /// The pending tool was denied. Its entry comes with the event that says so.
    pub fn denyPending(&mut self)
        ensures
            final(self)@ == old(self)@.prompt_closed(),
    {
        self.closePrompt();
    }

    /// Whether a permission is pending that was asked for by a subagent.
    pub fn pendingPermitIsSubagent(&self) -> (r: bool)
        ensures
            r == (self@.permit.pending && (self@.permit.origin matches Some(o) && o is Subagent)),
    {
        if !self.permit.pending {
            return false;
        }
        match &self.permit.origin {
            Some(PermitOrigin::Subagent { .. }) => true,
            _ => false,
        }
    }

    /// The session of the subagent that asked for the pending permission.
    pub fn pendingPermitSubagentSessionId(&self) -> (r: Option<String>)
        ensures
            opt_text(r) == (match self@.permit.origin {
                Some(OriginV::Subagent(s)) => if self@.permit.pending {
                    Some(s)
                } else {
                    None
                },
                _ => None,
            }),
    {
        if !self.permit.pending {
            return None;
        }
        match &self.permit.origin {
            Some(PermitOrigin::Subagent { sessionId }) => Some(sessionId.clone()),
            _ => None,
        }
    }

    /// The "always allow" pattern that is chosen, if any.
    pub fn selectedPattern(&self) -> (r: Option<String>)
        ensures
            opt_text(r) == self@.permit.pattern(),
    {
        let raw = if self.permit.selected >= self.permit.patterns.len() {
            trim(self.permit.custom.as_str())
        } else {
            proof {
                let i = self.permit.selected as int;
                assert(self@.permit.patterns[i] == self.permit.patterns@[i]@);
            }
            trim(self.permit.patterns[self.permit.selected].as_str())
        };
        if raw.as_str().unicode_len() == 0 {
            None
        } else {
            Some(raw)
        }
    }

    /// Chooses the pattern before.
    pub fn prevPattern(&mut self)
        ensures
            final(self)@ == (PanelV { permit: old(self)@.permit.previous(), ..old(self)@ }),
    {
        if self.permit.selected > 0 {
            self.permit.selected = self.permit.selected - 1;
            self.permit.editing = false;
        }
    }

    /// Chooses the next pattern, or the custom one behind the last.
    pub fn nextPattern(&mut self)
        ensures
            final(self)@ == (PanelV { permit: old(self)@.permit.next(), ..old(self)@ }),
    {
        if self.permit.selected < self.permit.patterns.len() {
            self.permit.selected = self.permit.selected + 1;
            if self.permit.selected >= self.permit.patterns.len() {
                self.permit.editing = true;
            }
        }
    }

    /// The shell command that waits for permission.
    pub fn pendingCommand(&self) -> (r: Option<&String>)
        ensures
            match r {
                Some(s) => pending_command(self@) == Some(s@),
                None => pending_command(self@) is None,
            },
    {
        if !self.permit.pending {
            return None;
        }
        let n: usize = self.entries.len();
        if n == 0 {
            return None;
        }
        proof {
            assert(self@.entries.last() == self.entries@[n - 1]@);
        }
        match &self.entries[n - 1] {
            PanelEntry::ToolRequest { command, .. } => command.as_ref(),
            _ => None,
        }
    }

    /// Shows "copied" on the code block of the prompt.
    pub fn flashCopied(&mut self, now: u64)
        ensures
            final(self)@ == old(self)@.copied(now),
    {
        self.code.copiedFlash = Some(((STREAMING, 0), now));
    }

    /// Scrolls the code block of the prompt sideways.
    pub fn scrollPermitCode(&mut self, delta: i16)
        ensures
            final(self)@ == (PanelV {
                permit: old(self)@.permit.scrolled(delta as int),
                ..old(self)@
            }),
    {
        if delta < 0 {
            let back: i32 = -(delta as i32);
            self.permit.scrollX = self.permit.scrollX.saturating_sub(back as u16);
        } else {
            self.permit.scrollX = self.permit.scrollX.saturating_add(delta as u16);
        }
    }

    /// Whether the custom pattern is edited.
    pub fn isEditingCustom(&self) -> (r: bool)
        ensures
            r == self@.permit.editing,
    {
        self.permit.editing
    }

    /// Adds a character to the custom pattern.
    pub fn customPatternInsert(&mut self, c: char)
        ensures
            final(self)@ == (PanelV {
                permit: PermitV {
                    custom: old(self)@.permit.custom.push(c),
                    ..old(self)@.permit
                },
                ..old(self)@
            }),
    {
        self.permit.custom.push(c);
    }

    /// Removes the last character of the custom pattern.
    pub fn customPatternBackspace(&mut self)
        ensures
            final(self)@ == (PanelV {
                permit: PermitV {
                    custom: if old(self)@.permit.custom.len() > 0 {
                        old(self)@.permit.custom.drop_last()
                    } else {
                        old(self)@.permit.custom
                    },
                    ..old(self)@.permit
                },
                ..old(self)@
            }),
    {
        let n: usize = self.permit.custom.as_str().unicode_len();
        if n > 0 {
            let shorter = String::from_str(self.permit.custom.as_str().substring_char(0, n - 1));
            proof {
                assert(shorter@ =~= self.permit.custom@.drop_last());
            }
            self.permit.custom = shorter;
        }
    }

    /// Whether the panel itself shows the prompt.
    pub fn permitVisible(&self) -> (r: bool)
        ensures
            r == (self@.permit.pending && !self@.permit.suppressed),
    {
        self.permit.pending && !self.permit.suppressed
    }

    // ---- completion ----

    /// Updates the completion for the text of the input. It is shown while the text
    /// starts with a slash and has no spaces: the name of a command is typed.
    pub fn updateCompletion(&mut self, text: &str)
        ensures
            final(self)@ == (PanelV {
                compose: ComposeV {
                    completion: completion_for(text@, old(self)@.compose.completion),
                    ..old(self)@.compose
                },
                ..old(self)@
            }),
    {
        let v = charsOf(text);
        let mut spaced = false;
        let mut i: usize = 0;
        while i < v.len()
            invariant
                i <= v@.len(),
                v@ == text@,
                spaced == text@.take(i as int).contains(' '),
            decreases v@.len() - i,
        {
            let ghost a = text@.take(i as int);
            let ghost b = text@.take(i + 1);
            proof {
                assert(b =~= a.push(text@[i as int]));
                if a.contains(' ') {
                    let k = choose|k: int| 0 <= k < a.len() && a[k] == ' ';
                    assert(b[k] == ' ');
                }
                if text@[i as int] == ' ' {
                    assert(b[i as int] == ' ');
                }
                if b.contains(' ') && text@[i as int] != ' ' {
                    let k = choose|k: int| 0 <= k < b.len() && b[k] == ' ';
                    assert(a[k] == ' ');
                }
            }
            if v[i] == ' ' {
                spaced = true;
            }
            i = i + 1;
        }
        proof {
            assert(text@.take(text@.len() as int) =~= text@);
        }
        if v.len() == 0 || v[0] != '/' || spaced {
            self.compose.completion = None;
            return;
        }
        let prefix = fromRange(&v, 1, v.len());
        proof {
            assert(prefix@ =~= text@.skip(1));
        }
        let matches = completions(prefix.as_str());
        let n: usize = matches.len();
        proof {
            assert(command_views(matches@).len() == n);
        }
        if n == 0 {
            self.compose.completion = None;
            return;
        }
        let kept: usize = match &self.compose.completion {
            Some(c) => c.selected,
            None => 0,
        };
        let selected: usize = if kept < n {
            kept
        } else {
            0
        };
        self.compose.completion = Some(CompletionState { matches, selected });
    }

    /// The text of the selected completion.
    pub fn completeSelected(&self) -> (r: Option<String>)
        ensures
            opt_text(r) == completed(self@.compose.completion),
    {
        match &self.compose.completion {
            None => None,
            Some(c) => {
                proof {
                    assert(command_views(c.matches@).len() == c.matches@.len());
                }
                if c.selected >= c.matches.len() {
                    return None;
                }
                proof {
                    assert(command_views(c.matches@)[c.selected as int]
                        == c.matches@[c.selected as int]@);
                }
                let mut s = String::from_str("/");
                s.append(c.matches[c.selected].name);
                s.append(" ");
                Some(s)
            },
        }
    }

    /// Selects the next completion.
    pub fn selectNext(&mut self)
        ensures
            final(self)@ == (PanelV {
                compose: ComposeV {
                    completion: match old(self)@.compose.completion {
                        Some(c) => Some(
                            if c.selected + 1 < c.matches.len() {
                                CompletionV { selected: (c.selected + 1) as usize, ..c }
                            } else {
                                c
                            },
                        ),
                        None => None,
                    },
                    ..old(self)@.compose
                },
                ..old(self)@
            }),
    {
        match &mut self.compose.completion {
            Some(c) => {
                proof {
                    assert(command_views(c.matches@).len() == c.matches@.len());
                }
                let n: usize = c.matches.len();
                if c.selected < n && n - c.selected > 1 {
                    c.selected = c.selected + 1;
                }
            },
            None => {},
        }
    }

    /// Selects the completion before.
    pub fn selectPrev(&mut self)
        ensures
            final(self)@ == (PanelV {
                compose: ComposeV {
                    completion: match old(self)@.compose.completion {
                        Some(c) => Some(
                            CompletionV { selected: minus(c.selected as int, 1) as usize, ..c },
                        ),
                        None => None,
                    },
                    ..old(self)@.compose
                },
                ..old(self)@
            }),
    {
        match &mut self.compose.completion {
            Some(c) => {
                c.selected = c.selected.saturating_sub(1);
            },
            None => {},
        }
    }

    /// Closes the completion.
    pub fn dismissCompletion(&mut self)
        ensures
            final(self)@ == (PanelV {
                compose: ComposeV { completion: None, ..old(self)@.compose },
                ..old(self)@
            }),
    {
        self.compose.completion = None;
    }

    /// Whether a completion is shown.
    pub fn completionActive(&self) -> (r: bool)
        ensures
            r == (self@.compose.completion is Some),
    {
        self.compose.completion.is_some()
    }
}

/// The shell command that waits for permission.
pub open spec fn pending_command(p: PanelV) -> Option<Seq<char>> {
    if p.permit.pending && p.entries.len() > 0 && p.entries.last() is ToolRequest {
        p.entries.last()->ToolRequest_command
    } else {
        None
    }
}

/// The completion for the text of the input, where `was` was shown before. The
/// selection stays where it still is one.
pub open spec fn completion_for(text: Seq<char>, was: Option<CompletionV>) -> Option<CompletionV> {
    if text.len() == 0 || text[0] != '/' || text.contains(' ') {
        None
    } else {
        let matches = completing(text.skip(1), 15);
        if matches.len() == 0 {
            None
        } else {
            let kept = match was {
                Some(c) => c.selected,
                None => 0,
            };
            Some(
                CompletionV {
                    matches,
                    selected: if kept < matches.len() {
                        kept
                    } else {
                        0
                    },
                },
            )
        }
    }
}

/// The text that the selected completion stands for.
pub open spec fn completed(c: Option<CompletionV>) -> Option<Seq<char>> {
    match c {
        Some(c) => if c.selected < c.matches.len() {
            Some("/"@ + c.matches[c.selected as int].name + " "@)
        } else {
            None
        },
        None => None,
    }
}

} // verus!
