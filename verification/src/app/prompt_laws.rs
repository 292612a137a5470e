//! What holds of the prompt for a tool, and of what the keys and commands ask for.

use vstd::prelude::*;
use crate::agent_panel::entry::EntryV;
use crate::agent_panel::state::{OriginV, PanelV, PermitV};
use crate::app::deck::DeckV;
use crate::app::desk::{DeskV, Route, TerminalActV, fork_effects, terminal_act};
use crate::app::effect::EffectV;
use crate::app::request::{Reply, RequestV, ResponseV, chip_asks, command_asks, plane_of, Plane};
use crate::app::status_bar::StatusChipKind;
use crate::command::{ActionV, OutputV, around, handled, law_each_command_does_its_own, typed};
use crate::fork_picker::ForkPicker;
use crate::impact::ShellImpact;
use crate::keys::{KeyCode, KeyEvent};
use crate::text::trimmed;

verus! {

// ---- the prompt ----

/// A tool that asks for permission is shown with what it wants to do, and the prompt is
/// open for it, with the first pattern chosen. Without a turn nothing is asked.
pub proof fn law_a_request_opens_the_prompt(
    p: PanelV,
    name: Seq<char>,
    summary: Seq<char>,
    command: Option<Seq<char>>,
    patterns: Seq<Seq<char>>,
    diff: Option<Seq<char>>,
    explanation: Option<Seq<char>>,
    impact: ShellImpact,
    origin: OriginV,
)
    ensures
        ({
            let q = p.tool_request(
                name,
                summary,
                command,
                patterns,
                diff,
                explanation,
                impact,
                origin,
            );
            &&& !p.turnActive ==> q == p
            &&& p.turnActive ==> {
                &&& q.entries == p.finalized().entries.push(
                    EntryV::ToolRequest { summary, diff, command },
                )
                &&& q.permit.pending
                &&& q.permit.toolName == name
                &&& q.permit.toolSummary == summary
                &&& q.permit.patterns == patterns
                &&& q.permit.explanation == explanation
                &&& q.permit.impact == impact
                &&& q.permit.origin == Some(origin)
                &&& q.permit.selected == 0
                &&& q.permit.suppressed == p.permit.suppressed
                &&& patterns.len() > 0 ==> !q.permit.editing && q.permit.custom == patterns[0]
                &&& patterns.len() == 0 ==> q.permit.editing && q.permit.custom.len() == 0
            }
        }),
{
}

/// The pattern that is chosen at the prompt: one of those that are offered, or the one
/// that is typed where the choice is past them.
pub open spec fn is_chosen(m: PermitV, raw: Seq<char>) -> bool {
    ||| m.selected < m.patterns.len() && raw == m.patterns[m.selected as int]
    ||| m.selected >= m.patterns.len() && raw == m.custom
}

/// Each key at the prompt gives its own answer: `y` allows and `n` denies this once, `A`
/// allows and `D` denies for good what the chosen pattern matches.
pub proof fn law_each_key_gives_its_answer(d: DeckV, key: KeyEvent, raw: Seq<char>)
    requires
        is_chosen(d.panel.permit, raw),
        trimmed(raw).len() > 0,
    ensures
        key.code == KeyCode::Char('y') ==> d.permit_answer(key) == Some(ResponseV::Allow),
        key.code == KeyCode::Char('n') ==> d.permit_answer(key) == Some(ResponseV::Deny),
        key.code == KeyCode::Char('A') ==> d.permit_answer(key) == Some(
            ResponseV::AlwaysAllow(trimmed(raw)),
        ),
        key.code == KeyCode::Char('D') ==> d.permit_answer(key) == Some(
            ResponseV::AlwaysDeny(trimmed(raw)),
        ),
{
}

/// No key but `y` and `A` lets a tool run, and none but `n` and `D` refuses one; `y` and
/// `n` do so whatever pattern is chosen.
pub proof fn law_only_these_keys_answer(d: DeckV, key: KeyEvent)
    ensures
        d.permit_answer(key) matches Some(ResponseV::Allow) ==> key.code == KeyCode::Char('y'),
        d.permit_answer(key) matches Some(ResponseV::AlwaysAllow(_)) ==> key.code
            == KeyCode::Char('A'),
        d.permit_answer(key) matches Some(ResponseV::Deny) ==> key.code == KeyCode::Char('n'),
        d.permit_answer(key) matches Some(ResponseV::AlwaysDeny(_)) ==> key.code
            == KeyCode::Char('D'),
        key.code == KeyCode::Char('y') ==> d.permit_answer(key) == Some(ResponseV::Allow),
        key.code == KeyCode::Char('n') ==> d.permit_answer(key) == Some(ResponseV::Deny),
{
}

/// A blank pattern is not kept: the prompt stays open as it was, nothing is answered,
/// and a notice says why.
pub proof fn law_a_blank_pattern_is_refused(d: DeckV, key: KeyEvent, raw: Seq<char>)
    requires
        is_chosen(d.panel.permit, raw),
        trimmed(raw).len() == 0,
        key.code == KeyCode::Char('A') || key.code == KeyCode::Char('D'),
    ensures
        d.permit_answer(key) is None,
        d.at_prompt(key).panel.permit == d.panel.permit,
        d.at_prompt(key).panel.entries.len() == d.panel.entries.len() + 1,
        d.at_prompt(key).panel.entries.last() is CommandResult,
        d.at_prompt(key).panel.entries.drop_last() == d.panel.entries,
{
    reveal(DeckV::at_prompt);
    assert(d.at_prompt(key).panel.entries.drop_last() =~= d.panel.entries);
}

/// An answer is handed on as it was given, once, and closes the prompt. The tool is
/// shown as approved exactly where it was allowed, unless it is a task or shows a
/// receipt of its own.
pub proof fn law_an_answer_is_handed_on(d: DeckV, a: ResponseV)
    ensures
        ({
            let e = d.answer_effects(a);
            let q = d.answered(a).panel;
            let name = d.panel.permit.toolName;
            let quiet = name == "task"@ || name == "scheduleWakeup"@ || name == "cronCreate"@
                || name == "fileWatch"@ || name == "cronDelete"@;
            &&& e.len() > 0
            &&& e[0] == EffectV::Answer(a)
            &&& forall|i: int| 0 < i < e.len() ==> !(#[trigger] e[i] is Answer)
            &&& !q.permit.pending
            &&& q.permit.origin is None
            &&& q.turnActive == d.panel.turnActive
            &&& (a is Allow || a is AlwaysAllow) && !quiet ==> q.entries == d.panel.entries.push(
                EntryV::ToolApproved(name),
            )
            &&& (a is Allow || a is AlwaysAllow) && quiet ==> q.entries == d.panel.entries
            &&& a is Deny || a is AlwaysDeny ==> q.entries == d.panel.entries
            &&& !d.answered(a).title.unseenPermit
        }),
{
    reveal(DeckV::panel_answered);
    reveal(DeckV::answer_effects);
}

/// Other keys leave the question open: they move the choice, edit the pattern or open
/// the subagents, and nothing else of the conversation changes.
pub proof fn law_other_keys_leave_the_question_open(d: DeckV, key: KeyEvent)
    requires
        key.code != KeyCode::Char('A'),
        key.code != KeyCode::Char('D'),
    ensures
        d.at_prompt(key).panel.permit.pending == d.panel.permit.pending,
        d.at_prompt(key).panel.permit.patterns == d.panel.permit.patterns,
        d.at_prompt(key).panel.permit.toolName == d.panel.permit.toolName,
        d.at_prompt(key).panel.entries == d.panel.entries,
        d.at_prompt(key).panel.turnActive == d.panel.turnActive,
        d.at_prompt(key).title == d.title,
{
    reveal(DeckV::at_prompt);
}

/// Shift with an arrow moves the choice by one, between the first pattern and the one
/// that is typed, and a step back undoes a step on.
pub proof fn law_the_choice_moves_by_one(d: DeckV, up: KeyEvent, down: KeyEvent)
    requires
        up.code == KeyCode::Up,
        down.code == KeyCode::Down,
        up.modifiers.shift,
        down.modifiers.shift,
        d.panel.permit.selected <= d.panel.permit.patterns.len() <= usize::MAX,
    ensures
        ({
            let m = d.panel.permit;
            let (u, v) = (d.at_prompt(up).panel.permit, d.at_prompt(down).panel.permit);
            &&& m.selected > 0 ==> u.selected == m.selected - 1 && !u.editing
            &&& m.selected == 0 ==> u == m
            &&& m.selected < m.patterns.len() ==> v.selected == m.selected + 1
            &&& m.selected == m.patterns.len() ==> v == m
            &&& v.selected == v.patterns.len() && m.selected < m.patterns.len() ==> v.editing
            &&& m.selected < m.patterns.len() ==> d.at_prompt(down).at_prompt(
                up,
            ).panel.permit.selected == m.selected
            &&& u.custom == m.custom && v.custom == m.custom
        }),
{
    reveal(DeckV::at_prompt);
}

/// What is typed into the pattern is added at its end, and a backspace takes it away
/// again.
pub proof fn law_the_pattern_is_typed(d: DeckV, c: char, key: KeyEvent, back: KeyEvent)
    requires
        d.panel.permit.editing,
        key.code == KeyCode::Char(c),
        c != 'y' && c != 'n' && c != 'A' && c != 'D',
        back.code == KeyCode::Backspace,
    ensures
        d.permit_answer(key) is None,
        d.permit_answer(back) is None,
        d.at_prompt(key).panel.permit.custom == d.panel.permit.custom.push(c),
        d.at_prompt(key).at_prompt(back) == d,
{
    reveal(DeckV::at_prompt);
    let q = d.at_prompt(key).at_prompt(back);
    assert(q.panel.permit.custom =~= d.panel.permit.custom);
}

// ---- what commands ask for ----

/// Each action asks the session for its own thing, and waits for what answers it.
pub proof fn law_each_action_asks_its_own(id: Seq<char>)
    ensures
        command_asks(ActionV::ShowContext) == seq![(RequestV::ShowContext, Reply::Context)],
        command_asks(ActionV::ShowCost) == seq![(RequestV::ShowCost, Reply::Text)],
        command_asks(ActionV::Undo) == seq![(RequestV::Undo, Reply::Ack)],
        command_asks(ActionV::Clear) == seq![(RequestV::Clear, Reply::Ack)],
        command_asks(ActionV::Mcp) == seq![(RequestV::GetMcp, Reply::Mcp)],
        command_asks(ActionV::Lsp) == seq![(RequestV::GetLsp, Reply::Lsp)],
        command_asks(ActionV::Permissions) == seq![(RequestV::GetPermissions, Reply::Permissions)],
        command_asks(ActionV::Model) == seq![(RequestV::GetModels, Reply::Models)],
        command_asks(ActionV::Tasks) == seq![
            (RequestV::ListJobs, Reply::Jobs),
            (RequestV::ListWakes, Reply::Wakes),
        ],
        command_asks(ActionV::Forks(None)) == seq![(RequestV::GetForks, Reply::Forks)],
        command_asks(ActionV::Forks(Some(id))) == seq![(RequestV::SwitchFork(id), Reply::Ack)],
        command_asks(ActionV::Resume(None)) == seq![(RequestV::ListSessions, Reply::Text)],
        command_asks(ActionV::Resume(Some(id))) == seq![
            (RequestV::ResumeSession(id), Reply::Resumed),
        ],
        id.len() > 0 ==> command_asks(ActionV::Rewind(id)) == seq![
            (RequestV::Rewind { target: id, saveFork: false }, Reply::Ack),
        ],
        id.len() == 0 ==> command_asks(ActionV::Rewind(id)) == seq![
            (RequestV::GetRewindOptions, Reply::RewindOptions),
        ],
        command_asks(ActionV::Logs).len() == 0,
        command_asks(ActionV::ShowLayout).len() == 0,
{
}

/// The chips of the status bar ask for what they show.
pub proof fn law_each_chip_asks_its_own()
    ensures
        chip_asks(StatusChipKind::Jobs) == seq![
            (RequestV::ListJobs, Reply::Jobs),
            (RequestV::ListWakes, Reply::Wakes),
        ],
        chip_asks(StatusChipKind::Cost) == seq![(RequestV::ShowCost, Reply::Text)],
        chip_asks(StatusChipKind::Context) == seq![(RequestV::ShowContext, Reply::Context)],
{
}

/// What the session is asked for once a command was typed.
pub open spec fn asks_of(r: Option<OutputV>) -> Seq<(RequestV, Reply)> {
    match r {
        Some(o) => match o {
            OutputV::Action(a) => command_asks(a),
            OutputV::Inline(_) => Seq::empty(),
        },
        None => Seq::empty(),
    }
}

/// What is typed behind `/rewind`, `/resume` and `/forks` is what the session is asked
/// for, and the project is set back only by `/undo`.
pub proof fn law_typed_commands_ask_the_session(
    before: Seq<char>,
    word: Seq<char>,
    rest: Seq<char>,
)
    requires
        around(before, rest),
        trimmed(rest).len() > 0,
    ensures
        ({
            let r = handled(typed(before, word, rest));
            let arg = trimmed(rest);
            &&& word == "rewind"@ ==> asks_of(r) == seq![(RequestV::Rewind { target: arg, saveFork: false }, Reply::Ack)]
            &&& word == "resume"@ ==> asks_of(r) == seq![(RequestV::ResumeSession(arg), Reply::Resumed)]
            &&& word == "forks"@ ==> asks_of(r) == seq![(RequestV::SwitchFork(arg), Reply::Ack)]
            &&& word == "clear"@ ==> asks_of(r) == seq![(RequestV::Clear, Reply::Ack)]
            &&& word == "undo"@ ==> asks_of(r) == seq![(RequestV::Undo, Reply::Ack)]
        }),
{
    law_each_command_does_its_own(before, word, rest);
}

/// Jobs and wakes are answered by those who keep them, terminals by theirs, and all else
/// by the session.
pub proof fn law_requests_go_where_they_are_kept(q: RequestV)
    ensures
        q is ListJobs || q is ListWakes || q is KillTask || q is GetTaskOutput <==> plane_of(q)
            == Plane::Tasks,
        q is SpawnTerminal || q is KillTerminal || q is ListTerminals <==> plane_of(q)
            == Plane::Terminals,
{
}

// ---- keys for the whole deck ----

/// Control with `q` quits only where it was pressed just before; control with `l` draws
/// anew; control with `h` opens and closes the popup of hotkeys, and any other key closes
/// it.
pub proof fn law_the_global_keys(d: DeskV, key: KeyEvent, now: u64)
    ensures
        ({
            let ctrl = key.modifiers.control;
            let q = ctrl && key.code == KeyCode::Char('q');
            let l = ctrl && key.code == KeyCode::Char('l');
            let o = ctrl && key.code == KeyCode::Char('o');
            let h = ctrl && key.code == KeyCode::Char('h');
            &&& d.global(key, now) is Quit ==> q && d.quitPress is Some
            &&& q && d.quitPress is None ==> d.after_global(key, now).quitPress == Some(now)
                && d.global(key, now) is Taken
            &&& d.global(key, now) is Redraw <==> l
            &&& h ==> d.after_global(key, now).help == !d.help
            &&& d.help && !q && !l && !o && !h ==> !d.after_global(key, now).help && d.global(
                key,
                now,
            ) is Taken && d.global_effects(key).len() == 0
            &&& d.after_global(key, now).deck.panel.entries == d.deck.panel.entries
        }),
{
}

/// After a turn failed, control with `r` asks for it to be tried again and control with a
/// blank for it to go on; the hint goes, and the cancelling of the turn is taken back.
pub proof fn law_a_failed_turn_is_taken_up(d: DeskV, key: KeyEvent, now: u64)
    requires
        d.deck.panel.compose.errorHint,
        !d.help,
        key.modifiers.control,
    ensures
        key.code == KeyCode::Char('r') ==> d.global_effects(key) == seq![
            EffectV::Cancel(false),
            EffectV::Ask(RequestV::RetryLastTurn, Reply::Ack),
        ],
        key.code == KeyCode::Char(' ') ==> d.global_effects(key) == seq![
            EffectV::Cancel(false),
            EffectV::Ask(RequestV::ContinueLastTurn, Reply::Ack),
        ],
        key.code == KeyCode::Char('r') || key.code == KeyCode::Char(' ') ==> !d.after_global(
            key,
            now,
        ).deck.panel.compose.errorHint && d.global(key, now) is Taken,
{
}

/// Without a failed turn no key for the whole deck asks the session for anything.
pub proof fn law_global_keys_ask_nothing_else(d: DeskV, key: KeyEvent)
    requires
        !d.deck.panel.compose.errorHint,
    ensures
        d.global_effects(key).len() == 0,
{
}

/// Where a key goes: escape ends a running turn before all else, the prompt comes before
/// any panel, a panel before what it covers, and what is left goes to the part that has
/// the focus.
pub proof fn law_where_a_key_goes(d: DeskV, key: KeyEvent)
    requires
        key.code != KeyCode::Tab,
        !key.modifiers.superKey,
    ensures
        ({
            let k = d.deck;
            let ends = key.code == KeyCode::Esc && k.panel.turnActive;
            let asked = k.panel.permit.pending;
            let bare = !k.open.sessions && k.tasks is None && !k.open.log && !k.open.rewind
                && k.forks is None && !k.open.mcp && d.arrangement.panel is None && !k.open.lsp
                && !k.open.model && !k.open.permissions && d.statusFocus is None;
            &&& ends <==> d.route(key) == Route::Cancel
            &&& !ends && asked ==> d.route(key) == Route::Permit
            &&& d.route(key) == Route::Permit ==> asked
            &&& !ends && !asked && k.open.sessions ==> d.route(key) == Route::Sessions
            &&& !ends && !asked && !k.open.sessions && k.tasks is Some ==> d.route(key)
                == Route::Tasks
            &&& !ends && !asked && bare && d.focus is Terminal ==> d.route(key) == Route::Terminal
            &&& !ends && !asked && bare && d.focus is Agent ==> d.route(key) == Route::Agent
            &&& d.route(key) == Route::Log ==> k.open.log
            &&& d.route(key) == Route::Rewind ==> k.open.rewind
            &&& d.route(key) == Route::Forks ==> k.forks is Some
            &&& d.route(key) == Route::Mcp ==> k.open.mcp
            &&& d.route(key) == Route::Lsp ==> k.open.lsp
            &&& d.route(key) == Route::Model ==> k.open.model
            &&& d.route(key) == Route::Permissions ==> k.open.permissions
            &&& d.route(key) == Route::Layout ==> d.arrangement.panel is Some
            &&& d.route(key) == Route::Status ==> d.statusFocus is Some
            &&& d.route(key) == Route::Terminal ==> d.focus is Terminal
            &&& d.route(key) == Route::Agent ==> d.focus is Agent
        }),
{
}

/// Tab moves the focus where nothing is open and no completion is offered, and the copy
/// key copies wherever it is pressed.
pub proof fn law_tab_and_copy(d: DeskV, key: KeyEvent)
    requires
        !(key.code == KeyCode::Esc),
    ensures
        d.route(key) == Route::SwitchFocus ==> key.code == KeyCode::Tab && !d.is_covered(),
        key.code == KeyCode::Tab && !d.is_covered() && (d.focus is Terminal
            || d.deck.panel.compose.completion is None) ==> d.route(key) == Route::SwitchFocus,
        key.modifiers.superKey && key.code == KeyCode::Char('c') ==> d.route(key) == Route::Copy,
        d.route(key) == Route::Copy ==> key.modifiers.superKey && key.code == KeyCode::Char('c'),
{
}

/// The picker of forks switches to the fork that is chosen, and asks for nothing else.
pub proof fn law_the_chosen_fork_is_switched_to(p: ForkPicker, key: KeyEvent)
    ensures
        p.state is Browsing && key.code == KeyCode::Enter && p.selected < p.rows@.len()
            ==> fork_effects(p, key) == seq![
            EffectV::Ask(RequestV::SwitchFork(p.rows@[p.selected as int].forkId@), Reply::Ack),
        ],
        fork_effects(p, key).len() > 0 ==> key.code == KeyCode::Enter,
{
}

/// In the terminal, control with `t` starts a terminal, with a digit shows the tab of
/// that number, and with `c` stops what runs.
pub proof fn law_the_keys_of_the_terminal(key: KeyEvent, c: char)
    requires
        !key.modifiers.superKey,
        key.modifiers.control,
        key.code == KeyCode::Char(c),
    ensures
        c == 't' ==> terminal_act(key) == TerminalActV::Spawn,
        c == 'c' ==> terminal_act(key) == TerminalActV::Kill,
        c == '1' ==> terminal_act(key) == TerminalActV::Jump(0),
        c == '9' ==> terminal_act(key) == TerminalActV::Jump(8),
        '1' <= c <= '9' ==> terminal_act(key) is Jump && terminal_act(key)->Jump_0 + '1' as int
            == c as int,
        terminal_act(key) is Spawn ==> c == 't',
        terminal_act(key) is Kill ==> c == 'c',
{
}

} // verus!
