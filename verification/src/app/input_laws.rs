//! What holds of what is typed, sent and clicked.

use vstd::prelude::*;
use crate::agent_panel::entry::EntryV;
use crate::agent_panel::prompts::completion_for;
use crate::agent_panel::state::{PanelV, UserInput};
use crate::app::composing::{
    TextAct, agent_step, command_effects, input_step, is_message, menu_step, text_act,
};
use crate::app::desk::action_effects;
use crate::app::desk::{DeskV, ask_effects};
use crate::app::effect::EffectV;
use crate::app::mouse::{
    MouseInput, PanelId, TabClick, agent_click, focus_of, prompt_click, tab_effects, wheel_scrolled,
};
use crate::app::prompt_laws::is_chosen;
use crate::app::request::{Reply, RequestV, ResponseV};
use crate::command::{ActionV, OutputV, law_only_matches_are_offered, registry};
use crate::draw::Rect;
use crate::history::law_what_was_sent_is_shown_first;
use crate::jobs_panel::{JobId, JobsPanel, Mode, PanelAction};
use crate::keys::{KeyCode, KeyEvent};
use crate::text::{has_prefix, trimmed};

verus! {

// ---- sending ----

/// A message that is sent is shown word for word, begins a turn, takes its images along,
/// and is what the history shows first.
pub proof fn law_a_sent_message_is_shown_and_kept(
    d: DeskV,
    msg: Seq<char>,
    now: u64,
    typed: Seq<char>,
)
    requires
        msg.len() > 0,
        d.deck.panel.compose.attachments.len() == 0,
    ensures
        ({
            let p = d.deck.panel;
            let q = d.sent(msg, now);
            &&& q.entries == p.entries.push(EntryV::User(msg))
            &&& q.turnActive
            &&& !q.compose.errorHint
            &&& q.compose.attachments.len() == 0
            &&& q.compose.queue == p.compose.queue
            &&& q.compose.history.shown_up(typed) == Some(msg)
            &&& q.scroll.offset == 0
        }),
{
    law_what_was_sent_is_shown_first(d.deck.panel.compose.history, msg, typed);
}

/// The images that go with a message are gone from the input once it is sent or queued,
/// and the message carries them.
pub proof fn law_images_go_with_the_message(
    d: DeskV,
    msg: String,
    input: UserInput,
    now: u64,
)
    requires
        is_message(input, msg, d.deck.panel),
    ensures
        input.text@ == msg@,
        input.attachments@ == d.deck.panel.compose.attachments,
        d.sent(msg@, now).compose.attachments.len() == 0,
        d.queued(msg@, input).compose.attachments.len() == 0,
        d.queued(msg@, input).compose.queue.last() == input,
        d.queued(msg@, input).compose.queue.drop_last() == d.deck.panel.compose.queue,
        d.queued(msg@, input).entries == d.deck.panel.entries,
{
    assert(d.queued(msg@, input).compose.queue.drop_last() =~= d.deck.panel.compose.queue);
}

/// A command is shown as it was typed; what it says follows it, and what it asks for is
/// asked. It is kept in the history as a message is.
pub proof fn law_a_command_is_shown_and_carried_out(
    d: DeskV,
    msg: Seq<char>,
    text: Seq<char>,
    a: ActionV,
    typed: Seq<char>,
)
    requires
        msg.len() > 0,
    ensures
        ({
            let e = d.deck.panel.entries;
            let said = d.after_command(msg, OutputV::Inline(text)).deck.panel;
            let done = d.after_command(msg, OutputV::Action(a)).deck.panel;
            &&& said.entries == e.push(EntryV::User(msg)).push(EntryV::CommandResult(text))
            &&& command_effects(OutputV::Inline(text)).len() == 0
            &&& done.entries == e.push(EntryV::User(msg))
            &&& done.turnActive == d.deck.panel.turnActive
            &&& said.compose.history.shown_up(typed) == Some(msg)
            &&& done.compose.history.shown_up(typed) == Some(msg)
        }),
{
    reveal(DeskV::after_command);
    law_what_was_sent_is_shown_first(d.deck.panel.compose.history, msg, typed);
}

/// What commands ask for: each its own request, the picker of sessions where none is
/// named, and the log where it is wanted.
pub proof fn law_actions_have_their_effects(d: DeskV, msg: Seq<char>, id: Seq<char>)
    ensures
        command_effects(OutputV::Action(ActionV::Undo)) == seq![
            EffectV::Ask(RequestV::Undo, Reply::Ack),
        ],
        command_effects(OutputV::Action(ActionV::Clear)) == seq![
            EffectV::Ask(RequestV::Clear, Reply::Ack),
        ],
        command_effects(OutputV::Action(ActionV::ShowContext)) == seq![
            EffectV::Ask(RequestV::ShowContext, Reply::Context),
        ],
        command_effects(OutputV::Action(ActionV::ShowCost)) == seq![
            EffectV::Ask(RequestV::ShowCost, Reply::Text),
        ],
        command_effects(OutputV::Action(ActionV::Mcp)) == seq![
            EffectV::Ask(RequestV::GetMcp, Reply::Mcp),
        ],
        command_effects(OutputV::Action(ActionV::Lsp)) == seq![
            EffectV::Ask(RequestV::GetLsp, Reply::Lsp),
        ],
        command_effects(OutputV::Action(ActionV::Permissions)) == seq![
            EffectV::Ask(RequestV::GetPermissions, Reply::Permissions),
        ],
        command_effects(OutputV::Action(ActionV::Model)) == seq![
            EffectV::Ask(RequestV::GetModels, Reply::Models),
        ],
        command_effects(OutputV::Action(ActionV::Tasks)) == seq![
            EffectV::Ask(RequestV::ListJobs, Reply::Jobs),
            EffectV::Ask(RequestV::ListWakes, Reply::Wakes),
        ],
        command_effects(OutputV::Action(ActionV::Resume(Some(id)))) == seq![
            EffectV::Ask(RequestV::ResumeSession(id), Reply::Resumed),
        ],
        command_effects(OutputV::Action(ActionV::Resume(None))) == seq![EffectV::OpenSessions],
        command_effects(OutputV::Action(ActionV::Forks(Some(id)))) == seq![
            EffectV::Ask(RequestV::SwitchFork(id), Reply::Ack),
        ],
        command_effects(OutputV::Action(ActionV::Forks(None))) == seq![
            EffectV::Ask(RequestV::GetForks, Reply::Forks),
        ],
        id.len() > 0 ==> command_effects(OutputV::Action(ActionV::Rewind(id))) == seq![
            EffectV::Ask(RequestV::Rewind { target: id, saveFork: false }, Reply::Ack),
        ],
        id.len() == 0 ==> command_effects(OutputV::Action(ActionV::Rewind(id))) == seq![
            EffectV::Ask(RequestV::GetRewindOptions, Reply::RewindOptions),
        ],
        command_effects(OutputV::Action(ActionV::Logs)) == seq![EffectV::OpenLog],
        command_effects(OutputV::Action(ActionV::ShowLayout)).len() == 0,
        d.after_command(msg, OutputV::Action(ActionV::Resume(None))).deck.open.sessions,
        d.after_command(msg, OutputV::Action(ActionV::Logs)).deck.open.log,
        d.opens_layout(OutputV::Action(ActionV::ShowLayout)) == d.arrangement.panel is None,
{
    reveal(DeskV::after_command);
    lemma_single(ActionV::Undo, (RequestV::Undo, Reply::Ack));
    lemma_single(ActionV::Clear, (RequestV::Clear, Reply::Ack));
    lemma_single(ActionV::ShowContext, (RequestV::ShowContext, Reply::Context));
    lemma_single(ActionV::ShowCost, (RequestV::ShowCost, Reply::Text));
    lemma_single(ActionV::Mcp, (RequestV::GetMcp, Reply::Mcp));
    lemma_single(ActionV::Lsp, (RequestV::GetLsp, Reply::Lsp));
    lemma_single(ActionV::Permissions, (RequestV::GetPermissions, Reply::Permissions));
    lemma_single(ActionV::Model, (RequestV::GetModels, Reply::Models));
    lemma_single(ActionV::Resume(Some(id)), (RequestV::ResumeSession(id), Reply::Resumed));
    lemma_single(ActionV::Forks(Some(id)), (RequestV::SwitchFork(id), Reply::Ack));
    lemma_single(ActionV::Forks(None), (RequestV::GetForks, Reply::Forks));
    if id.len() > 0 {
        lemma_single(
            ActionV::Rewind(id),
            (RequestV::Rewind { target: id, saveFork: false }, Reply::Ack),
        );
    } else {
        lemma_single(ActionV::Rewind(id), (RequestV::GetRewindOptions, Reply::RewindOptions));
    }
    assert(command_effects(OutputV::Action(ActionV::Tasks)) =~= seq![
        EffectV::Ask(RequestV::ListJobs, Reply::Jobs),
        EffectV::Ask(RequestV::ListWakes, Reply::Wakes),
    ]);
}

proof fn lemma_single(a: ActionV, q: (RequestV, Reply))
    requires
        crate::app::request::command_asks(a) == seq![q],
        !(a matches ActionV::Resume(id) && id is None),
        !(a is Logs),
        !(a is ShowLayout),
    ensures
        command_effects(OutputV::Action(a)) == seq![EffectV::Ask(q.0, q.1)],
{
    assert(ask_effects(seq![q]) =~= seq![EffectV::Ask(q.0, q.1)]);
}

// ---- the input ----

/// A character is typed as it is; enter sends, and with shift begins a new line.
pub proof fn law_keys_edit_the_text(key: KeyEvent, c: char)
    ensures
        key.code == KeyCode::Enter && !key.modifiers.shift ==> text_act(key) == TextAct::Submit,
        key.code == KeyCode::Enter && key.modifiers.shift ==> text_act(key) == TextAct::Insert(
            '\n',
        ),
        text_act(key) is Submit ==> key.code == KeyCode::Enter && !key.modifiers.shift,
        key.code == KeyCode::Char(c) && !key.modifiers.control && !key.modifiers.superKey
            ==> text_act(key) == TextAct::Insert(c),
        text_act(key) matches TextAct::Insert(x) ==> key.code == KeyCode::Char(x) || (key.code
            == KeyCode::Enter && x == '\n'),
        key.code == KeyCode::Backspace && !key.modifiers.superKey && !key.modifiers.alt ==> text_act(
            key,
        ) is Backspace,
        key.code == KeyCode::Backspace && key.modifiers.alt && !key.modifiers.superKey ==> text_act(
            key,
        ) is DeleteWordLeft,
        key.code == KeyCode::Backspace && key.modifiers.superKey ==> text_act(key) is KillToStart,
        key.code == KeyCode::Delete ==> text_act(key) is Delete,
        key.code == KeyCode::Home ==> text_act(key) is MoveHome,
        key.code == KeyCode::End ==> text_act(key) is MoveEnd,
        ({
            let plain = !key.modifiers.superKey && !key.modifiers.alt && !key.modifiers.control;
            &&& key.code == KeyCode::Left && plain ==> text_act(key) is MoveLeft
            &&& key.code == KeyCode::Right && plain ==> text_act(key) is MoveRight
            &&& key.code == KeyCode::Left && key.modifiers.superKey ==> text_act(key) is MoveHome
            &&& key.code == KeyCode::Right && key.modifiers.superKey ==> text_act(key) is MoveEnd
            &&& key.code == KeyCode::Left && key.modifiers.alt && !key.modifiers.superKey
                ==> text_act(key) is MoveWordLeft
            &&& key.code == KeyCode::Right && key.modifiers.alt && !key.modifiers.superKey
                ==> text_act(key) is MoveWordRight
        }),
        ({
            let ctrl = key.modifiers.control;
            &&& ctrl && key.code == KeyCode::Char('a') ==> text_act(key) is MoveHome
            &&& ctrl && key.code == KeyCode::Char('e') ==> text_act(key) is MoveEnd
            &&& ctrl && key.code == KeyCode::Char('k') ==> text_act(key) is KillToEnd
            &&& ctrl && key.code == KeyCode::Char('u') ==> text_act(key) is KillToStart
            &&& ctrl && key.code == KeyCode::Char('y') ==> text_act(key) is Yank
        }),
{
}

/// Arrows on the first and the last line browse the history, and else move the cursor.
pub proof fn law_arrows_browse_the_history(
    p: PanelV,
    up: KeyEvent,
    down: KeyEvent,
    text: Seq<char>,
    chips: bool,
)
    requires
        up.code == KeyCode::Up,
        down.code == KeyCode::Down,
        p.compose.completion is None,
        p.compose.queue.len() == 0,
        p.compose.history.wf(),
    ensures
        ({
            let h = p.compose.history;
            let u = agent_step(p, up, true, true, text, chips);
            let d = agent_step(p, down, true, true, text, chips);
            &&& h.entries.len() > 0 && h.cursor is None ==> u.out == seq![
                EffectV::SetInput(h.entries.last()),
            ]
            &&& h.entries.len() == 0 ==> u.out.len() == 0
            &&& u.panel.compose.history == h.up(text)
            &&& d.panel.compose.history == h.down()
            &&& h.cursor is None ==> d.out.len() == 0 && d.statusFocus == (if chips {
                Some(0usize)
            } else {
                None
            })
            &&& h.cursor == Some(h.entries.len() - 1) ==> d.out == seq![EffectV::SetInput(h.draft)]
            &&& u.step.navigating && d.step.navigating
            &&& agent_step(p, up, false, true, text, chips).step.act is MoveUp
            &&& agent_step(p, down, true, false, text, chips).step.act is MoveDown
            &&& u.panel.entries == p.entries && d.panel.entries == p.entries
        }),
{
    reveal(menu_step);
    reveal(input_step);
    let none = Seq::<EffectV>::empty();
    let h = p.compose.history;
    if h.entries.len() > 0 && h.cursor is None {
        assert(none + seq![EffectV::SetInput(h.entries.last())] =~= seq![
            EffectV::SetInput(h.entries.last()),
        ]);
    }
    if h.cursor == Some(h.entries.len() - 1) {
        assert(none + seq![EffectV::SetInput(h.draft)] =~= seq![EffectV::SetInput(h.draft)]);
    }
}

/// Control with `d` takes the image that was added last out of the input, and with `b`
/// asks for the running command to go on in the background; pages scroll the
/// conversation.
pub proof fn law_the_keys_of_the_input(
    p: PanelV,
    key: KeyEvent,
    first: bool,
    last: bool,
    text: Seq<char>,
    chips: bool,
)
    requires
        p.compose.completion is None,
    ensures
        ({
            let s = agent_step(p, key, first, last, text, chips);
            let ctrl = key.modifiers.control;
            let n = p.compose.attachments.len() as int;
            &&& ctrl && key.code == KeyCode::Char('d') && n > 0 ==> s.panel.compose.attachments
                == p.compose.attachments.take(n - 1) && s.step.act is Nothing
            &&& ctrl && key.code == KeyCode::Char('b') ==> s.out == seq![EffectV::ToBackground]
            &&& ctrl && key.code == KeyCode::Char('v') ==> s.step.act is PasteClipboard && s.panel
                == p
            &&& key.code == KeyCode::PageUp && p.scroll.offset < 60000 ==> s.panel.scroll.offset
                == p.scroll.offset + 10
            &&& key.code == KeyCode::PageDown && p.scroll.offset >= 10 ==> s.panel.scroll.offset
                == p.scroll.offset - 10
            &&& key.code == KeyCode::Enter && !key.modifiers.shift ==> s.step.act is Submit
                && s.panel == p && s.out.len() == 0
            &&& key.code != KeyCode::Char('t') ==> s.panel.entries == p.entries
            &&& s.panel.turnActive == p.turnActive
        }),
{
    reveal(menu_step);
    reveal(input_step);
    assert(p.compose.attachments.drop_last() =~= p.compose.attachments.take(
        p.compose.attachments.len() - 1,
    ));
    assert(Seq::<EffectV>::empty() + seq![EffectV::ToBackground] =~= seq![EffectV::ToBackground]);
}

// ---- completion ----

/// Completion is offered for a command that is being typed: a slash and the beginning of
/// its name or alias, and nothing behind it.
pub proof fn law_completion_is_offered_for_commands(text: Seq<char>, k: int) -> (at: int)
    requires
        completion_for(text, None) is Some,
        0 <= k < completion_for(text, None)->0.matches.len(),
    ensures
        text[0] == '/',
        !text.contains(' '),
        0 <= at < 15,
        completion_for(text, None)->0.matches[k] == registry()[at],
        completion_for(text, None)->0.selected == 0,
        has_prefix(registry()[at].name, text.skip(1)) || exists|a: int|
            0 <= a < registry()[at].aliases.len() && has_prefix(
                #[trigger] registry()[at].aliases[a],
                text.skip(1),
            ),
{
    law_only_matches_are_offered(text.skip(1), 15, k)
}

/// The command that is chosen among those offered is put into the input with tab; the
/// arrows move the choice by one within the list, and escape closes it.
pub proof fn law_the_menu_of_completions(p: PanelV, key: KeyEvent, text: Seq<char>)
    requires
        p.compose.completion is Some,
        p.compose.completion->0.selected < p.compose.completion->0.matches.len() <= usize::MAX,
    ensures
        ({
            let c = p.compose.completion->0;
            let s = agent_step(p, key, true, true, text, false);
            &&& key.code == KeyCode::Tab ==> s.out == seq![
                EffectV::SetInput(seq!['/'] + c.matches[c.selected as int].name + seq![' ']),
            ] && s.panel == p
            &&& key.code == KeyCode::Up ==> s.panel.compose.completion is Some
                && s.panel.compose.completion->0.matches == c.matches
                && s.panel.compose.completion->0.selected == (if c.selected > 0 {
                c.selected - 1
            } else {
                0
            })
            &&& key.code == KeyCode::Down ==> s.panel.compose.completion is Some
                && s.panel.compose.completion->0.matches == c.matches
                && s.panel.compose.completion->0.selected == (if c.selected + 1
                < c.matches.len() {
                c.selected + 1
            } else {
                c.selected as int
            })
            &&& key.code == KeyCode::Esc ==> s.panel.compose.completion is None
            &&& key.code == KeyCode::Enter && !key.modifiers.shift ==> s.step.act is Submit
                && s.out.len() > 0 && s.out[0] == EffectV::SetInput(
                seq!['/'] + c.matches[c.selected as int].name + seq![' '],
            )
            &&& key.code != KeyCode::Char('t') ==> s.panel.entries == p.entries
        }),
{
    reveal(menu_step);
    reveal(input_step);
    reveal_strlit("/");
    reveal_strlit(" ");
    let c = p.compose.completion->0;
    assert("/"@ =~= seq!['/']);
    assert(" "@ =~= seq![' ']);
}

// ---- every key ----

/// The answer to a prompt is given by the key that stands for it, wherever the focus is,
/// and by no other key. Nothing is answered where nothing is asked.
pub proof fn law_prompts_are_answered_by_their_keys(
    d: DeskV,
    key: KeyEvent,
    first: bool,
    last: bool,
    text: Seq<char>,
    raw: Seq<char>,
    i: int,
)
    requires
        is_chosen(d.deck.panel.permit, raw),
    ensures
        ({
            let out = d.key_effects(key, first, last, text);
            let asked = d.deck.panel.permit.pending && !key.modifiers.superKey;
            &&& asked && key.code == KeyCode::Char('y') ==> out.len() > 0 && out[0]
                == EffectV::Answer(ResponseV::Allow)
            &&& asked && key.code == KeyCode::Char('n') ==> out.len() > 0 && out[0]
                == EffectV::Answer(ResponseV::Deny)
            &&& asked && key.code == KeyCode::Char('A') && trimmed(raw).len() > 0 ==> out.len() > 0
                && out[0] == EffectV::Answer(ResponseV::AlwaysAllow(trimmed(raw)))
            &&& asked && key.code == KeyCode::Char('D') && trimmed(raw).len() > 0 ==> out.len() > 0
                && out[0] == EffectV::Answer(ResponseV::AlwaysDeny(trimmed(raw)))
            &&& 0 <= i < out.len() && out[i] is Answer ==> {
                let a = out[i]->Answer_0;
                &&& d.deck.panel.permit.pending
                &&& a is Allow ==> key.code == KeyCode::Char('y')
                &&& a is AlwaysAllow ==> key.code == KeyCode::Char('A')
                &&& a is Deny ==> key.code == KeyCode::Char('n')
                &&& a is AlwaysDeny ==> key.code == KeyCode::Char('D')
            }
        }),
{
    reveal(DeskV::key_effects);
    reveal(crate::app::deck::DeckV::answer_effects);
    reveal(menu_step);
    reveal(input_step);
    let out = d.key_effects(key, first, last, text);
    if d.route(key) is Status {
        assert(0 <= i < out.len() ==> out[i] is Ask);
    }
}

/// Escape ends a running turn: the session is told once, and the conversation is marked.
pub proof fn law_escape_cancels_the_turn(
    d: DeskV,
    key: KeyEvent,
    first: bool,
    last: bool,
    text: Seq<char>,
)
    requires
        key.code == KeyCode::Esc,
        d.deck.panel.turnActive,
    ensures
        d.key_effects(key, first, last, text) == seq![EffectV::Cancel(true)],
        !d.after_key(key, first, last, text).deck.panel.turnActive,
        d.after_key(key, first, last, text).deck.panel.entries.last() == EntryV::Cancelled,
{
    reveal(DeskV::key_effects);
    reveal(DeskV::after_key);
}

/// The focus moves back and forth with tab.
pub proof fn law_tab_moves_the_focus(
    d: DeskV,
    key: KeyEvent,
    first: bool,
    last: bool,
    text: Seq<char>,
)
    requires
        key.code == KeyCode::Tab,
        !d.is_covered(),
        d.deck.panel.compose.completion is None,
    ensures
        d.focus is Terminal ==> d.after_key(key, first, last, text).focus is Agent,
        d.focus is Agent ==> d.after_key(key, first, last, text).focus is Terminal,
        d.after_key(key, first, last, text).deck == d.deck,
        d.key_effects(key, first, last, text).len() == 0,
{
    reveal(DeskV::key_effects);
    reveal(DeskV::after_key);
}

// ---- the mouse ----

/// The tab that is clicked on: a new one is started, a closed one is ended, and the
/// others end nothing.
pub proof fn law_clicks_on_tabs(name: String)
    ensures
        tab_effects(TabClick::NewTab) == seq![
            EffectV::Ask(RequestV::SpawnTerminal, Reply::Ignored),
        ],
        tab_effects(TabClick::Close(name)) == seq![
            EffectV::Ask(RequestV::KillTerminal(name@), Reply::Ignored),
        ],
        tab_effects(TabClick::Switch(name)).len() == 0,
        tab_effects(TabClick::Empty).len() == 0,
{
}

/// A click into a part gives it the focus, and the input has it with the conversation.
pub proof fn law_clicks_move_the_focus(p: PanelId)
    ensures
        focus_of(p) is Terminal <==> p is Terminal,
{
}

/// What a click on the copy label copies is the code of that block or the command of the
/// prompt, and nothing else is copied by a click.
pub proof fn law_clicks_copy_what_is_shown(
    p: PanelV,
    gridLine: int,
    col: int,
    now: u64,
    i: int,
    r: Rect,
    column: u16,
    row: u16,
)
    requires
        0 <= i < agent_click(p, gridLine, col, now).out.len(),
    ensures
        ({
            let c = agent_click(p, gridLine, col, now);
            &&& c.out.len() == 1
            &&& c.hit is Taken
            &&& exists|k: int|
                0 <= k < p.shown.blocks.len() && c.out[0] == EffectV::Copy(
                    (#[trigger] p.shown.blocks[k]).rawCode,
                ) && p.shown.blocks[k].startLine == p.line_at(gridLine)
            &&& c.panel.entries == p.entries
        }),
        prompt_click(p, r, column, row, now).1.len() > 0 ==> p.permit.pending && p.entries.len()
            > 0 && (p.entries.last() matches EntryV::ToolRequest { summary, diff, command }
            && command is Some && prompt_click(p, r, column, row, now).1 == seq![
            EffectV::Copy(command->0),
        ]),
{
    reveal(agent_click);
    lemma_copy_hit(p.shown.blocks, p.line_at(gridLine), col, 0);
}

proof fn lemma_copy_hit(
    r: Seq<crate::agent_panel::blocks::RangeV>,
    line: int,
    col: int,
    from: int,
)
    requires
        0 <= from,
    ensures
        crate::agent_panel::scrolling::copy_hit(r, line, col, from) matches Some(k) ==> from <= k
            < r.len() && r[k].startLine == line && col + 2 >= r[k].copyLabelCol,
    decreases r.len() - from,
{
    if from < r.len() {
        lemma_copy_hit(r, line, col, from + 1);
    }
}

/// The wheel scrolls the conversation by three lines, and back by as many.
pub proof fn law_the_wheel_scrolls_the_conversation(p: PanelV, line: int)
    requires
        p.scroll.offset < 60000,
    ensures
        wheel_scrolled(p, line, true, false).scroll.offset == p.scroll.offset + 3,
        wheel_scrolled(wheel_scrolled(p, line, true, false), line, false, false) == p,
        p.scroll.offset < 3 ==> wheel_scrolled(p, line, false, false).scroll.offset == 0,
{
}

/// Panels that cover the deck swallow the mouse; the popup of subagents takes it first;
/// chips take clicks and the moving mouse.
pub proof fn law_where_the_mouse_goes(d: DeskV, m: MouseInput)
    ensures
        d.deck.open.subagents <==> d.mouse_gate(m) is Popup,
        !d.deck.open.subagents && d.is_covered() <==> d.mouse_gate(m) is Swallowed,
        d.mouse_gate(m) is Chip ==> m.kind is DownLeft || m.kind is Moved,
        !(m.kind is DownLeft) ==> d.chip_effects(m).len() == 0,
        !(d.mouse_gate(m) is Chip) ==> d.hovered(m) == d.statusFocus,
{
}

// ---- what follows ----

/// The file of the history is written exactly where what was sent changes it.
pub proof fn law_the_history_is_kept_when_it_changes(d: DeskV, msg: Seq<char>)
    ensures
        ({
            let h = d.deck.panel.compose.history.entries;
            let again = h.len() > 0 && h.last() == msg;
            &&& msg.len() > 0 && !again ==> d.kept(msg) == seq![EffectV::KeepHistory]
            &&& msg.len() == 0 || again ==> d.kept(msg).len() == 0
        }),
{
}

/// After a key the completion fits what is typed: one that was chosen stays chosen while
/// it is still in the list, and typing ends the browsing of the history.
pub proof fn law_the_completion_follows_what_is_typed(d: DeskV, text: Seq<char>)
    ensures
        ({
            let q = d.input_settled(false, text).deck.panel;
            let r = d.input_settled(true, text).deck.panel;
            &&& q.compose.history.cursor is None
            &&& r.compose.history == d.deck.panel.compose.history
            &&& q.compose.history.entries == d.deck.panel.compose.history.entries
            &&& text.len() == 0 || text[0] != '/' || text.contains(' ')
                ==> q.compose.completion is None && r.compose.completion is None
            &&& q.compose.completion matches Some(c) ==> c.selected < c.matches.len()
            &&& q.compose.completion is Some && d.deck.panel.compose.completion is Some && (
            d.deck.panel.compose.completion->0).selected < (q.compose.completion->0).matches.len()
                ==> (q.compose.completion->0).selected == (
            d.deck.panel.compose.completion->0).selected
            &&& q.entries == d.deck.panel.entries
        }),
{
}

/// What the panel of jobs asks for is asked of the session: the job that is to end, and
/// the output of the job that is to be shown.
pub proof fn law_the_panel_of_jobs_asks_for_its_job(id: JobId, p: JobsPanel)
    ensures
        action_effects(PanelAction::Kill(id), p) == seq![
            EffectV::Ask(RequestV::KillTask(id), Reply::Ack),
        ],
        action_effects(PanelAction::Inspect(id), p) == seq![
            EffectV::Ask(RequestV::GetTaskOutput { id, sinceLine: None }, Reply::OutputOpen),
        ],
        p.mode matches Mode::Inspect(s) ==> action_effects(PanelAction::Refetch(id), p) == seq![
            EffectV::FetchOutput { id, sinceLine: s.requestedSinceLine },
        ],
        action_effects(PanelAction::Stay, p).len() == 0,
        action_effects(PanelAction::Close, p).len() == 0,
{
}

/// A key for the panel of jobs reaches it, and closes it where it says so.
pub proof fn law_keys_reach_the_panel_of_jobs(d: DeskV, key: KeyEvent, p: JobsPanel)
    requires
        d.deck.tasks == Some(p),
    ensures
        p.on_key(key).1 is Close ==> d.after_tasks(key).deck.tasks is None,
        !(p.on_key(key).1 is Close) ==> d.after_tasks(key).deck.tasks == Some(p.on_key(key).0),
        d.tasks_effects(key) == action_effects(p.on_key(key).1, p.on_key(key).0),
        d.after_tasks(key).deck.panel == d.deck.panel,
{
}

/// A click on the head of a reasoning folds or unfolds that one; on the head of a running
/// subagent it opens the popup.
pub proof fn law_clicks_on_heads(p: PanelV, gridLine: int, col: int, now: u64, i: int)
    requires
        0 <= i < p.shown.reasoningHeaders.len(),
        p.shown.reasoningHeaders[i].1 == p.line_at(gridLine),
        forall|j: int|
            0 <= j < i ==> (#[trigger] p.shown.reasoningHeaders[j]).1 != p.line_at(gridLine),
    ensures
        ({
            let c = agent_click(p, gridLine, col, now);
            &&& c.hit is Taken
            &&& c.out.len() == 0
            &&& c.panel == p.reasoning_toggled(p.shown.reasoningHeaders[i].0)
        }),
{
    reveal(agent_click);
    lemma_header(p.shown.reasoningHeaders, p.line_at(gridLine), i, 0);
}

proof fn lemma_header(h: Seq<(Option<usize>, usize)>, line: int, i: int, from: int)
    requires
        0 <= from <= i < h.len(),
        h[i].1 == line,
        forall|j: int| 0 <= j < i ==> (#[trigger] h[j]).1 != line,
    ensures
        crate::agent_panel::scrolling::header_hit(h, line, from) == Some(i),
    decreases i - from,
{
    if from < i {
        assert(h[from].1 != line);
        lemma_header(h, line, i, from + 1);
    }
}

} // verus!
