//! What the deck asks the session for, and what becomes of the replies.

use vstd::prelude::*;
use vstd::string::*;
use crate::app::session::SettingsChange;
use crate::app::status_bar::StatusChipKind;
use crate::app::updates::{CommandAck, DeckUpdate};
use crate::command::{ActionV, CommandAction};
use crate::jobs_panel::{JobId, JobOutputSnapshot};

verus! {

/// A request to the session.
#[derive(Debug)]
pub enum Request {
    ShowContext,
    ShowCost,
    Undo,
    GetRewindOptions,
    Rewind { target: String, saveFork: bool },
    GetForks,
    SwitchFork { forkId: String },
    ResumeSession { sessionId: String },
    ListSessions,
    Clear,
    GetMcp,
    GetLsp,
    GetPermissions,
    SavePermissions,
    GetModels,
    DiscoverModels { provider: String },
    ChangeModels(SettingsChange),
    RetryLastTurn,
    ContinueLastTurn,
    ListJobs,
    ListWakes,
    KillTask { id: JobId },
    GetTaskOutput { id: JobId, sinceLine: Option<u64> },
    SpawnTerminal,
    KillTerminal { name: String },
    ListTerminals,
    Shutdown,
}

/// A request as a value.
pub ghost enum RequestV {
    ShowContext,
    ShowCost,
    Undo,
    GetRewindOptions,
    Rewind { target: Seq<char>, saveFork: bool },
    GetForks,
    SwitchFork(Seq<char>),
    ResumeSession(Seq<char>),
    ListSessions,
    Clear,
    GetMcp,
    GetLsp,
    GetPermissions,
    SavePermissions,
    GetModels,
    DiscoverModels(Seq<char>),
    ChangeModels(SettingsChange),
    RetryLastTurn,
    ContinueLastTurn,
    ListJobs,
    ListWakes,
    KillTask(JobId),
    GetTaskOutput { id: JobId, sinceLine: Option<u64> },
    SpawnTerminal,
    KillTerminal(Seq<char>),
    ListTerminals,
    Shutdown,
}

impl View for Request {
    type V = RequestV;

    open spec fn view(&self) -> RequestV {
        match *self {
            Request::ShowContext => RequestV::ShowContext,
            Request::ShowCost => RequestV::ShowCost,
            Request::Undo => RequestV::Undo,
            Request::GetRewindOptions => RequestV::GetRewindOptions,
            Request::Rewind { target, saveFork } => RequestV::Rewind { target: target@, saveFork },
            Request::GetForks => RequestV::GetForks,
            Request::SwitchFork { forkId } => RequestV::SwitchFork(forkId@),
            Request::ResumeSession { sessionId } => RequestV::ResumeSession(sessionId@),
            Request::ListSessions => RequestV::ListSessions,
            Request::Clear => RequestV::Clear,
            Request::GetMcp => RequestV::GetMcp,
            Request::GetLsp => RequestV::GetLsp,
            Request::GetPermissions => RequestV::GetPermissions,
            Request::SavePermissions => RequestV::SavePermissions,
            Request::GetModels => RequestV::GetModels,
            Request::DiscoverModels { provider } => RequestV::DiscoverModels(provider@),
            Request::ChangeModels(c) => RequestV::ChangeModels(c),
            Request::RetryLastTurn => RequestV::RetryLastTurn,
            Request::ContinueLastTurn => RequestV::ContinueLastTurn,
            Request::ListJobs => RequestV::ListJobs,
            Request::ListWakes => RequestV::ListWakes,
            Request::KillTask { id } => RequestV::KillTask(id),
            Request::GetTaskOutput { id, sinceLine } => RequestV::GetTaskOutput { id, sinceLine },
            Request::SpawnTerminal => RequestV::SpawnTerminal,
            Request::KillTerminal { name } => RequestV::KillTerminal(name@),
            Request::ListTerminals => RequestV::ListTerminals,
            Request::Shutdown => RequestV::Shutdown,
        }
    }
}

/// What becomes of the reply to a request.
#[derive(Clone, Copy, Debug, PartialEq, Eq, Structural)]
pub enum Reply {
    /// The reply is not waited for.
    Ignored,
    /// The usage of the context is shown.
    Context,
    /// The text is shown.
    Text,
    /// Whether the command was carried out is shown.
    Ack,
    /// Only that the command failed is shown.
    SilentAck,
    /// A session was resumed or could not be.
    Resumed,
    /// The picker of rewinds opens.
    RewindOptions,
    /// The picker of forks opens.
    Forks,
    /// The panel of MCP servers opens.
    Mcp,
    /// The panel of LSP servers opens.
    Lsp,
    /// The panel of permissions opens.
    Permissions,
    /// The panel of models opens.
    Models,
    /// The panel of models shows what the provider offers.
    Catalog,
    /// The panel of tasks shows the jobs.
    Jobs,
    /// The panel of tasks shows the wake sources.
    Wakes,
    /// The inspector opens on the output.
    OutputOpen,
}

/// How a request for permission was answered.
#[derive(Debug)]
pub enum PermitResponse {
    Allow,
    AlwaysAllow { pattern: String },
    Deny,
    AlwaysDeny { pattern: String },
}

/// An answer as a value.
pub ghost enum ResponseV {
    Allow,
    AlwaysAllow(Seq<char>),
    Deny,
    AlwaysDeny(Seq<char>),
}

impl View for PermitResponse {
    type V = ResponseV;

    open spec fn view(&self) -> ResponseV {
        match *self {
            PermitResponse::Allow => ResponseV::Allow,
            PermitResponse::AlwaysAllow { pattern } => ResponseV::AlwaysAllow(pattern@),
            PermitResponse::Deny => ResponseV::Deny,
            PermitResponse::AlwaysDeny { pattern } => ResponseV::AlwaysDeny(pattern@),
        }
    }
}

// ---- who answers ----

/// Who answers a request. Tasks and terminals answer while a turn goes on.
#[derive(Clone, Copy, Debug, PartialEq, Eq, Structural)]
pub enum Plane {
    Tasks,
    Terminals,
    Session,
}

/// Who answers a request.
pub open spec fn plane_of(q: RequestV) -> Plane {
    match q {
        RequestV::ListJobs => Plane::Tasks,
        RequestV::ListWakes => Plane::Tasks,
        RequestV::KillTask(_) => Plane::Tasks,
        RequestV::GetTaskOutput { .. } => Plane::Tasks,
        RequestV::SpawnTerminal => Plane::Terminals,
        RequestV::KillTerminal(_) => Plane::Terminals,
        RequestV::ListTerminals => Plane::Terminals,
        _ => Plane::Session,
    }
}

/// Who answers a request.
pub fn planeOf(q: &Request) -> (r: Plane)
    ensures
        r == plane_of(q@),
{
    match q {
        Request::ListJobs => Plane::Tasks,
        Request::ListWakes => Plane::Tasks,
        Request::KillTask { .. } => Plane::Tasks,
        Request::GetTaskOutput { .. } => Plane::Tasks,
        Request::SpawnTerminal => Plane::Terminals,
        Request::KillTerminal { .. } => Plane::Terminals,
        Request::ListTerminals => Plane::Terminals,
        _ => Plane::Session,
    }
}

// ---- commands and chips ----

/// A request and what becomes of the reply.
pub struct Ask {
    pub request: Request,
    pub reply: Reply,
}

/// The requests of `v` as values, each with what becomes of its reply.
pub open spec fn asks(v: Seq<Ask>) -> Seq<(RequestV, Reply)> {
    Seq::new(v.len(), |i: int| (v[i].request@, v[i].reply))
}

/// What a chip of the status bar asks for.
pub open spec fn chip_asks(kind: StatusChipKind) -> Seq<(RequestV, Reply)> {
    match kind {
        StatusChipKind::Jobs => seq![
            (RequestV::ListJobs, Reply::Jobs),
            (RequestV::ListWakes, Reply::Wakes),
        ],
        StatusChipKind::Cost => seq![(RequestV::ShowCost, Reply::Text)],
        StatusChipKind::Context => seq![(RequestV::ShowContext, Reply::Context)],
    }
}

/// What a command asks for. What is shown without the session asks for nothing.
pub open spec fn command_asks(a: ActionV) -> Seq<(RequestV, Reply)> {
    match a {
        ActionV::ShowContext => seq![(RequestV::ShowContext, Reply::Context)],
        ActionV::Undo => seq![(RequestV::Undo, Reply::Ack)],
        ActionV::Rewind(target) => if target.len() == 0 {
            seq![(RequestV::GetRewindOptions, Reply::RewindOptions)]
        } else {
            seq![(RequestV::Rewind { target, saveFork: false }, Reply::Ack)]
        },
        ActionV::Forks(id) => match id {
            Some(id) => seq![(RequestV::SwitchFork(id), Reply::Ack)],
            None => seq![(RequestV::GetForks, Reply::Forks)],
        },
        ActionV::Resume(id) => match id {
            Some(id) => seq![(RequestV::ResumeSession(id), Reply::Resumed)],
            None => seq![(RequestV::ListSessions, Reply::Text)],
        },
        ActionV::Clear => seq![(RequestV::Clear, Reply::Ack)],
        ActionV::Mcp => seq![(RequestV::GetMcp, Reply::Mcp)],
        ActionV::Lsp => seq![(RequestV::GetLsp, Reply::Lsp)],
        ActionV::Permissions => seq![(RequestV::GetPermissions, Reply::Permissions)],
        ActionV::Model => seq![(RequestV::GetModels, Reply::Models)],
        ActionV::ShowCost => seq![(RequestV::ShowCost, Reply::Text)],
        ActionV::Tasks => chip_asks(StatusChipKind::Jobs),
        ActionV::Logs => Seq::empty(),
        ActionV::ShowLayout => Seq::empty(),
    }
}

fn one(request: Request, reply: Reply) -> (r: Vec<Ask>)
    ensures
        asks(r@) == seq![(request@, reply)],
{
    let mut v: Vec<Ask> = Vec::new();
    v.push(Ask { request, reply });
    proof {
        assert(asks(v@) =~= seq![(request@, reply)]);
    }
    v
}

/// What a chip of the status bar asks for.
pub fn openStatusChipPanel(kind: StatusChipKind) -> (r: Vec<Ask>)
    ensures
        asks(r@) == chip_asks(kind),
{
    match kind {
        StatusChipKind::Jobs => {
            let mut v: Vec<Ask> = Vec::new();
            v.push(Ask { request: Request::ListJobs, reply: Reply::Jobs });
            v.push(Ask { request: Request::ListWakes, reply: Reply::Wakes });
            proof {
                assert(asks(v@) =~= chip_asks(kind));
            }
            v
        },
        StatusChipKind::Cost => one(Request::ShowCost, Reply::Text),
        StatusChipKind::Context => one(Request::ShowContext, Reply::Context),
    }
}

/// What a command asks for.
pub fn dispatchSlashCommand(action: CommandAction) -> (r: Vec<Ask>)
    ensures
        asks(r@) == command_asks(action@),
{
    match action {
        CommandAction::ShowContext => one(Request::ShowContext, Reply::Context),
        CommandAction::Undo => one(Request::Undo, Reply::Ack),
        CommandAction::Rewind { target } => {
            if target.as_str().unicode_len() == 0 {
                one(Request::GetRewindOptions, Reply::RewindOptions)
            } else {
                one(Request::Rewind { target, saveFork: false }, Reply::Ack)
            }
        },
        CommandAction::Forks { forkId } => match forkId {
            Some(forkId) => one(Request::SwitchFork { forkId }, Reply::Ack),
            None => one(Request::GetForks, Reply::Forks),
        },
        CommandAction::Resume { sessionId } => match sessionId {
            Some(sessionId) => one(Request::ResumeSession { sessionId }, Reply::Resumed),
            None => one(Request::ListSessions, Reply::Text),
        },
        CommandAction::Clear => one(Request::Clear, Reply::Ack),
        CommandAction::Mcp => one(Request::GetMcp, Reply::Mcp),
        CommandAction::Lsp => one(Request::GetLsp, Reply::Lsp),
        CommandAction::Permissions => one(Request::GetPermissions, Reply::Permissions),
        CommandAction::Model => one(Request::GetModels, Reply::Models),
        CommandAction::ShowCost => one(Request::ShowCost, Reply::Text),
        CommandAction::Tasks => openStatusChipPanel(StatusChipKind::Jobs),
        CommandAction::Logs | CommandAction::ShowLayout => {
            let v: Vec<Ask> = Vec::new();
            proof {
                assert(asks(v@) =~= Seq::<(RequestV, Reply)>::empty());
            }
            v
        },
    }
}

// ---- replies ----

/// The update that an acknowledgement becomes: none where only failures are shown
/// and the command was carried out.
pub open spec fn ack_update(reply: Reply, ack: CommandAck) -> Option<DeckUpdate> {
    match reply {
        Reply::Ack => Some(DeckUpdate::CommandAck(ack)),
        Reply::SilentAck => if ack.ok {
            None
        } else {
            Some(DeckUpdate::CommandAck(ack))
        },
        Reply::Resumed => Some(DeckUpdate::ResumeResult(ack)),
        _ => None,
    }
}

/// The update that an acknowledgement becomes.
pub fn ackUpdate(reply: Reply, ack: CommandAck) -> (r: Option<DeckUpdate>)
    ensures
        r == ack_update(reply, ack),
{
    match reply {
        Reply::Ack => Some(DeckUpdate::CommandAck(ack)),
        Reply::SilentAck => {
            if ack.ok {
                None
            } else {
                Some(DeckUpdate::CommandAck(ack))
            }
        },
        Reply::Resumed => Some(DeckUpdate::ResumeResult(ack)),
        _ => None,
    }
}

/// The update that the first output of a task becomes: none where the task is gone.
pub fn outputOpened(id: JobId, snap: Option<JobOutputSnapshot>) -> (r: Option<DeckUpdate>)
    ensures
        r == (match snap {
            Some(snap) => Some(DeckUpdate::TaskOutputOpen { id, snap }),
            None => None,
        }),
{
    match snap {
        Some(snap) => Some(DeckUpdate::TaskOutputOpen { id, snap }),
        None => None,
    }
}

// ---- laws ----

/// A chip of the status bar and the command for what it shows ask for the same.
pub proof fn law_chips_ask_as_commands_do()
    ensures
        command_asks(ActionV::Tasks) == chip_asks(StatusChipKind::Jobs),
        command_asks(ActionV::ShowCost) == chip_asks(StatusChipKind::Cost),
        command_asks(ActionV::ShowContext) == chip_asks(StatusChipKind::Context),
{
}

/// A rewind by command never keeps a fork.
pub proof fn law_rewinding_by_command_keeps_no_fork(target: Seq<char>, i: int)
    requires
        0 <= i < command_asks(ActionV::Rewind(target)).len(),
    ensures
        command_asks(ActionV::Rewind(target))[i].0 matches RequestV::Rewind { saveFork, .. }
            ==> !saveFork,
{
}

/// Whatever shows the tasks or acts on them is answered while a turn goes on.
pub proof fn law_tasks_are_answered_during_a_turn(i: int)
    requires
        0 <= i < chip_asks(StatusChipKind::Jobs).len(),
    ensures
        plane_of(chip_asks(StatusChipKind::Jobs)[i].0) is Tasks,
{
}

} // verus!
