//! What is to be done outside the deck after an event.

use vstd::prelude::*;
use vstd::string::*;
use crate::agent_panel::state::UserInput;
use crate::app::request::{PermitResponse, Reply, Request, RequestV, ResponseV};
use crate::jobs_panel::JobId;
use crate::text::opt_text;

verus! {

/// How serious a record of the log is.
#[derive(Clone, Copy, Debug, PartialEq, Eq, Structural)]
pub enum LogLevel {
    Debug,
    Info,
    Success,
    Warning,
    Error,
}

/// A record of the developer log.
#[derive(Debug)]
pub struct LogNote {
    pub level: LogLevel,
    pub source: String,
    pub title: String,
    pub detail: Option<String>,
}

/// A record as a value.
pub ghost struct NoteV {
    pub level: LogLevel,
    pub source: Seq<char>,
    pub title: Seq<char>,
    pub detail: Option<Seq<char>>,
}

impl View for LogNote {
    type V = NoteV;

    open spec fn view(&self) -> NoteV {
        NoteV {
            level: self.level,
            source: self.source@,
            title: self.title@,
            detail: opt_text(self.detail),
        }
    }
}

/// Something to be done outside the deck.
#[derive(Debug)]
pub enum Effect {
    /// Write a record to the developer log.
    Record(LogNote),
    /// Show the last record for a moment.
    Toast,
    /// Show the developer log anew in its panel.
    RefreshLog,
    /// Set the title of the window.
    Title(String),
    /// Ask for the list of jobs.
    ListJobs,
    /// Ask for the list of wake sources.
    ListWakes,
    /// Ask for the output of a job.
    FetchOutput { id: JobId, sinceLine: Option<u64> },
    /// Drop the tab of a terminal.
    RemoveTerminal(String),
    /// Hand output of a subagent's shell to its screen.
    FeedShell { sessionId: String, data: Vec<u8> },
    /// Put a text into the input.
    SetInput(String),
    /// Show the catalog that arrived in the panel of models.
    ShowCatalog,
    /// Tell the picker of sessions that resuming failed, and why.
    ResumeFailed(String),
    /// Send a request, and do with the reply what `Reply` says.
    Ask(Request, Reply),
    /// Set whether the running turn is cancelled.
    Cancel(bool),
    /// Answer the request for permission.
    Answer(PermitResponse),
    /// Send what the user wrote.
    Send(UserInput),
    /// Hand the message that was queued last to the running turn.
    Steer,
    /// Move the running shell command to the background.
    ToBackground,
    /// Keep what the user wrote in the file of the history.
    KeepHistory,
    /// Open the picker of sessions.
    OpenSessions,
    /// Open the panel of the log.
    OpenLog,
    /// Copy a text to the clipboard.
    Copy(String),
    /// Send bytes to the active terminal.
    SendToTerminal(Vec<u8>),
}

/// An effect as a value.
pub ghost enum EffectV {
    Record(NoteV),
    Toast,
    RefreshLog,
    Title(Seq<char>),
    ListJobs,
    ListWakes,
    FetchOutput { id: JobId, sinceLine: Option<u64> },
    RemoveTerminal(Seq<char>),
    FeedShell { sessionId: Seq<char>, data: Seq<u8> },
    SetInput(Seq<char>),
    ShowCatalog,
    ResumeFailed(Seq<char>),
    Ask(RequestV, Reply),
    Cancel(bool),
    Answer(ResponseV),
    Send(UserInput),
    Steer,
    ToBackground,
    KeepHistory,
    OpenSessions,
    OpenLog,
    Copy(Seq<char>),
    SendToTerminal(Seq<u8>),
}

impl View for Effect {
    type V = EffectV;

    open spec fn view(&self) -> EffectV {
        match *self {
            Effect::Record(n) => EffectV::Record(n@),
            Effect::Toast => EffectV::Toast,
            Effect::RefreshLog => EffectV::RefreshLog,
            Effect::Title(t) => EffectV::Title(t@),
            Effect::ListJobs => EffectV::ListJobs,
            Effect::ListWakes => EffectV::ListWakes,
            Effect::FetchOutput { id, sinceLine } => EffectV::FetchOutput { id, sinceLine },
            Effect::RemoveTerminal(n) => EffectV::RemoveTerminal(n@),
            Effect::FeedShell { sessionId, data } => EffectV::FeedShell {
                sessionId: sessionId@,
                data: data@,
            },
            Effect::SetInput(t) => EffectV::SetInput(t@),
            Effect::ShowCatalog => EffectV::ShowCatalog,
            Effect::ResumeFailed(m) => EffectV::ResumeFailed(m@),
            Effect::Ask(q, r) => EffectV::Ask(q@, r),
            Effect::Cancel(b) => EffectV::Cancel(b),
            Effect::Answer(r) => EffectV::Answer(r@),
            Effect::Send(i) => EffectV::Send(i),
            Effect::Steer => EffectV::Steer,
            Effect::ToBackground => EffectV::ToBackground,
            Effect::KeepHistory => EffectV::KeepHistory,
            Effect::OpenSessions => EffectV::OpenSessions,
            Effect::OpenLog => EffectV::OpenLog,
            Effect::Copy(t) => EffectV::Copy(t@),
            Effect::SendToTerminal(b) => EffectV::SendToTerminal(b@),
        }
    }
}

/// The effects `v` as values.
pub open spec fn effects(v: Seq<Effect>) -> Seq<EffectV> {
    Seq::new(v.len(), |i: int| v[i]@)
}

/// Adds an effect.
pub fn addEffect(v: &mut Vec<Effect>, e: Effect)
    ensures
        effects(final(v)@) == effects(old(v)@).push(e@),
{
    v.push(e);
    proof {
        assert(effects(v@) =~= effects(old(v)@).push(e@));
    }
}

// ---- the log ----

/// What a record of the log brings about. `open` tells whether the panel of the log
/// is open.
pub open spec fn logged(open: bool, note: NoteV, toast: bool) -> Seq<EffectV> {
    seq![EffectV::Record(note)] + (if toast {
        seq![EffectV::Toast]
    } else {
        Seq::empty()
    }) + (if open {
        seq![EffectV::RefreshLog]
    } else {
        Seq::empty()
    })
}

/// Writes a record to the log; shows it for a moment where `showToast` says so, and
/// in the panel of the log where that is open.
pub fn pushOperationalLog(
    out: &mut Vec<Effect>,
    open: bool,
    level: LogLevel,
    source: &str,
    title: String,
    detail: Option<String>,
    showToast: bool,
)
    ensures
        effects(final(out)@) == effects(old(out)@) + logged(
            open,
            NoteV { level, source: source@, title: title@, detail: opt_text(detail) },
            showToast,
        ),
{
    let note = LogNote { level, source: String::from_str(source), title, detail };
    addEffect(out, Effect::Record(note));
    if showToast {
        addEffect(out, Effect::Toast);
    }
    if open {
        addEffect(out, Effect::RefreshLog);
    }
    proof {
        assert(effects(out@) =~= effects(old(out)@) + logged(open, note@, showToast));
    }
}

} // verus!
