//! What the session does about requests, and what it answers.

use vstd::prelude::*;
use vstd::string::*;
use crate::app::updates::CommandAck;
use crate::text::{cat2, cat3, cat4, cat5, dec, decimal, strEq};

verus! {

/// An acknowledgement as a value.
pub ghost struct AckV {
    pub ok: bool,
    pub message: Seq<char>,
}

impl View for CommandAck {
    type V = AckV;

    open spec fn view(&self) -> AckV {
        AckV { ok: self.ok, message: self.message@ }
    }
}

impl CommandAck {
    /// The command was carried out.
    pub fn done(message: String) -> (r: CommandAck)
        ensures
            r@ == (AckV { ok: true, message: message@ }),
    {
        CommandAck { ok: true, message }
    }

    /// The command failed.
    pub fn failed(message: String) -> (r: CommandAck)
        ensures
            r@ == (AckV { ok: false, message: message@ }),
    {
        CommandAck { ok: false, message }
    }
}

// ---- tasks and terminals ----

/// The answer to stopping a task.
pub open spec fn kill_ack(id: u64, result: Result<(), String>) -> AckV {
    match result {
        Ok(_) => AckV { ok: true, message: "Killing task #"@ + dec(id as nat) + "."@ },
        Err(e) => AckV { ok: false, message: e@ },
    }
}

/// The answer to stopping a task.
pub fn killTaskAck(id: u64, result: Result<(), String>) -> (r: CommandAck)
    ensures
        r@ == kill_ack(id, result),
{
    match result {
        Ok(_) => CommandAck::done(cat3("Killing task #", decimal(id).as_str(), ".")),
        Err(e) => CommandAck::failed(e),
    }
}

/// The answer to closing a terminal.
pub open spec fn terminal_ack(name: Seq<char>, result: Result<(), String>) -> AckV {
    match result {
        Ok(_) => AckV { ok: true, message: "Killed terminal '"@ + name + "'."@ },
        Err(e) => AckV { ok: false, message: e@ },
    }
}

/// The answer to closing a terminal.
pub fn killTerminalAck(name: &str, result: Result<(), String>) -> (r: CommandAck)
    ensures
        r@ == terminal_ack(name@, result),
{
    match result {
        Ok(_) => CommandAck::done(cat3("Killed terminal '", name, "'.")),
        Err(e) => CommandAck::failed(e),
    }
}

// ---- settings ----

/// A change of the model settings, in the file of a scope.
#[derive(Debug)]
pub enum SettingsChange {
    /// The profile that a tier uses.
    Selection { scope: String, tier: String, profile: String },
    /// A model that the provider offers becomes that of a profile.
    Discovered { scope: String, model: String, profile: String },
    /// A new profile, made like another one.
    Create { scope: String, profile: String, sourceProfile: String },
    Rename { scope: String, oldProfile: String, newProfile: String },
    Delete { scope: String, profile: String },
    Context { scope: String, profile: String, contextWindow: usize },
    Thinking {
        scope: String,
        profile: String,
        promptThinking: bool,
        reasoningEffort: Option<String>,
        reasoningSummary: Option<String>,
    },
}

/// The profile that has to be there for the change.
pub open spec fn needed_profile(c: SettingsChange) -> Option<Seq<char>> {
    match c {
        SettingsChange::Selection { profile, .. } => Some(profile@),
        SettingsChange::Discovered { profile, .. } => Some(profile@),
        _ => None,
    }
}

/// What is said once the change was saved to `path`.
pub open spec fn saved_text(c: SettingsChange, path: Seq<char>) -> Seq<char> {
    match c {
        SettingsChange::Selection { .. } => "Saved model profile to "@ + path
            + ". It will be used after /clear or restart."@,
        SettingsChange::Discovered { model, profile, .. } => "Saved model "@ + model@
            + " into profile "@ + profile@ + " at "@ + path
            + ". It will be used after /clear or restart."@,
        SettingsChange::Create { profile, .. } => "Created model profile "@ + profile@ + " at "@
            + path + "."@,
        SettingsChange::Rename { oldProfile, newProfile, .. } => "Renamed model profile "@
            + oldProfile@ + " to "@ + newProfile@ + " at "@ + path + "."@,
        SettingsChange::Delete { profile, .. } => "Deleted model profile "@ + profile@ + " from "@
            + path + "."@,
        SettingsChange::Context { profile, .. } => "Saved context window for profile "@ + profile@
            + " to "@ + path + "."@,
        SettingsChange::Thinking { profile, .. } => "Saved thinking settings for profile "@
            + profile@ + " to "@ + path + "."@,
    }
}

/// What is said where the change could not be saved.
pub open spec fn unsaved_text(c: SettingsChange) -> Seq<char> {
    match c {
        SettingsChange::Selection { .. } => "Failed to save model profile: "@,
        SettingsChange::Discovered { .. } => "Failed to save discovered model: "@,
        SettingsChange::Create { .. } => "Failed to create model profile: "@,
        SettingsChange::Rename { .. } => "Failed to rename model profile: "@,
        SettingsChange::Delete { .. } => "Failed to delete model profile: "@,
        SettingsChange::Context { .. } => "Failed to save context window: "@,
        SettingsChange::Thinking { .. } => "Failed to save thinking settings: "@,
    }
}

/// What is said where the change was saved and the settings could not be read
/// again.
pub open spec fn unread_text(c: SettingsChange) -> Seq<char> {
    match c {
        SettingsChange::Create { .. } => "Created, but failed to reload config: "@,
        SettingsChange::Rename { .. } => "Renamed, but failed to reload config: "@,
        SettingsChange::Delete { .. } => "Deleted, but failed to reload config: "@,
        _ => "Saved, but failed to reload config: "@,
    }
}

/// How a change of the settings went.
#[derive(Debug)]
pub enum SettingsOutcome {
    /// The profile is not known, and nothing was saved.
    UnknownProfile,
    Unsaved(String),
    Unread(String),
    Saved { path: String },
}

/// The answer to a change of the settings. `UnknownProfile` is for a change that needs
/// its profile to be there.
pub open spec fn settings_ack(c: SettingsChange, o: SettingsOutcome) -> AckV {
    match o {
        SettingsOutcome::UnknownProfile => AckV {
            ok: false,
            message: "Unknown model profile: "@ + (match needed_profile(c) {
                Some(p) => p,
                None => Seq::empty(),
            }),
        },
        SettingsOutcome::Unsaved(e) => AckV { ok: false, message: unsaved_text(c) + e@ },
        SettingsOutcome::Unread(e) => AckV { ok: false, message: unread_text(c) + e@ },
        SettingsOutcome::Saved { path } => AckV { ok: true, message: saved_text(c, path@) },
    }
}

/// Whether the profile that the change needs is missing from `known`.
pub open spec fn is_unknown(c: SettingsChange, known: Seq<String>) -> bool {
    needed_profile(c) matches Some(p) && !(exists|i: int|
        0 <= i < known.len() && (#[trigger] known[i])@ == p)
}

/// Whether the profile that the change needs is missing from `known`.
pub fn isUnknown(c: &SettingsChange, known: &Vec<String>) -> (r: bool)
    ensures
        r == is_unknown(*c, known@),
{
    let p = match c {
        SettingsChange::Selection { profile, .. } => profile,
        SettingsChange::Discovered { profile, .. } => profile,
        _ => {
            return false;
        },
    };
    let mut i: usize = 0;
    while i < known.len()
        invariant
            i <= known@.len(),
            forall|k: int| 0 <= k < i ==> (#[trigger] known@[k])@ != p@,
            needed_profile(*c) == Some(p@),
        decreases known@.len() - i,
    {
        if strEq(known[i].as_str(), p.as_str()) {
            return false;
        }
        i = i + 1;
    }
    true
}

fn savedText(c: &SettingsChange, path: &str) -> (r: String)
    ensures
        r@ == saved_text(*c, path@),
{
    match c {
        SettingsChange::Selection { .. } => cat3(
            "Saved model profile to ",
            path,
            ". It will be used after /clear or restart.",
        ),
        SettingsChange::Discovered { model, profile, .. } => {
            let mut s = cat5(
                "Saved model ",
                model.as_str(),
                " into profile ",
                profile.as_str(),
                " at ",
            );
            s.append(path);
            s.append(". It will be used after /clear or restart.");
            s
        },
        SettingsChange::Create { profile, .. } => cat5(
            "Created model profile ",
            profile.as_str(),
            " at ",
            path,
            ".",
        ),
        SettingsChange::Rename { oldProfile, newProfile, .. } => {
            let mut s = cat5(
                "Renamed model profile ",
                oldProfile.as_str(),
                " to ",
                newProfile.as_str(),
                " at ",
            );
            s.append(path);
            s.append(".");
            s
        },
        SettingsChange::Delete { profile, .. } => cat5(
            "Deleted model profile ",
            profile.as_str(),
            " from ",
            path,
            ".",
        ),
        SettingsChange::Context { profile, .. } => cat5(
            "Saved context window for profile ",
            profile.as_str(),
            " to ",
            path,
            ".",
        ),
        SettingsChange::Thinking { profile, .. } => cat5(
            "Saved thinking settings for profile ",
            profile.as_str(),
            " to ",
            path,
            ".",
        ),
    }
}

/// The answer to a change of the settings.
pub fn settingsAck(c: &SettingsChange, o: SettingsOutcome) -> (r: CommandAck)
    ensures
        r@ == settings_ack(*c, o),
{
    match o {
        SettingsOutcome::UnknownProfile => {
            let p = match c {
                SettingsChange::Selection { profile, .. } => profile.clone(),
                SettingsChange::Discovered { profile, .. } => profile.clone(),
                _ => String::new(),
            };
            CommandAck::failed(cat2("Unknown model profile: ", p.as_str()))
        },
        SettingsOutcome::Unsaved(e) => {
            let what = match c {
                SettingsChange::Selection { .. } => "Failed to save model profile: ",
                SettingsChange::Discovered { .. } => "Failed to save discovered model: ",
                SettingsChange::Create { .. } => "Failed to create model profile: ",
                SettingsChange::Rename { .. } => "Failed to rename model profile: ",
                SettingsChange::Delete { .. } => "Failed to delete model profile: ",
                SettingsChange::Context { .. } => "Failed to save context window: ",
                SettingsChange::Thinking { .. } => "Failed to save thinking settings: ",
            };
            CommandAck::failed(cat2(what, e.as_str()))
        },
        SettingsOutcome::Unread(e) => {
            let what = match c {
                SettingsChange::Create { .. } => "Created, but failed to reload config: ",
                SettingsChange::Rename { .. } => "Renamed, but failed to reload config: ",
                SettingsChange::Delete { .. } => "Deleted, but failed to reload config: ",
                _ => "Saved, but failed to reload config: ",
            };
            CommandAck::failed(cat2(what, e.as_str()))
        },
        SettingsOutcome::Saved { path } => CommandAck::done(savedText(c, path.as_str())),
    }
}

/// The answer to saving permissions; `result` is none where there is no project to
/// save them in.
pub open spec fn permissions_ack(result: Option<Result<(), String>>) -> AckV {
    match result {
        Some(r) => match r {
            Ok(_) => AckV { ok: true, message: "Permissions saved."@ },
            Err(e) => AckV { ok: false, message: "Failed to save permissions: "@ + e@ },
        },
        None => AckV { ok: false, message: "No project root; permissions not persisted."@ },
    }
}

/// The answer to saving permissions.
pub fn permissionsAck(result: Option<Result<(), String>>) -> (r: CommandAck)
    ensures
        r@ == permissions_ack(result),
{
    match result {
        Some(r) => match r {
            Ok(_) => CommandAck::done(String::from_str("Permissions saved.")),
            Err(e) => CommandAck::failed(cat2("Failed to save permissions: ", e.as_str())),
        },
        None => CommandAck::failed(
            String::from_str("No project root; permissions not persisted."),
        ),
    }
}

// ---- turns and sessions ----

/// Something that runs in the session.
#[derive(Clone, Copy, Debug, PartialEq, Eq, Structural)]
pub enum Work {
    /// A turn for what the user wrote.
    Turn,
    /// A turn that wakes caused.
    Wake,
    /// The last turn is tried again.
    Retry,
    /// The last turn goes on.
    Resumption,
}

/// What happens in the session, as far as what comes next depends on it.
#[derive(Debug)]
pub enum SessionEvent {
    /// Wakes wait, and no turn goes on.
    WakesWait,
    /// The user wrote something, and no turn goes on.
    UserWrote,
    RetryAsked,
    ContinueAsked,
    ResumeAsked,
    ClearAsked,
    ShutdownAsked,
    /// Something that ran came to its end, or failed with a message.
    Ended { work: Work, error: Option<String> },
    /// A session was resumed; `topic` is what it is about.
    Resumed { id: String, topic: String },
    /// A session could not be resumed.
    ResumeFailed { id: String, error: String },
    /// A new session was made after one could not be resumed.
    Replaced,
    /// No new session could be made after one could not be resumed.
    Lost { error: String },
    /// A new session was made to clear the old one.
    Fresh,
    /// No new session could be made to clear the old one.
    ClearFailed { error: String },
}

/// Something that the session does next.
#[derive(Debug)]
pub enum SessionAct {
    /// Forget that a turn was cancelled, for everybody.
    ResetCancel,
    /// Take note of what the cancel flag says now.
    ReadCancel,
    /// Do something that runs for a while.
    Run(Work),
    /// Disarm every wake source of the old session.
    DisarmWakes,
    /// Give up the old session and resume another one.
    ResumeAnother,
    /// Give up the old session and make a new one.
    MakeNew,
    /// Point the handlers at the tasks and wakes of the session.
    SwapPlanes,
    /// Start the MCP servers of the session.
    StartMcp,
    /// Tell the deck that the conversation of the session is to be shown.
    TellRestored,
    /// Tell the deck what the session is about.
    TellTopic(String),
    /// Tell the deck that the session is empty.
    TellCleared,
    /// Tell the deck of an error.
    TellError(String),
    /// Answer the request.
    Answer(CommandAck),
    /// Shut the servers down.
    StopServers,
    /// End.
    Stop,
}

/// What the session does next, as a value.
pub ghost enum ActV {
    ResetCancel,
    ReadCancel,
    Run(Work),
    DisarmWakes,
    ResumeAnother,
    MakeNew,
    SwapPlanes,
    StartMcp,
    TellRestored,
    TellTopic(Seq<char>),
    TellCleared,
    TellError(Seq<char>),
    Answer(AckV),
    StopServers,
    Stop,
}

impl View for SessionAct {
    type V = ActV;

    open spec fn view(&self) -> ActV {
        match *self {
            SessionAct::ResetCancel => ActV::ResetCancel,
            SessionAct::ReadCancel => ActV::ReadCancel,
            SessionAct::Run(w) => ActV::Run(w),
            SessionAct::DisarmWakes => ActV::DisarmWakes,
            SessionAct::ResumeAnother => ActV::ResumeAnother,
            SessionAct::MakeNew => ActV::MakeNew,
            SessionAct::SwapPlanes => ActV::SwapPlanes,
            SessionAct::StartMcp => ActV::StartMcp,
            SessionAct::TellRestored => ActV::TellRestored,
            SessionAct::TellTopic(t) => ActV::TellTopic(t@),
            SessionAct::TellCleared => ActV::TellCleared,
            SessionAct::TellError(e) => ActV::TellError(e@),
            SessionAct::Answer(a) => ActV::Answer(a@),
            SessionAct::StopServers => ActV::StopServers,
            SessionAct::Stop => ActV::Stop,
        }
    }
}

/// The acts of `v` as values.
pub open spec fn acts(v: Seq<SessionAct>) -> Seq<ActV> {
    Seq::new(v.len(), |i: int| v[i]@)
}

/// What is said where something failed.
pub open spec fn failure_text(work: Work) -> Seq<char> {
    match work {
        Work::Turn => "Agent error: "@,
        Work::Wake => "Wake injection error: "@,
        Work::Retry => "Retry failed: "@,
        Work::Resumption => "Continue failed: "@,
    }
}

/// Whether something was asked for by a request that is to be answered.
pub open spec fn is_answered(work: Work) -> bool {
    work is Retry || work is Resumption
}

/// What the session does next. Wakes start a turn as the user does, so a cancel
/// that was left behind is forgotten first; the wake sources of a session are
/// disarmed before another one takes its place.
pub open spec fn next_acts(e: SessionEvent) -> Seq<ActV> {
    match e {
        SessionEvent::WakesWait => seq![ActV::ResetCancel, ActV::ReadCancel, ActV::Run(Work::Wake)],
        SessionEvent::UserWrote => seq![ActV::ReadCancel, ActV::Run(Work::Turn)],
        SessionEvent::RetryAsked => seq![ActV::ReadCancel, ActV::Run(Work::Retry)],
        SessionEvent::ContinueAsked => seq![ActV::ReadCancel, ActV::Run(Work::Resumption)],
        SessionEvent::ResumeAsked => seq![ActV::DisarmWakes, ActV::ResumeAnother],
        SessionEvent::ClearAsked => seq![ActV::DisarmWakes, ActV::MakeNew],
        SessionEvent::ShutdownAsked => seq![ActV::StopServers, ActV::Stop],
        SessionEvent::Ended { work, error } => match error {
            Some(m) => {
                let t = failure_text(work) + m@;
                if is_answered(work) {
                    seq![
                        ActV::TellError(t),
                        ActV::Answer(AckV { ok: false, message: t }),
                    ]
                } else {
                    seq![ActV::TellError(t)]
                }
            },
            None => if is_answered(work) {
                seq![ActV::Answer(AckV { ok: true, message: ""@ })]
            } else {
                Seq::empty()
            },
        },
        SessionEvent::Resumed { id, topic } => seq![
            ActV::SwapPlanes,
            ActV::StartMcp,
            ActV::TellRestored,
        ] + (if topic@.len() > 0 {
            seq![ActV::TellTopic(topic@)]
        } else {
            Seq::empty()
        }) + seq![
            ActV::Answer(AckV { ok: true, message: "Resumed session "@ + id@ }),
        ],
        SessionEvent::ResumeFailed { id, error } => seq![
            ActV::Answer(
                AckV { ok: false, message: "Failed to resume "@ + id@ + ": "@ + error@ },
            ),
            ActV::MakeNew,
        ],
        SessionEvent::Replaced => seq![ActV::StartMcp, ActV::SwapPlanes],
        SessionEvent::Lost { error } => seq![
            ActV::TellError("Session lost after failed resume: "@ + error@),
            ActV::Stop,
        ],
        SessionEvent::Fresh => seq![
            ActV::SwapPlanes,
            ActV::StartMcp,
            ActV::TellCleared,
            ActV::Answer(AckV { ok: true, message: "Session cleared."@ }),
        ],
        SessionEvent::ClearFailed { error } => seq![
            ActV::Answer(
                AckV { ok: false, message: "Failed to create new session: "@ + error@ },
            ),
            ActV::Stop,
        ],
    }
}

fn addAct(v: &mut Vec<SessionAct>, a: SessionAct)
    ensures
        acts(final(v)@) == acts(old(v)@).push(a@),
{
    v.push(a);
    proof {
        assert(acts(v@) =~= acts(old(v)@).push(a@));
    }
}

/// What the session does next once something that ran has ended.
fn ended(work: Work, error: Option<String>) -> (v: Vec<SessionAct>)
    ensures
        acts(v@) == next_acts(SessionEvent::Ended { work, error }),
{
    let mut v: Vec<SessionAct> = Vec::new();
    let answered = match work {
        Work::Retry | Work::Resumption => true,
        _ => false,
    };
    match &error {
        Some(m) => {
            let what = match work {
                Work::Turn => "Agent error: ",
                Work::Wake => "Wake injection error: ",
                Work::Retry => "Retry failed: ",
                Work::Resumption => "Continue failed: ",
            };
            let t = cat2(what, m.as_str());
            if answered {
                addAct(&mut v, SessionAct::TellError(t.clone()));
                addAct(&mut v, SessionAct::Answer(CommandAck::failed(t)));
            } else {
                addAct(&mut v, SessionAct::TellError(t));
            }
        },
        None => {
            if answered {
                addAct(&mut v, SessionAct::Answer(CommandAck::done(String::from_str(""))));
            }
        },
    }
    proof {
        assert(acts(v@) =~= next_acts(SessionEvent::Ended { work, error }));
    }
    v
}

/// What the session does next.
pub fn nextActs(e: SessionEvent) -> (v: Vec<SessionAct>)
    ensures
        acts(v@) == next_acts(e),
{
    let mut v: Vec<SessionAct> = Vec::new();
    match e {
        SessionEvent::WakesWait => {
            addAct(&mut v, SessionAct::ResetCancel);
            addAct(&mut v, SessionAct::ReadCancel);
            addAct(&mut v, SessionAct::Run(Work::Wake));
        },
        SessionEvent::UserWrote => {
            addAct(&mut v, SessionAct::ReadCancel);
            addAct(&mut v, SessionAct::Run(Work::Turn));
        },
        SessionEvent::RetryAsked => {
            addAct(&mut v, SessionAct::ReadCancel);
            addAct(&mut v, SessionAct::Run(Work::Retry));
        },
        SessionEvent::ContinueAsked => {
            addAct(&mut v, SessionAct::ReadCancel);
            addAct(&mut v, SessionAct::Run(Work::Resumption));
        },
        SessionEvent::ResumeAsked => {
            addAct(&mut v, SessionAct::DisarmWakes);
            addAct(&mut v, SessionAct::ResumeAnother);
        },
        SessionEvent::ClearAsked => {
            addAct(&mut v, SessionAct::DisarmWakes);
            addAct(&mut v, SessionAct::MakeNew);
        },
        SessionEvent::ShutdownAsked => {
            addAct(&mut v, SessionAct::StopServers);
            addAct(&mut v, SessionAct::Stop);
        },
        SessionEvent::Ended { work, error } => {
            return ended(work, error);
        },
        SessionEvent::Resumed { id, topic } => {
            addAct(&mut v, SessionAct::SwapPlanes);
            addAct(&mut v, SessionAct::StartMcp);
            addAct(&mut v, SessionAct::TellRestored);
            if topic.as_str().unicode_len() > 0 {
                addAct(&mut v, SessionAct::TellTopic(topic));
            }
            addAct(
                &mut v,
                SessionAct::Answer(CommandAck::done(cat2("Resumed session ", id.as_str()))),
            );
        },
        SessionEvent::ResumeFailed { id, error } => {
            let m = cat4("Failed to resume ", id.as_str(), ": ", error.as_str());
            addAct(&mut v, SessionAct::Answer(CommandAck::failed(m)));
            addAct(&mut v, SessionAct::MakeNew);
        },
        SessionEvent::Replaced => {
            addAct(&mut v, SessionAct::StartMcp);
            addAct(&mut v, SessionAct::SwapPlanes);
        },
        SessionEvent::Lost { error } => {
            let m = cat2("Session lost after failed resume: ", error.as_str());
            addAct(&mut v, SessionAct::TellError(m));
            addAct(&mut v, SessionAct::Stop);
        },
        SessionEvent::Fresh => {
            addAct(&mut v, SessionAct::SwapPlanes);
            addAct(&mut v, SessionAct::StartMcp);
            addAct(&mut v, SessionAct::TellCleared);
            addAct(
                &mut v,
                SessionAct::Answer(CommandAck::done(String::from_str("Session cleared."))),
            );
        },
        SessionEvent::ClearFailed { error } => {
            let m = cat2("Failed to create new session: ", error.as_str());
            addAct(&mut v, SessionAct::Answer(CommandAck::failed(m)));
            addAct(&mut v, SessionAct::Stop);
        },
    }
    proof {
        assert(acts(v@) =~= next_acts(e));
    }
    v
}

/// The error of settings or a session that could not be had at the start.
pub fn startupError(settings: bool, error: &str) -> (r: String)
    ensures
        r@ == (if settings {
            "Config error: "@
        } else {
            "Session error: "@
        }) + error@,
{
    if settings {
        cat2("Config error: ", error)
    } else {
        cat2("Session error: ", error)
    }
}

// ---- laws ----

/// A session gives way to another only once its wake sources are disarmed, or where
/// that was done before.
pub proof fn law_wakes_are_disarmed_before_a_session_gives_way(e: SessionEvent, i: int)
    requires
        0 <= i < next_acts(e).len(),
        next_acts(e)[i] is ResumeAnother || next_acts(e)[i] is MakeNew,
    ensures
        (i > 0 && next_acts(e)[i - 1] is DisarmWakes) || e is ResumeFailed,
{
}

/// A cancel that was left behind never stops a turn that a wake starts.
pub proof fn law_wakes_start_uncancelled()
    ensures
        next_acts(SessionEvent::WakesWait)[0] is ResetCancel,
        next_acts(SessionEvent::WakesWait).last() == ActV::Run(Work::Wake),
{
}

/// Resuming and clearing are each answered exactly once, whatever comes of them.
pub proof fn law_switching_is_answered_once(e: SessionEvent, i: int, j: int)
    requires
        e is Resumed || e is ResumeFailed || e is Fresh || e is ClearFailed,
        0 <= i < next_acts(e).len(),
        0 <= j < next_acts(e).len(),
        next_acts(e)[i] is Answer,
        next_acts(e)[j] is Answer,
    ensures
        i == j,
{
}

} // verus!
