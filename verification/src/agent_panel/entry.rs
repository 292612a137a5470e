//! The entries of the conversation.

use vstd::prelude::*;
use vstd::string::*;
use crate::jobs_panel::WakeKind;
use crate::text::{opt_text, strEq};

verus! {

/// What a wake receipt says of its source.
#[derive(Clone, Copy, Debug, PartialEq, Eq, Structural)]
pub enum WakeScheduleStatus {
    Armed,
    Fired,
    Disarmed,
}

/// A number of tokens and how it is written.
#[derive(Debug)]
pub struct TokenCount {
    pub count: u64,
    pub label: String,
}

/// A layer of merged topics.
#[derive(Debug)]
pub struct BriefingLayer {
    pub topicsMerged: u64,
    pub priorBriefings: u64,
    pub tokens: TokenCount,
}

/// A layer of topic summaries.
#[derive(Debug)]
pub struct TopicLayer {
    pub topicLabels: Vec<String>,
    pub turnsCondensed: u64,
    pub tokens: TokenCount,
}

/// A layer of turns.
#[derive(Debug)]
pub struct TurnLayer {
    pub turns: u64,
    pub tokens: TokenCount,
}

/// How the context window is used.
#[derive(Debug)]
pub struct ContextState {
    pub reportedTokens: TokenCount,
    pub estimatedTokens: TokenCount,
    pub contextWindow: TokenCount,
    pub s4: Option<BriefingLayer>,
    pub s3: Option<TopicLayer>,
    pub s2: Option<TurnLayer>,
    pub raw: TurnLayer,
}

/// A single entry in the agent panel display. Times are in milliseconds.
#[derive(Debug)]
pub enum PanelEntry {
    User(String),
    Assistant(String),
    Reasoning { text: String, expanded: bool },
    ToolRequest { summary: String, diff: Option<String>, command: Option<String> },
    ToolApproved { name: String },
    ToolDenied { name: String },
    /// A tool was denied by a permission rule.
    ToolAutoDenied { name: String, summary: String },
    ToolResult { name: String, output: String },
    /// A tool is currently executing.
    ToolActive { summary: String },
    /// Receipt of a wake source, updated in place as the source fires or is
    /// disarmed.
    WakeSchedule {
        id: u64,
        kind: WakeKind,
        summary: String,
        prompt: Option<String>,
        status: WakeScheduleStatus,
        armed: bool,
        nextFireAt: Option<u64>,
        firesSoFar: u64,
        registeredAt: u64,
    },
    /// Subagent activity, shown as a single bordered panel.
    SubagentBlock {
        agentType: String,
        prompt: String,
        /// One-liner tool activity: name and summary.
        toolLines: Vec<(String, String)>,
        done: bool,
        turns: usize,
        /// Final content, set on completion.
        content: Option<String>,
        contentExpanded: bool,
        sessionId: Option<String>,
    },
    Error(String),
    CommandResult(String),
    ContextDisplay(ContextState),
    /// Informational notice that cannot be copied.
    SessionNotice(String),
    /// Shows where compaction replaced content.
    CompactionMarker { stage: String },
    Cancelled,
}

/// An entry as a value.
pub ghost enum EntryV {
    User(Seq<char>),
    Assistant(Seq<char>),
    Reasoning { text: Seq<char>, expanded: bool },
    ToolRequest { summary: Seq<char>, diff: Option<Seq<char>>, command: Option<Seq<char>> },
    ToolApproved(Seq<char>),
    ToolDenied(Seq<char>),
    ToolAutoDenied { name: Seq<char>, summary: Seq<char> },
    ToolResult { name: Seq<char>, output: Seq<char> },
    ToolActive(Seq<char>),
    WakeSchedule(WakeV),
    SubagentBlock(BlockV),
    Error(Seq<char>),
    CommandResult(Seq<char>),
    ContextDisplay(ContextState),
    SessionNotice(Seq<char>),
    CompactionMarker(Seq<char>),
    Cancelled,
}

/// A wake receipt as a value.
pub ghost struct WakeV {
    pub id: u64,
    pub kind: WakeKind,
    pub summary: Seq<char>,
    pub prompt: Option<Seq<char>>,
    pub status: WakeScheduleStatus,
    pub armed: bool,
    pub nextFireAt: Option<u64>,
    pub firesSoFar: u64,
    pub registeredAt: u64,
}

/// A subagent block as a value.
pub ghost struct BlockV {
    pub agentType: Seq<char>,
    pub prompt: Seq<char>,
    pub toolLines: Seq<(Seq<char>, Seq<char>)>,
    pub done: bool,
    pub turns: usize,
    pub content: Option<Seq<char>>,
    pub contentExpanded: bool,
    pub sessionId: Option<Seq<char>>,
}

/// Pairs of texts as values.
pub open spec fn pair_views(v: Seq<(String, String)>) -> Seq<(Seq<char>, Seq<char>)> {
    Seq::new(v.len(), |i: int| (v[i].0@, v[i].1@))
}

impl View for PanelEntry {
    type V = EntryV;

    open spec fn view(&self) -> EntryV {
        match *self {
            PanelEntry::User(s) => EntryV::User(s@),
            PanelEntry::Assistant(s) => EntryV::Assistant(s@),
            PanelEntry::Reasoning { text, expanded } => EntryV::Reasoning { text: text@, expanded },
            PanelEntry::ToolRequest { summary, diff, command } => EntryV::ToolRequest {
                summary: summary@,
                diff: opt_text(diff),
                command: opt_text(command),
            },
            PanelEntry::ToolApproved { name } => EntryV::ToolApproved(name@),
            PanelEntry::ToolDenied { name } => EntryV::ToolDenied(name@),
            PanelEntry::ToolAutoDenied { name, summary } => EntryV::ToolAutoDenied {
                name: name@,
                summary: summary@,
            },
            PanelEntry::ToolResult { name, output } => EntryV::ToolResult {
                name: name@,
                output: output@,
            },
            PanelEntry::ToolActive { summary } => EntryV::ToolActive(summary@),
            PanelEntry::WakeSchedule {
                id,
                kind,
                summary,
                prompt,
                status,
                armed,
                nextFireAt,
                firesSoFar,
                registeredAt,
            } => EntryV::WakeSchedule(
                WakeV {
                    id,
                    kind,
                    summary: summary@,
                    prompt: opt_text(prompt),
                    status,
                    armed,
                    nextFireAt,
                    firesSoFar,
                    registeredAt,
                },
            ),
            PanelEntry::SubagentBlock {
                agentType,
                prompt,
                toolLines,
                done,
                turns,
                content,
                contentExpanded,
                sessionId,
            } => EntryV::SubagentBlock(
                BlockV {
                    agentType: agentType@,
                    prompt: prompt@,
                    toolLines: pair_views(toolLines@),
                    done,
                    turns,
                    content: opt_text(content),
                    contentExpanded,
                    sessionId: opt_text(sessionId),
                },
            ),
            PanelEntry::Error(s) => EntryV::Error(s@),
            PanelEntry::CommandResult(s) => EntryV::CommandResult(s@),
            PanelEntry::ContextDisplay(c) => EntryV::ContextDisplay(c),
            PanelEntry::SessionNotice(s) => EntryV::SessionNotice(s@),
            PanelEntry::CompactionMarker { stage } => EntryV::CompactionMarker(stage@),
            PanelEntry::Cancelled => EntryV::Cancelled,
        }
    }
}

/// The entries of `v` as values.
pub open spec fn entry_views(v: Seq<PanelEntry>) -> Seq<EntryV> {
    Seq::new(v.len(), |i: int| v[i]@)
}

/// Adds an entry at the end.
pub fn addEntry(v: &mut Vec<PanelEntry>, e: PanelEntry)
    ensures
        entry_views(final(v)@) == entry_views(old(v)@).push(e@),
{
    v.push(e);
    proof {
        assert(entry_views(v@) =~= entry_views(old(v)@).push(e@));
    }
}

// ---- finding entries ----

/// The place of the last running tool among the first `n` entries.
pub open spec fn last_active(e: Seq<EntryV>, n: int) -> Option<int>
    decreases n,
{
    if n <= 0 {
        None
    } else if e[n - 1] is ToolActive {
        Some(n - 1)
    } else {
        last_active(e, n - 1)
    }
}

/// The entries without the last running tool.
pub open spec fn without_active(e: Seq<EntryV>) -> Seq<EntryV> {
    match last_active(e, e.len() as int) {
        Some(i) => e.remove(i),
        None => e,
    }
}

/// Removes the last running tool.
pub fn removeActive(v: &mut Vec<PanelEntry>)
    ensures
        entry_views(final(v)@) == without_active(entry_views(old(v)@)),
{
    let ghost e = entry_views(v@);
    let mut n: usize = v.len();
    while n > 0
        invariant
            n <= v@.len(),
            v@ == old(v)@,
            e == entry_views(v@),
            last_active(e, e.len() as int) == last_active(e, n as int),
        decreases n,
    {
        proof {
            assert(e[n - 1] == v@[n - 1]@);
        }
        let hit = match &v[n - 1] {
            PanelEntry::ToolActive { .. } => true,
            _ => false,
        };
        if hit {
            v.remove(n - 1);
            proof {
                assert(entry_views(v@) =~= e.remove(n - 1));
            }
            return;
        }
        n = n - 1;
    }
}

/// The place of the first receipt of the wake source `id`, from `i` on.
pub open spec fn wake_at(e: Seq<EntryV>, id: u64, i: int) -> Option<int>
    decreases e.len() - i,
{
    if i >= e.len() {
        None
    } else if e[i] is WakeSchedule && e[i]->WakeSchedule_0.id == id {
        Some(i)
    } else {
        wake_at(e, id, i + 1)
    }
}

pub proof fn lemma_wake_at(e: Seq<EntryV>, id: u64, i: int)
    requires
        0 <= i,
    ensures
        wake_at(e, id, i) matches Some(k) ==> i <= k < e.len() && e[k] is WakeSchedule
            && e[k]->WakeSchedule_0.id == id,
    decreases e.len() - i,
{
    if i < e.len() {
        lemma_wake_at(e, id, i + 1);
    }
}

/// The place of the first receipt of a wake source.
pub fn findWakeSchedule(v: &Vec<PanelEntry>, id: u64) -> (r: Option<usize>)
    ensures
        match r {
            Some(i) => i < v@.len() && wake_at(entry_views(v@), id, 0) == Some(i as int)
                && entry_views(v@)[i as int] is WakeSchedule,
            None => wake_at(entry_views(v@), id, 0) is None,
        },
{
    let ghost e = entry_views(v@);
    let mut i: usize = 0;
    while i < v.len()
        invariant
            i <= v@.len(),
            e == entry_views(v@),
            wake_at(e, id, 0) == wake_at(e, id, i as int),
        decreases v@.len() - i,
    {
        proof {
            assert(e[i as int] == v@[i as int]@);
        }
        match &v[i] {
            PanelEntry::WakeSchedule { id: w, .. } => {
                if *w == id {
                    return Some(i);
                }
            },
            _ => {},
        }
        i = i + 1;
    }
    None
}

/// Whether the entry is the unfinished block of the session `sid`.
pub open spec fn is_open_block(e: EntryV, sid: Seq<char>) -> bool {
    e matches EntryV::SubagentBlock(b) && !b.done && b.sessionId == Some(sid)
}

/// The place of the last unfinished block of `sid` among the first `n` entries.
pub open spec fn open_block(e: Seq<EntryV>, sid: Seq<char>, n: int) -> Option<int>
    decreases n,
{
    if n <= 0 {
        None
    } else if is_open_block(e[n - 1], sid) {
        Some(n - 1)
    } else {
        open_block(e, sid, n - 1)
    }
}

/// The place of the last unfinished block of a session.
pub fn findSubagentBlock(v: &Vec<PanelEntry>, sid: &str) -> (r: Option<usize>)
    ensures
        match r {
            Some(i) => i < v@.len() && open_block(entry_views(v@), sid@, v@.len() as int) == Some(
                i as int,
            ) && is_open_block(entry_views(v@)[i as int], sid@),
            None => open_block(entry_views(v@), sid@, v@.len() as int) is None,
        },
{
    let ghost e = entry_views(v@);
    let mut n: usize = v.len();
    while n > 0
        invariant
            n <= v@.len(),
            e == entry_views(v@),
            open_block(e, sid@, v@.len() as int) == open_block(e, sid@, n as int),
        decreases n,
    {
        proof {
            assert(e[n - 1] == v@[n - 1]@);
        }
        match &v[n - 1] {
            PanelEntry::SubagentBlock { done, sessionId, .. } => {
                if !*done {
                    match sessionId {
                        Some(s) => {
                            if strEq(s.as_str(), sid) {
                                return Some(n - 1);
                            }
                        },
                        None => {},
                    }
                }
            },
            _ => {},
        }
        n = n - 1;
    }
    None
}

/// The place of the last reasoning among the first `n` entries.
pub open spec fn last_reasoning(e: Seq<EntryV>, n: int) -> Option<int>
    decreases n,
{
    if n <= 0 {
        None
    } else if e[n - 1] is Reasoning {
        Some(n - 1)
    } else {
        last_reasoning(e, n - 1)
    }
}

/// The place of the last reasoning.
pub fn findLastReasoning(v: &Vec<PanelEntry>) -> (r: Option<usize>)
    ensures
        match r {
            Some(i) => i < v@.len() && last_reasoning(entry_views(v@), v@.len() as int) == Some(
                i as int,
            ) && entry_views(v@)[i as int] is Reasoning,
            None => last_reasoning(entry_views(v@), v@.len() as int) is None,
        },
{
    let ghost e = entry_views(v@);
    let mut n: usize = v.len();
    while n > 0
        invariant
            n <= v@.len(),
            e == entry_views(v@),
            last_reasoning(e, v@.len() as int) == last_reasoning(e, n as int),
        decreases n,
    {
        proof {
            assert(e[n - 1] == v@[n - 1]@);
        }
        match &v[n - 1] {
            PanelEntry::Reasoning { .. } => {
                return Some(n - 1);
            },
            _ => {},
        }
        n = n - 1;
    }
    None
}

/// The entries with the reasoning at `i` shown or hidden.
pub open spec fn with_reasoning_toggled(e: Seq<EntryV>, i: int) -> Seq<EntryV> {
    match e[i] {
        EntryV::Reasoning { text, expanded } => e.update(
            i,
            EntryV::Reasoning { text, expanded: !expanded },
        ),
        _ => e,
    }
}

/// Shows or hides the reasoning at `i`. Returns whether it is shown now.
pub fn toggleReasoning(v: &mut Vec<PanelEntry>, i: usize) -> (r: bool)
    requires
        i < old(v)@.len(),
        entry_views(old(v)@)[i as int] is Reasoning,
    ensures
        entry_views(final(v)@) == with_reasoning_toggled(entry_views(old(v)@), i as int),
        r == !entry_views(old(v)@)[i as int]->Reasoning_expanded,
{
    let ghost e = entry_views(v@);
    proof {
        assert(e[i as int] == v@[i as int]@);
    }
    let mut shown = false;
    match &mut v[i] {
        PanelEntry::Reasoning { text, expanded } => {
            *expanded = !*expanded;
            shown = *expanded;
        },
        _ => {},
    }
    proof {
        assert(entry_views(v@) =~= with_reasoning_toggled(e, i as int));
    }
    shown
}

// ---- compaction markers ----

/// The first `n` entries without the markers of `stage`.
pub open spec fn without_marker(e: Seq<EntryV>, stage: Seq<char>, n: int) -> Seq<EntryV>
    decreases n,
{
    if n <= 0 {
        Seq::empty()
    } else {
        let r = without_marker(e, stage, n - 1);
        if e[n - 1] == EntryV::CompactionMarker(stage) {
            r
        } else {
            r.push(e[n - 1])
        }
    }
}

/// Where the block `k` begins: at the `k`-th user entry from `i` on, or at the
/// top where there are fewer.
pub open spec fn block_start(e: Seq<EntryV>, k: int, i: int) -> int
    decreases e.len() - i,
{
    if i >= e.len() {
        0
    } else if e[i] is User {
        if k == 0 {
            i
        } else {
            block_start(e, k - 1, i + 1)
        }
    } else {
        block_start(e, k, i + 1)
    }
}

/// The entries with the marker of `stage` at the block `k`, and nowhere else.
pub open spec fn with_marker(e: Seq<EntryV>, stage: Seq<char>, k: int) -> Seq<EntryV> {
    let r = without_marker(e, stage, e.len() as int);
    r.insert(block_start(r, k, 0), EntryV::CompactionMarker(stage))
}

proof fn lemma_block_start(e: Seq<EntryV>, k: int, i: int)
    requires
        0 <= i <= e.len(),
    ensures
        0 <= block_start(e, k, i) <= e.len(),
    decreases e.len() - i,
{
    if i < e.len() {
        lemma_block_start(e, k, i + 1);
        lemma_block_start(e, k - 1, i + 1);
    }
}

/// Puts the marker of `stage` at the block `blockIdx`, in place of an earlier one.
pub fn placeMarker(v: &mut Vec<PanelEntry>, stage: &str, blockIdx: usize)
    ensures
        entry_views(final(v)@) == with_marker(entry_views(old(v)@), stage@, blockIdx as int),
{
    let ghost e = entry_views(v@);
    let mut i: usize = 0;
    let ghost total = v@.len();
    // Entries before `i` are kept, those from `i` on are still to be looked at.
    let ghost mut seen: int = 0;
    proof {
        assert(entry_views(v@) =~= without_marker(e, stage@, 0) + e.skip(0));
    }
    while i < v.len()
        invariant
            i <= v@.len(),
            0 <= seen <= e.len(),
            i == without_marker(e, stage@, seen).len(),
            v@.len() - i == e.len() - seen,
            entry_views(v@) == without_marker(e, stage@, seen) + e.skip(seen),
        decreases v@.len() - i,
    {
        let ghost before = entry_views(v@);
        proof {
            assert(before[i as int] == v@[i as int]@);
            assert(before[i as int] == e[seen]);
        }
        let mut hit = false;
        match &v[i] {
            PanelEntry::CompactionMarker { stage: s } => {
                hit = strEq(s.as_str(), stage);
            },
            _ => {},
        }
        if hit {
            v.remove(i);
            proof {
                assert(entry_views(v@) =~= before.remove(i as int));
                assert(before.remove(i as int) =~= without_marker(e, stage@, seen + 1) + e.skip(
                    seen + 1,
                ));
            }
        } else {
            i = i + 1;
            proof {
                assert(before =~= without_marker(e, stage@, seen + 1) + e.skip(seen + 1));
            }
        }
        proof {
            seen = seen + 1;
        }
    }
    proof {
        assert(e.skip(seen).len() == 0);
        assert(seen == e.len());
        assert(entry_views(v@) =~= without_marker(e, stage@, e.len() as int));
    }
    let ghost r = entry_views(v@);
    let mut at: usize = 0;
    let mut left: usize = blockIdx;
    let mut j: usize = 0;
    let mut found = false;
    while j < v.len() && !found
        invariant
            j <= v@.len(),
            r == entry_views(v@),
            found ==> at < v@.len() && block_start(r, blockIdx as int, 0) == at,
            !found ==> at == 0 && block_start(r, blockIdx as int, 0) == block_start(
                r,
                left as int,
                j as int,
            ),
        decreases v@.len() - j, (if found { 0int } else { 1int }),
    {
        proof {
            assert(r[j as int] == v@[j as int]@);
        }
        let user = match &v[j] {
            PanelEntry::User(_) => true,
            _ => false,
        };
        if user {
            if left == 0 {
                at = j;
                found = true;
            } else {
                left = left - 1;
                j = j + 1;
            }
        } else {
            j = j + 1;
        }
    }
    proof {
        lemma_block_start(r, blockIdx as int, 0);
        assert(block_start(r, blockIdx as int, 0) == at);
    }
    let marker = PanelEntry::CompactionMarker { stage: String::from_str(stage) };
    v.insert(at, marker);
    proof {
        assert(entry_views(v@) =~= r.insert(at as int, marker@));
    }
}

// ---- laws ----

/// A stage has one marker at most, however often compaction runs.
pub proof fn law_one_marker_per_stage(e: Seq<EntryV>, stage: Seq<char>, k: int, i: int, j: int)
    requires
        0 <= i < with_marker(e, stage, k).len(),
        0 <= j < with_marker(e, stage, k).len(),
        with_marker(e, stage, k)[i] == EntryV::CompactionMarker(stage),
        with_marker(e, stage, k)[j] == EntryV::CompactionMarker(stage),
    ensures
        i == j,
{
    let r = without_marker(e, stage, e.len() as int);
    lemma_without_marker(e, stage, e.len() as int);
    lemma_block_start(r, k, 0);
    let at = block_start(r, k, 0);
    let w = with_marker(e, stage, k);
    if i != at {
        if i < at {
            assert(w[i] == r[i]);
        } else {
            assert(w[i] == r[i - 1]);
        }
    }
    if j != at {
        if j < at {
            assert(w[j] == r[j]);
        } else {
            assert(w[j] == r[j - 1]);
        }
    }
}

proof fn lemma_without_marker(e: Seq<EntryV>, stage: Seq<char>, n: int)
    requires
        0 <= n <= e.len(),
    ensures
        forall|i: int|
            0 <= i < without_marker(e, stage, n).len() ==> #[trigger] without_marker(e, stage, n)[i]
                != EntryV::CompactionMarker(stage),
    decreases n,
{
    if n > 0 {
        lemma_without_marker(e, stage, n - 1);
    }
}

} // verus!
