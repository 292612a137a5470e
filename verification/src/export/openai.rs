//! Training examples in fine-tuning message shape.

use vstd::prelude::*;
use vstd::string::*;
use crate::export::{Segment, SegmentV};
use crate::text::{opt_text, strEq, texts};
use crate::transcript::{Turn, TurnRole};

verus! {

/// A tool call of an assistant message.
#[derive(Clone, Debug)]
pub struct ToolCall {
    pub id: String,
    pub callType: String,
    pub name: String,
    pub arguments: String,
}

/// A tool call as a value.
pub ghost struct ToolCallV {
    pub id: Seq<char>,
    pub callType: Seq<char>,
    pub name: Seq<char>,
    pub arguments: Seq<char>,
}

impl View for ToolCall {
    type V = ToolCallV;

    open spec fn view(&self) -> ToolCallV {
        ToolCallV {
            id: self.id@,
            callType: self.callType@,
            name: self.name@,
            arguments: self.arguments@,
        }
    }
}

/// The calls of `v` as values.
pub open spec fn call_views(v: Seq<ToolCall>) -> Seq<ToolCallV> {
    Seq::new(v.len(), |i: int| v[i]@)
}

/// An assistant message.
#[derive(Clone, Debug)]
pub struct AssistantMessage {
    pub content: Option<String>,
    pub toolCalls: Option<Vec<ToolCall>>,
    pub reasoning: Option<String>,
}

/// A message of an example.
#[derive(Clone, Debug)]
pub enum ExampleMessage {
    /// The system prompt.
    System(String),
    /// A stored message, as the JSON text that was kept of it.
    Stored(String),
    /// The training target.
    Target(AssistantMessage),
}

/// Provenance of an example.
#[derive(Debug)]
pub struct FlatlineMeta {
    pub sessionId: String,
    pub segmentIndex: usize,
    pub snapshotHash: String,
    pub turnRange: [String; 2],
    pub model: Option<String>,
}

/// A single example. `tools` holds the JSON text of the tool definitions.
#[derive(Debug)]
pub struct Example {
    pub messages: Vec<ExampleMessage>,
    pub tools: Vec<String>,
    pub reasoning: Option<Vec<String>>,
    pub flatline: FlatlineMeta,
}

// ---- the training target ----

/// What `serde_json` makes of a JSON text when it reads it as a value and
/// writes that out again; none where the text is no JSON.
pub uninterp spec fn compact_json(s: Seq<char>) -> Option<Seq<char>>;

/// Reads the text with `serde_json::from_str` and writes the value with
/// `serde_json::to_string`. The outcome depends on the text alone.
#[verifier::external_body]
pub(crate) fn compactJson(s: &str) -> (r: Option<String>)
    ensures
        opt_text(r) == compact_json(s@),
{
    let value: serde_json::Value = serde_json::from_str(s).ok()?;
    serde_json::to_string(&value).ok()
}

/// The text of an optional string, empty where there is none.
pub open spec fn or_empty(o: Option<String>) -> Seq<char> {
    match o {
        Some(s) => s@,
        None => Seq::empty(),
    }
}

fn orEmpty(o: &Option<String>) -> (r: String)
    ensures
        r@ == or_empty(*o),
{
    match o {
        Some(s) => s.clone(),
        None => String::new(),
    }
}

/// The arguments of a recorded tool call, as they went on the wire, given what
/// came of compacting them.
pub open spec fn wire_args(compacted: Option<Seq<char>>) -> Seq<char> {
    match compacted {
        Some(t) => t,
        None => "{}"@,
    }
}

/// The arguments to send: what came of compacting them, or an empty object.
pub fn wireArgs(compacted: Option<String>) -> (r: String)
    ensures
        r@ == wire_args(opt_text(compacted)),
{
    match compacted {
        Some(t) => t,
        None => String::from_str("{}"),
    }
}

/// The compacted arguments of a turn.
pub open spec fn compacted_args(t: Turn) -> Option<Seq<char>> {
    match t.args {
        Some(a) => compact_json(a@),
        None => None,
    }
}

/// The call that a recorded tool call stands for.
pub open spec fn call_of(t: Turn) -> ToolCallV {
    ToolCallV {
        id: or_empty(t.toolCallId),
        callType: "function"@,
        name: or_empty(t.tool),
        arguments: wire_args(compacted_args(t)),
    }
}

/// How many tool-call turns follow turn `i` directly, in its block, from `j` on.
pub open spec fn calls_after(branch: Seq<Turn>, i: int, j: int) -> int
    decreases branch.len() - j,
{
    if j < branch.len() && branch[j].blockId@ == branch[i].blockId@ && branch[j].role is ToolCall {
        1 + calls_after(branch, i, j + 1)
    } else {
        0
    }
}

/// The tool calls that went out with the assistant turn `i`.
pub open spec fn target_calls(branch: Seq<Turn>, i: int) -> Seq<ToolCallV> {
    Seq::new(calls_after(branch, i, i + 1) as nat, |k: int| call_of(branch[i + 1 + k]))
}

/// Whether `m` is the message of the assistant turn `i`: its content where that
/// is not empty, the tool calls that follow it in its block where there are
/// any, and its reasoning.
pub open spec fn is_target(m: AssistantMessage, branch: Seq<Turn>, i: int) -> bool {
    &&& opt_text(m.content) == (if branch[i].content@.len() == 0 {
        None
    } else {
        Some(branch[i].content@)
    })
    &&& match m.toolCalls {
        Some(c) => call_views(c@) == target_calls(branch, i) && c@.len() > 0,
        None => target_calls(branch, i).len() == 0,
    }
    &&& m.reasoning == branch[i].reasoning
}

proof fn lemma_calls_nonneg(branch: Seq<Turn>, i: int, j: int)
    ensures
        calls_after(branch, i, j) >= 0,
    decreases branch.len() - j,
{
    if j < branch.len() && branch[j].blockId@ == branch[i].blockId@ && branch[j].role is ToolCall {
        lemma_calls_nonneg(branch, i, j + 1);
    }
}

/// Builds the message of an assistant turn from the turn and the tool-call
/// turns that directly follow it in the same block, which share one response.
pub fn assembleAssistantTarget(branch: &Vec<Turn>, asstIdx: usize) -> (r: AssistantMessage)
    requires
        asstIdx < branch@.len(),
    ensures
        is_target(r, branch@, asstIdx as int),
{
    let count: usize = branch.len();
    let asst = &branch[asstIdx];
    let mut calls: Vec<ToolCall> = Vec::new();
    let mut j: usize = asstIdx + 1;
    let ghost start = asstIdx + 1;
    proof {
        lemma_calls_nonneg(branch@, asstIdx as int, start as int);
    }
    while j < branch.len() && strEq(branch[j].blockId.as_str(), asst.blockId.as_str())
        && branch[j].role == TurnRole::ToolCall
        invariant
            asstIdx < branch.len(),
            start == asstIdx + 1,
            start <= j <= branch.len(),
            *asst == branch@[asstIdx as int],
            calls@.len() == j - start,
            calls_after(branch@, asstIdx as int, start as int) == (j - start) + calls_after(
                branch@,
                asstIdx as int,
                j as int,
            ),
            forall|k: int|
                0 <= k < calls@.len() ==> (#[trigger] calls@[k])@ == call_of(branch@[start + k]),
        decreases branch.len() - j,
    {
        let t = &branch[j];
        let compacted = match &t.args {
            Some(a) => compactJson(a.as_str()),
            None => None,
        };
        let call = ToolCall {
            id: orEmpty(&t.toolCallId),
            callType: String::from_str("function"),
            name: orEmpty(&t.tool),
            arguments: wireArgs(compacted),
        };
        calls.push(call);
        j = j + 1;
    }
    proof {
        assert(calls_after(branch@, asstIdx as int, j as int) == 0);
        assert(call_views(calls@) =~= target_calls(branch@, asstIdx as int));
    }
    let content = if asst.content.as_str().unicode_len() == 0 {
        None
    } else {
        Some(asst.content.clone())
    };
    let toolCalls = if calls.len() == 0 {
        None
    } else {
        Some(calls)
    };
    let reasoning = match &asst.reasoning {
        Some(s) => Some(s.clone()),
        None => None,
    };
    AssistantMessage { content, toolCalls, reasoning }
}

// ---- reasoning traces ----

/// The traces of the assistant turns in `branch[from..to]`, empty where a turn
/// has none.
pub open spec fn traces(branch: Seq<Turn>, from: int, to: int) -> Seq<Seq<char>>
    decreases to - from,
{
    if to <= from {
        Seq::empty()
    } else {
        let r = traces(branch, from, to - 1);
        if branch[to - 1].role is Assistant {
            r.push(or_empty(branch[to - 1].reasoning))
        } else {
            r
        }
    }
}

/// Whether every text is empty.
pub open spec fn all_empty(v: Seq<Seq<char>>) -> bool {
    forall|i: int| 0 <= i < v.len() ==> (#[trigger] v[i]).len() == 0
}

/// The reasoning of the assistant turns `from..=last`, one entry per turn, or
/// none where it is not wanted or there is none at all.
pub fn reasoningTraces(
    branch: &Vec<Turn>,
    from: usize,
    last: usize,
    noReasoning: bool,
) -> (r: Option<Vec<String>>)
    requires
        from <= last < branch@.len(),
    ensures
        ({
            let t = traces(branch@, from as int, last + 1);
            match r {
                Some(v) => !noReasoning && !all_empty(t) && texts(v@) == t,
                None => noReasoning || all_empty(t),
            }
        }),
{
    if noReasoning {
        return None;
    }
    let mut out: Vec<String> = Vec::new();
    let mut any = false;
    let mut i: usize = from;
    proof {
        assert(texts(out@) =~= traces(branch@, from as int, from as int));
    }
    while i <= last
        invariant
            from <= i <= last + 1,
            last < branch.len(),
            texts(out@) == traces(branch@, from as int, i as int),
            any == !all_empty(texts(out@)),
        decreases last + 1 - i,
    {
        if branch[i].role == TurnRole::Assistant {
            let t = orEmpty(&branch[i].reasoning);
            let ghost before = texts(out@);
            let filled = t.as_str().unicode_len() > 0;
            out.push(t);
            proof {
                assert(texts(out@) =~= before.push(t@));
                if filled {
                    assert(texts(out@)[out@.len() - 1].len() > 0);
                } else if any {
                    let k = choose|k: int| 0 <= k < before.len() && before[k].len() != 0;
                    assert(texts(out@)[k].len() != 0);
                } else {
                    assert forall|k: int| 0 <= k < texts(out@).len() implies (
                    #[trigger] texts(out@)[k]).len() == 0 by {
                        if k < before.len() {
                            assert(before[k].len() == 0);
                        }
                    }
                }
            }
            any = any || filled;
        }
        i = i + 1;
    }
    if any {
        Some(out)
    } else {
        None
    }
}

// ---- examples ----

/// How many messages the example of a segment has: the system prompt where
/// there is one, the stored messages, and the target.
pub open spec fn example_len(s: SegmentV) -> int {
    (if s.anchor.system is Some {
        1int
    } else {
        0
    }) + s.last.messages.len() + 1
}

/// Whether the example of a segment has at least `minMessages` messages.
pub fn longEnough(segment: &Segment, minMessages: usize) -> (r: bool)
    ensures
        r == (example_len(segment@) >= minMessages),
{
    let stored: usize = segment.last.messages.len();
    let extra: usize = if segment.anchor.systemPromptHash.is_some() {
        2
    } else {
        1
    };
    minMessages <= extra || stored >= minMessages - extra
}

/// Whether `m` is the stored message with the text `t`.
pub open spec fn is_stored(m: ExampleMessage, t: Seq<char>) -> bool {
    m matches ExampleMessage::Stored(s) && s@ == t
}

/// Whether `m` are the messages of the example: the system prompt, the stored
/// messages in order, and the target.
pub open spec fn are_messages(
    m: Seq<ExampleMessage>,
    system: Option<Seq<char>>,
    stored: Seq<Seq<char>>,
    branch: Seq<Turn>,
    asst: int,
) -> bool {
    let first: int = if system is Some {
        1
    } else {
        0
    };
    &&& m.len() == first + stored.len() + 1
    &&& system is Some ==> (m[0] matches ExampleMessage::System(t) && t@ == system->0)
    &&& forall|k: int|
        #![trigger stored[k]]
        0 <= k < stored.len() ==> is_stored(m[first + k], stored[k])
    &&& m.last() matches ExampleMessage::Target(t) && is_target(t, branch, asst)
}

/// Builds an example from a segment, or none if it would have fewer than
/// `minMessages` messages. `system` is the text of the anchor's system prompt,
/// `stored` the stored messages of the last request in order, `tools` the tool
/// definitions of the anchor.
pub fn buildExample(
    sessionId: &str,
    segmentIndex: usize,
    segment: &Segment,
    branch: &Vec<Turn>,
    system: Option<String>,
    stored: &Vec<String>,
    tools: Vec<String>,
    noReasoning: bool,
    minMessages: usize,
) -> (r: Option<Example>)
    requires
        segment.anchorIdx <= segment.lastAsstIdx < branch@.len(),
        system is Some <==> segment.anchor.systemPromptHash is Some,
        stored@.len() == segment.last.messages@.len(),
    ensures
        match r {
            None => example_len(segment@) < minMessages,
            Some(e) => {
                let t = traces(
                    branch@,
                    segment.anchorIdx as int,
                    segment.lastAsstIdx + 1,
                );
                &&& example_len(segment@) >= minMessages
                &&& e.messages@.len() == example_len(segment@)
                &&& are_messages(
                    e.messages@,
                    opt_text(system),
                    texts(stored@),
                    branch@,
                    segment.lastAsstIdx as int,
                )
                &&& e.tools == tools
                &&& match e.reasoning {
                    Some(v) => !noReasoning && !all_empty(t) && texts(v@) == t,
                    None => noReasoning || all_empty(t),
                }
                &&& e.flatline.sessionId@ == sessionId@
                &&& e.flatline.segmentIndex == segmentIndex
                &&& e.flatline.snapshotHash@ == or_empty(
                    branch@[segment.lastAsstIdx as int].snapshotHash,
                )
                &&& e.flatline.turnRange@[0] == branch@[segment.anchorIdx as int].id
                &&& e.flatline.turnRange@[1] == branch@[segment.lastAsstIdx as int].id
                &&& e.flatline.model == Some(segment.last.model)
            },
        },
{
    if !longEnough(segment, minMessages) {
        return None;
    }
    let mut messages: Vec<ExampleMessage> = Vec::new();
    let ghost sys = opt_text(system);
    let mut first: usize = 0;
    match system {
        Some(t) => {
            messages.push(ExampleMessage::System(t));
            first = 1;
        },
        None => {},
    }
    let mut i: usize = 0;
    let ghost st = texts(stored@);
    while i < stored.len()
        invariant
            i <= stored.len(),
            st == texts(stored@),
            first == (if sys is Some {
                1int
            } else {
                0
            }),
            messages@.len() == first + i,
            sys is Some ==> (messages@[0] matches ExampleMessage::System(t) && t@ == sys->0),
            forall|k: int|
                #![trigger st[k]]
                0 <= k < i ==> is_stored(messages@[first + k], st[k]),
        decreases stored.len() - i,
    {
        let ghost before = messages@;
        messages.push(ExampleMessage::Stored(stored[i].clone()));
        proof {
            assert forall|k: int| #![trigger st[k]] 0 <= k < i + 1 implies is_stored(
                messages@[first + k],
                st[k],
            ) by {
                assert(st[k] == stored@[k]@);
                if k < i {
                    assert(messages@[first + k] == before[first + k]);
                }
            }
        }
        i = i + 1;
    }
    let ghost so_far = messages@;
    let target = assembleAssistantTarget(branch, segment.lastAsstIdx);
    messages.push(ExampleMessage::Target(target));
    proof {
        assert forall|k: int| #![trigger st[k]] 0 <= k < stored@.len() implies is_stored(
                messages@[first + k],
                st[k],
            ) by {
            assert(st[k] == stored@[k]@);
            assert(messages@[first + k] == so_far[first + k]);
        }
    }
    let reasoning = reasoningTraces(
        branch,
        segment.anchorIdx,
        segment.lastAsstIdx,
        noReasoning,
    );
    let lastAsst = &branch[segment.lastAsstIdx];
    let flatline = FlatlineMeta {
        sessionId: String::from_str(sessionId),
        segmentIndex,
        snapshotHash: orEmpty(&lastAsst.snapshotHash),
        turnRange: [branch[segment.anchorIdx].id.clone(), lastAsst.id.clone()],
        model: Some(segment.last.model.clone()),
    };
    Some(Example { messages, tools, reasoning, flatline })
}

// ---- laws ----

/// The tool calls of a target all belong to the block of its assistant turn, and
/// nothing stands between the turn and them.
pub proof fn law_target_calls_share_the_block(branch: Seq<Turn>, i: int, k: int)
    requires
        0 <= i < branch.len(),
        0 <= k < target_calls(branch, i).len(),
    ensures
        i + 1 + k < branch.len(),
        branch[i + 1 + k].blockId@ == branch[i].blockId@,
        branch[i + 1 + k].role is ToolCall,
{
    lemma_calls_nonneg(branch, i, i + 1);
    lemma_calls_run(branch, i, i + 1, k);
}

proof fn lemma_calls_run(branch: Seq<Turn>, i: int, j: int, k: int)
    requires
        0 <= k < calls_after(branch, i, j),
    ensures
        j + k < branch.len(),
        branch[j + k].blockId@ == branch[i].blockId@,
        branch[j + k].role is ToolCall,
    decreases k,
{
    if k > 0 {
        lemma_calls_run(branch, i, j + 1, k - 1);
    }
}

} // verus!
