//! The conversation of a resumed session, rebuilt from its recorded turns.

use vstd::prelude::*;
use vstd::string::*;
use crate::agent_panel::entry::{BlockV, EntryV, PanelEntry, addEntry, entry_views, pair_views};
use crate::agent_panel::labels::{digits_value, lemma_digits_mono};
use crate::agent_panel::state::{AgentPanel, PanelV};
use crate::export::openai::{compactJson, compact_json};
use crate::text::{
    brief, briefly, cat2, cat3, cat4, charsOf, dec, decimal, find_from, findFirst, has_prefix,
    is_digit, opt_text, startsWith, strEq, cutBytes, cut_bytes, bytesExceed, byte_len,
};
use crate::transcript::{Turn, TurnRole};

verus! {

// ---- wake notices ----

/// What stands behind `key` in `s`, up to the next quote.
pub open spec fn quoted(s: Seq<char>, key: Seq<char>) -> Option<Seq<char>> {
    match find_from(s, key, 0) {
        Some(i) => {
            let rest = s.skip(i + key.len());
            match find_from(rest, "\""@, 0) {
                Some(j) => Some(rest.take(j)),
                None => None,
            }
        },
        None => None,
    }
}

fn quotedIn(s: &str, key: &str) -> (r: Option<String>)
    ensures
        opt_text(r) == quoted(s@, key@),
{
    match findFirst(s, key) {
        Some(i) => {
            let n: usize = s.unicode_len();
            let k: usize = key.unicode_len();
            let rest = s.substring_char(i + k, n);
            proof {
                assert(rest@ =~= s@.skip(i + key@.len()));
            }
            match findFirst(rest, "\"") {
                Some(j) => {
                    let t = rest.substring_char(0, j);
                    proof {
                        assert(t@ =~= rest@.take(j as int));
                    }
                    Some(String::from_str(t))
                },
                None => None,
            }
        },
        None => None,
    }
}

/// The number that a text stands for: decimal digits, with a plus sign before them
/// or without, that fit into a `usize`.
pub open spec fn number_of(s: Seq<char>) -> Option<int> {
    let d = if s.len() > 0 && s[0] == '+' {
        s.skip(1)
    } else {
        s
    };
    if d.len() > 0 && all_digits(d) && digits_value(d) <= usize::MAX {
        Some(digits_value(d) as int)
    } else {
        None
    }
}

/// Whether there are only decimal digits in `s`.
pub open spec fn all_digits(s: Seq<char>) -> bool {
    forall|i: int| 0 <= i < s.len() ==> is_digit(#[trigger] s[i])
}

fn numberOf(s: &str) -> (r: Option<usize>)
    ensures
        match r {
            Some(n) => number_of(s@) == Some(n as int),
            None => number_of(s@) is None,
        },
{
    let v = charsOf(s);
    let from: usize = if v.len() > 0 && v[0] == '+' {
        1
    } else {
        0
    };
    let ghost d = if from == 1 {
        s@.skip(1)
    } else {
        s@
    };
    if v.len() == from {
        return None;
    }
    let mut value: usize = 0;
    let mut i: usize = from;
    proof {
        assert(d.take(0) =~= Seq::<char>::empty());
    }
    while i < v.len()
        invariant
            from <= i <= v@.len(),
            from <= 1,
            v@ == s@,
            from == (if s@.len() > 0 && s@[0] == '+' {
                1int
            } else {
                0int
            }),
            d == (if from == 1 {
                s@.skip(1)
            } else {
                s@
            }),
            d.len() == s@.len() - from,
            d.len() > 0,
            value == digits_value(d.take(i - from)),
            all_digits(d.take(i - from)),
        decreases v@.len() - i,
    {
        let c = v[i];
        let ghost at = i - from;
        proof {
            assert(d[at] == c);
            assert(d.take(at + 1).drop_last() =~= d.take(at));
            assert(d.take(at + 1).last() == c);
        }
        if c < '0' || c > '9' {
            proof {
                assert(!is_digit(d[at]));
            }
            return None;
        }
        let n: usize = (c as u32 - '0' as u32) as usize;
        if value > (usize::MAX - n) / 10 {
            proof {
                assert(digits_value(d.take(at + 1)) > usize::MAX);
                if all_digits(d) {
                    let t = d.skip(at + 1);
                    assert forall|k: int| 0 <= k < t.len() implies is_digit(#[trigger] t[k]) by {
                        assert(is_digit(d[at + 1 + k]));
                    }
                    lemma_digits_mono(d.take(at + 1), t);
                    assert(d.take(at + 1) + t =~= d);
                }
            }
            return None;
        }
        value = value * 10 + n;
        proof {
            assert forall|k: int| 0 <= k < d.take(at + 1).len() implies is_digit(
                #[trigger] d.take(at + 1)[k],
            ) by {
                if k < at {
                    assert(is_digit(d.take(at)[k]));
                }
            }
        }
        i = i + 1;
    }
    proof {
        assert(d.take(d.len() as int) =~= d);
    }
    Some(value)
}

/// The notice of a wake turn: how many wakes there were and the source of the
/// first.
pub open spec fn wake_notice(content: Seq<char>) -> Seq<char> {
    let n: int = match quoted(content, "count=\""@) {
        Some(t) => match number_of(t) {
            Some(n) => n,
            None => 0,
        },
        None => 0,
    };
    match quoted(content, "source=\""@) {
        Some(src) => if n > 1 {
            "\u{2299} "@ + dec(n as nat) + " wakes (first: "@ + src + ")"@
        } else {
            "\u{2299} wake \u{00B7} "@ + src
        },
        None => if n > 0 {
            "\u{2299} "@ + dec(n as nat) + " wakes"@
        } else {
            "\u{2299} wake"@
        },
    }
}

/// The notice of a wake turn.
pub fn wakeNoticeFromContent(content: &str) -> (r: String)
    ensures
        r@ == wake_notice(content@),
{
    let n: usize = match quotedIn(content, "count=\"") {
        Some(t) => match numberOf(t.as_str()) {
            Some(n) => n,
            None => 0,
        },
        None => 0,
    };
    match quotedIn(content, "source=\"") {
        Some(src) => {
            if n > 1 {
                let mut s = cat4(
                    "\u{2299} ",
                    decimal(n as u64).as_str(),
                    " wakes (first: ",
                    src.as_str(),
                );
                s.append(")");
                s
            } else {
                cat2("\u{2299} wake \u{00B7} ", src.as_str())
            }
        },
        None => {
            if n > 0 {
                cat3("\u{2299} ", decimal(n as u64).as_str(), " wakes")
            } else {
                String::from_str("\u{2299} wake")
            }
        },
    }
}

// ---- what a turn shows ----

/// The text of the field `key` in the JSON object `s`, as `serde_json` reads it;
/// none where `s` is no JSON object or the field is no text.
pub uninterp spec fn json_text_field(s: Seq<char>, key: Seq<char>) -> Option<Seq<char>>;

/// Reads the text with `serde_json::from_str`, takes the field by
/// `serde_json::Value::get` and its text by `serde_json::Value::as_str`. The
/// outcome depends on the two texts alone.
#[verifier::external_body]
fn jsonTextField(s: &str, key: &str) -> (r: Option<String>)
    ensures
        opt_text(r) == json_text_field(s@, key@),
{
    let value: serde_json::Value = serde_json::from_str(s).ok()?;
    Some(value.get(key)?.as_str()?.to_string())
}

/// A field of a turn's arguments, `other` where there is none.
pub open spec fn field_or(t: Turn, key: Seq<char>, other: Seq<char>) -> Seq<char> {
    match t.args {
        Some(a) => match json_text_field(a@, key) {
            Some(v) => v,
            None => other,
        },
        None => other,
    }
}

fn fieldOr(t: &Turn, key: &str, other: &str) -> (r: String)
    ensures
        r@ == field_or(*t, key@, other@),
{
    match &t.args {
        Some(a) => match jsonTextField(a.as_str(), key) {
            Some(v) => v,
            None => String::from_str(other),
        },
        None => String::from_str(other),
    }
}

/// The name of a turn's tool.
pub open spec fn tool_name(tool: Option<String>) -> Seq<char> {
    match tool {
        Some(t) => t@,
        None => "tool"@,
    }
}

fn toolName(tool: &Option<String>) -> (r: String)
    ensures
        r@ == tool_name(*tool),
{
    match tool {
        Some(t) => t.clone(),
        None => String::from_str("tool"),
    }
}

/// What is shown of a call's arguments, as they are written compactly: all of them
/// up to 80 bytes, else the first 79.
pub open spec fn args_brief(compacted: Option<Seq<char>>) -> Seq<char> {
    match compacted {
        Some(s) => if byte_len(s) > 80 {
            cut_bytes(s, 79) + "\u{2026}"@
        } else {
            s
        },
        None => Seq::empty(),
    }
}

/// What is shown of a call's compact arguments.
pub fn argsBrief(compacted: &Option<String>) -> (r: String)
    ensures
        r@ == args_brief(opt_text(*compacted)),
{
    match compacted {
        Some(s) => {
            if bytesExceed(s.as_str(), 80) {
                cat2(cutBytes(s.as_str(), 79).as_str(), "\u{2026}")
            } else {
                s.clone()
            }
        },
        None => String::new(),
    }
}

/// The compact arguments of a turn.
pub open spec fn compact_args(t: Turn) -> Option<Seq<char>> {
    match t.args {
        Some(a) => compact_json(a@),
        None => None,
    }
}

/// What the user sent, and how many images with it.
pub open spec fn user_text(t: Turn) -> Seq<char> {
    if t.attachments == 0 {
        t.content@
    } else {
        t.content@ + "\n[+"@ + (if t.attachments == 1 {
            "1 image"@
        } else {
            dec(t.attachments as nat) + " images"@
        }) + " attached]"@
    }
}

fn userText(t: &Turn) -> (r: String)
    ensures
        r@ == user_text(*t),
{
    if t.attachments == 0 {
        return t.content.clone();
    }
    let suffix = if t.attachments == 1 {
        String::from_str("1 image")
    } else {
        cat2(decimal(t.attachments as u64).as_str(), " images")
    };
    cat4(t.content.as_str(), "\n[+", suffix.as_str(), " attached]")
}

// ---- subagents ----

/// The mark before the session id of a subagent.
pub const SESSION_MARK: &'static str = "[subagent session: ";

/// The session id of a subagent and its reply, from the result of its task.
pub open spec fn subagent_reply(raw: Seq<char>) -> (Option<Seq<char>>, Seq<char>) {
    match find_from(raw, SESSION_MARK@, 0) {
        Some(i) => {
            let rest = raw.skip(i + SESSION_MARK@.len());
            match find_from(rest, "]"@, 0) {
                Some(j) => {
                    let body = rest.skip(j + 1);
                    (
                        Some(rest.take(j)),
                        if has_prefix(body, "\n\n"@) {
                            body.skip(2)
                        } else {
                            body
                        },
                    )
                },
                None => (None, raw),
            }
        },
        None => (None, raw),
    }
}

/// The session id of a subagent and its reply, from the result of its task.
pub fn subagentReply(raw: &str) -> (r: (Option<String>, String))
    ensures
        opt_text(r.0) == subagent_reply(raw@).0,
        r.1@ == subagent_reply(raw@).1,
{
    match findFirst(raw, SESSION_MARK) {
        Some(i) => {
            let n: usize = raw.unicode_len();
            let m: usize = SESSION_MARK.unicode_len();
            let rest = raw.substring_char(i + m, n);
            proof {
                assert(rest@ =~= raw@.skip(i + SESSION_MARK@.len()));
            }
            match findFirst(rest, "]") {
                Some(j) => {
                    proof {
                        reveal_strlit("]");
                        reveal_strlit("\n\n");
                    }
                    let k: usize = rest.unicode_len();
                    let sid = rest.substring_char(0, j);
                    let body = rest.substring_char(j + 1, k);
                    proof {
                        assert(sid@ =~= rest@.take(j as int));
                        assert(body@ =~= rest@.skip(j + 1));
                    }
                    if startsWith(body, "\n\n") {
                        let b: usize = body.unicode_len();
                        let tail = body.substring_char(2, b);
                        proof {
                            assert(tail@ =~= body@.skip(2));
                        }
                        (Some(String::from_str(sid)), String::from_str(tail))
                    } else {
                        (Some(String::from_str(sid)), String::from_str(body))
                    }
                },
                None => (None, String::from_str(raw)),
            }
        },
        None => (None, String::from_str(raw)),
    }
}

/// A recorded turn of a subagent. `summary` is what the call of a tool does in
/// words, none where the call could not be read.
#[derive(Debug)]
pub struct ChildTurn {
    pub role: TurnRole,
    pub tool: Option<String>,
    pub summary: Option<String>,
    pub content: String,
}

/// The recorded turns of a subagent.
#[derive(Debug)]
pub struct ChildSession {
    pub sessionId: String,
    pub turns: Vec<ChildTurn>,
}

/// The lines that the tools of a subagent leave.
pub open spec fn child_lines(t: Seq<ChildTurn>) -> Seq<(Seq<char>, Seq<char>)>
    decreases t.len(),
{
    if t.len() == 0 {
        Seq::empty()
    } else {
        let before = child_lines(t.drop_last());
        let c = t.last();
        match c.role {
            TurnRole::ToolCall => before.push(
                (
                    tool_name(c.tool),
                    match c.summary {
                        Some(s) => s@,
                        None => tool_name(c.tool) + " (parse error)"@,
                    },
                ),
            ),
            TurnRole::ToolResult => before.push((tool_name(c.tool), brief(c.content@, 60))),
            _ => before,
        }
    }
}

/// How many turns a subagent took.
pub open spec fn child_turns(t: Seq<ChildTurn>) -> int
    decreases t.len(),
{
    if t.len() == 0 {
        0
    } else {
        child_turns(t.drop_last()) + (if t.last().role is Assistant {
            1int
        } else {
            0int
        })
    }
}

/// The lines that the tools of a subagent leave, and how many turns it took.
pub fn childToolLines(t: &Vec<ChildTurn>) -> (r: (Vec<(String, String)>, usize))
    ensures
        pair_views(r.0@) == child_lines(t@),
        r.1 == child_turns(t@),
{
    let mut lines: Vec<(String, String)> = Vec::new();
    let mut n: usize = 0;
    let mut i: usize = 0;
    proof {
        assert(t@.take(0) =~= Seq::<ChildTurn>::empty());
        assert(pair_views(lines@) =~= child_lines(t@.take(0)));
    }
    while i < t.len()
        invariant
            i <= t@.len(),
            n <= i,
            pair_views(lines@) == child_lines(t@.take(i as int)),
            n == child_turns(t@.take(i as int)),
        decreases t@.len() - i,
    {
        let c = &t[i];
        let ghost before = pair_views(lines@);
        proof {
            assert(t@.take(i + 1).drop_last() =~= t@.take(i as int));
            assert(t@.take(i + 1).last() == *c);
        }
        match c.role {
            TurnRole::Assistant => {
                n = n + 1;
            },
            TurnRole::ToolCall => {
                let name = toolName(&c.tool);
                let what = match &c.summary {
                    Some(s) => s.clone(),
                    None => cat2(name.as_str(), " (parse error)"),
                };
                let ghost line = (name@, what@);
                lines.push((name, what));
                proof {
                    assert(pair_views(lines@) =~= before.push(line));
                }
            },
            TurnRole::ToolResult => {
                let name = toolName(&c.tool);
                let what = briefly(c.content.as_str(), 60);
                let ghost line = (name@, what@);
                lines.push((name, what));
                proof {
                    assert(pair_views(lines@) =~= before.push(line));
                }
            },
            _ => {},
        }
        i = i + 1;
    }
    proof {
        assert(t@.take(t@.len() as int) =~= t@);
    }
    (lines, n)
}

/// The place of the session `sid`, counted from `i`.
pub open spec fn child_at(c: Seq<ChildSession>, sid: Seq<char>, i: int) -> Option<int>
    decreases c.len() - i,
{
    if i >= c.len() {
        None
    } else if c[i].sessionId@ == sid {
        Some(i)
    } else {
        child_at(c, sid, i + 1)
    }
}

/// What the subagent `sid` left; nothing where its session is not there.
pub open spec fn child_of(c: Seq<ChildSession>, sid: Option<Seq<char>>) -> (
    Seq<(Seq<char>, Seq<char>)>,
    int,
) {
    match sid {
        Some(s) => match child_at(c, s, 0) {
            Some(i) => (child_lines(c[i].turns@), child_turns(c[i].turns@)),
            None => (Seq::empty(), 0),
        },
        None => (Seq::empty(), 0),
    }
}

fn childOf(c: &Vec<ChildSession>, sid: &Option<String>) -> (r: (Vec<(String, String)>, usize))
    ensures
        pair_views(r.0@) == child_of(c@, opt_text(*sid)).0,
        r.1 == child_of(c@, opt_text(*sid)).1,
{
    match sid {
        Some(s) => {
            let mut i: usize = 0;
            while i < c.len()
                invariant
                    i <= c@.len(),
                    child_at(c@, s@, 0) == child_at(c@, s@, i as int),
                    *sid == Some(*s),
                decreases c@.len() - i,
            {
                if strEq(c[i].sessionId.as_str(), s.as_str()) {
                    return childToolLines(&c[i].turns);
                }
                i = i + 1;
            }
        },
        None => {},
    }
    let none: Vec<(String, String)> = Vec::new();
    proof {
        assert(pair_views(none@) =~= Seq::<(Seq<char>, Seq<char>)>::empty());
    }
    (none, 0)
}

// ---- open calls ----

/// The calls whose results are awaited, each with the place of its block. The
/// newest entry of a call counts.
pub open spec fn awaited(v: Seq<(String, usize)>) -> Map<Seq<char>, int>
    decreases v.len(),
{
    if v.len() == 0 {
        Map::empty()
    } else {
        awaited(v.drop_last()).insert(v.last().0@, v.last().1 as int)
    }
}

fn awaitedAt(v: &Vec<(String, usize)>, id: &str) -> (r: Option<usize>)
    ensures
        match r {
            Some(i) => awaited(v@).dom().contains(id@) && awaited(v@)[id@] == i,
            None => !awaited(v@).dom().contains(id@),
        },
{
    let mut i: usize = v.len();
    proof {
        assert(v@.take(v@.len() as int) =~= v@);
    }
    while i > 0
        invariant
            i <= v@.len(),
            awaited(v@).dom().contains(id@) == awaited(v@.take(i as int)).dom().contains(id@),
            awaited(v@.take(i as int)).dom().contains(id@) ==> awaited(v@)[id@] == awaited(
                v@.take(i as int),
            )[id@],
        decreases i,
    {
        proof {
            assert(v@.take(i as int).drop_last() =~= v@.take(i - 1));
            assert(v@.take(i as int).last() == v@[i - 1]);
        }
        if strEq(v[i - 1].0.as_str(), id) {
            return Some(v[i - 1].1);
        }
        i = i - 1;
    }
    None
}

fn without(v: Vec<(String, usize)>, id: &str) -> (r: Vec<(String, usize)>)
    ensures
        awaited(r@) == awaited(v@).remove(id@),
{
    let mut r: Vec<(String, usize)> = Vec::new();
    let mut i: usize = 0;
    proof {
        assert(v@.take(0) =~= Seq::<(String, usize)>::empty());
        assert(awaited(r@) =~= awaited(v@.take(0)).remove(id@));
    }
    while i < v.len()
        invariant
            i <= v@.len(),
            awaited(r@) == awaited(v@.take(i as int)).remove(id@),
        decreases v@.len() - i,
    {
        let ghost old_r = r@;
        proof {
            assert(v@.take(i + 1).drop_last() =~= v@.take(i as int));
            assert(v@.take(i + 1).last() == v@[i as int]);
        }
        if !strEq(v[i].0.as_str(), id) {
            r.push((v[i].0.clone(), v[i].1));
            proof {
                assert(r@.drop_last() =~= old_r);
                assert(awaited(r@) =~= awaited(v@.take(i + 1)).remove(id@));
            }
        } else {
            proof {
                assert(awaited(r@) =~= awaited(v@.take(i + 1)).remove(id@));
            }
        }
        i = i + 1;
    }
    proof {
        assert(v@.take(v@.len() as int) =~= v@);
    }
    r
}

// ---- the replay ----

/// A replay that has gone some way: the entries, and the calls whose results are
/// awaited.
#[verifier::ext_equal]
pub ghost struct Replay {
    pub entries: Seq<EntryV>,
    pub awaited: Map<Seq<char>, int>,
}

/// The reply that says nothing.
pub const NO_TEXT: &'static str = "Task completed (no text output).";

/// A block with what its subagent left.
pub open spec fn filled(b: BlockV, raw: Seq<char>, kids: Seq<ChildSession>) -> BlockV {
    let (sid, content) = subagent_reply(raw);
    let (lines, turns) = child_of(kids, sid);
    BlockV {
        sessionId: sid,
        toolLines: lines,
        turns: turns as usize,
        content: if content.len() > 0 && content != NO_TEXT@ {
            Some(content)
        } else {
            b.content
        },
        ..b
    }
}

/// The block of a task.
pub open spec fn task_block(t: Turn) -> BlockV {
    BlockV {
        agentType: field_or(t, "agent"@, "general"@),
        prompt: field_or(t, "prompt"@, ""@),
        toolLines: Seq::empty(),
        done: true,
        turns: 0,
        content: None,
        contentExpanded: false,
        sessionId: None,
    }
}

impl Replay {
    pub open spec fn with(self, e: EntryV) -> Replay {
        Replay { entries: self.entries.push(e), ..self }
    }

    /// The replay after one more turn. The result of a task goes into the block of
    /// the task.
    pub open spec fn step(self, t: Turn, kids: Seq<ChildSession>) -> Replay {
        match t.role {
            TurnRole::User => self.with(EntryV::User(user_text(t))),
            TurnRole::Wake => self.with(EntryV::SessionNotice(wake_notice(t.content@))),
            TurnRole::Assistant => {
                let r = match t.reasoning {
                    Some(s) => if s@.len() > 0 {
                        self.with(EntryV::Reasoning { text: s@, expanded: false })
                    } else {
                        self
                    },
                    None => self,
                };
                if t.content@.len() > 0 {
                    r.with(EntryV::Assistant(t.content@))
                } else {
                    r
                }
            },
            TurnRole::ToolCall => if tool_name(t.tool) == "task"@ {
                let r = self.with(EntryV::SubagentBlock(task_block(t)));
                match t.toolCallId {
                    Some(id) => Replay {
                        awaited: r.awaited.insert(id@, self.entries.len() as int),
                        ..r
                    },
                    None => r,
                }
            } else {
                self.with(
                    EntryV::ToolApproved(
                        tool_name(t.tool) + ": "@ + args_brief(compact_args(t)),
                    ),
                )
            },
            TurnRole::ToolResult => if t.toolCallId is Some && self.awaited.dom().contains(
                t.toolCallId->0@,
            ) {
                let i = self.awaited[t.toolCallId->0@];
                Replay {
                    entries: if 0 <= i < self.entries.len()
                        && self.entries[i] is SubagentBlock {
                        self.entries.update(
                            i,
                            EntryV::SubagentBlock(
                                filled(self.entries[i]->SubagentBlock_0, t.content@, kids),
                            ),
                        )
                    } else {
                        self.entries
                    },
                    awaited: self.awaited.remove(t.toolCallId->0@),
                }
            } else {
                self.with(
                    EntryV::ToolResult { name: tool_name(t.tool), output: t.content@ },
                )
            },
            TurnRole::System => self,
        }
    }
}

/// The replay of `turns` onto `entries`.
pub open spec fn replayed(
    entries: Seq<EntryV>,
    turns: Seq<Turn>,
    kids: Seq<ChildSession>,
) -> Replay
    decreases turns.len(),
{
    if turns.len() == 0 {
        Replay { entries, awaited: Map::empty() }
    } else {
        replayed(entries, turns.drop_last(), kids).step(turns.last(), kids)
    }
}

/// The result of a task arrived: fills in the block at `at`.
fn fillBlock(entries: &mut Vec<PanelEntry>, at: usize, raw: &str, kids: &Vec<ChildSession>)
    ensures
        entry_views(final(entries)@) == (if at < old(entries)@.len() && entry_views(
            old(entries)@,
        )[at as int] is SubagentBlock {
            entry_views(old(entries)@).update(
                at as int,
                EntryV::SubagentBlock(
                    filled(
                        entry_views(old(entries)@)[at as int]->SubagentBlock_0,
                        raw@,
                        kids@,
                    ),
                ),
            )
        } else {
            entry_views(old(entries)@)
        }),
{
    if at >= entries.len() {
        return;
    }
    let ghost e = entry_views(entries@);
    proof {
        assert(e[at as int] == entries@[at as int]@);
    }
    let (sid, reply) = subagentReply(raw);
    let (lines, n) = childOf(kids, &sid);
    match &mut entries[at] {
        PanelEntry::SubagentBlock { content, sessionId, toolLines, turns, .. } => {
            *sessionId = sid;
            *toolLines = lines;
            *turns = n;
            if reply.as_str().unicode_len() > 0 && !strEq(reply.as_str(), NO_TEXT) {
                *content = Some(reply);
            }
        },
        _ => {},
    }
    proof {
        assert(entry_views(entries@) =~= e.update(at as int, entries@[at as int]@));
    }
}

/// One more turn of a replay.
fn replayTurn(
    entries: &mut Vec<PanelEntry>,
    open: Vec<(String, usize)>,
    t: &Turn,
    kids: &Vec<ChildSession>,
) -> (r: Vec<(String, usize)>)
    ensures
        ({
            let before = Replay { entries: entry_views(old(entries)@), awaited: awaited(open@) };
            &&& entry_views(final(entries)@) == before.step(*t, kids@).entries
            &&& awaited(r@) == before.step(*t, kids@).awaited
        }),
{
    let mut open = open;
    match t.role {
        TurnRole::User => {
            addEntry(entries, PanelEntry::User(userText(t)));
        },
        TurnRole::Wake => {
            addEntry(
                entries,
                PanelEntry::SessionNotice(wakeNoticeFromContent(t.content.as_str())),
            );
        },
        TurnRole::Assistant => {
            match &t.reasoning {
                Some(s) => {
                    if s.as_str().unicode_len() > 0 {
                        addEntry(
                            entries,
                            PanelEntry::Reasoning { text: s.clone(), expanded: false },
                        );
                    }
                },
                None => {},
            }
            if t.content.as_str().unicode_len() > 0 {
                addEntry(entries, PanelEntry::Assistant(t.content.clone()));
            }
        },
        TurnRole::ToolCall => {
            let name = toolName(&t.tool);
            if strEq(name.as_str(), "task") {
                let at: usize = entries.len();
                let none: Vec<(String, String)> = Vec::new();
                let agentType = fieldOr(t, "agent", "general");
                let prompt = fieldOr(t, "prompt", "");
                proof {
                    assert(pair_views(none@) =~= Seq::<(Seq<char>, Seq<char>)>::empty());
                }
                addEntry(
                    entries,
                    PanelEntry::SubagentBlock {
                        agentType,
                        prompt,
                        toolLines: none,
                        done: true,
                        turns: 0,
                        content: None,
                        contentExpanded: false,
                        sessionId: None,
                    },
                );
                match &t.toolCallId {
                    Some(id) => {
                        let ghost old_open = open@;
                        open.push((id.clone(), at));
                        proof {
                            assert(open@.drop_last() =~= old_open);
                        }
                    },
                    None => {},
                }
            } else {
                let compacted = match &t.args {
                    Some(a) => compactJson(a.as_str()),
                    None => None,
                };
                let args = argsBrief(&compacted);
                addEntry(
                    entries,
                    PanelEntry::ToolApproved { name: cat3(name.as_str(), ": ", args.as_str()) },
                );
            }
        },
        TurnRole::ToolResult => {
            let at: Option<usize> = match &t.toolCallId {
                Some(id) => awaitedAt(&open, id.as_str()),
                None => None,
            };
            match (at, &t.toolCallId) {
                (Some(i), Some(id)) => {
                    open = without(open, id.as_str());
                    fillBlock(entries, i, t.content.as_str(), kids);
                },
                _ => {
                    addEntry(
                        entries,
                        PanelEntry::ToolResult {
                            name: toolName(&t.tool),
                            output: t.content.clone(),
                        },
                    );
                },
            }
        },
        TurnRole::System => {},
    }
    open
}

/// Replays recorded turns into the panel of a resumed session.
pub fn replayTranscript(panel: &mut AgentPanel, turns: &Vec<Turn>, kids: &Vec<ChildSession>)
    ensures
        final(panel)@ == (PanelV {
            entries: replayed(old(panel)@.entries, turns@, kids@).entries,
            ..old(panel)@
        }),
{
    let mut open: Vec<(String, usize)> = Vec::new();
    let mut i: usize = 0;
    let ghost e = panel@.entries;
    proof {
        assert(turns@.take(0) =~= Seq::<Turn>::empty());
    }
    while i < turns.len()
        invariant
            i <= turns@.len(),
            e == old(panel)@.entries,
            panel@ == (PanelV {
                entries: replayed(e, turns@.take(i as int), kids@).entries,
                ..old(panel)@
            }),
            awaited(open@) == replayed(e, turns@.take(i as int), kids@).awaited,
        decreases turns@.len() - i,
    {
        proof {
            assert(turns@.take(i + 1).drop_last() =~= turns@.take(i as int));
            assert(turns@.take(i + 1).last() == turns@[i as int]);
        }
        let ghost before = replayed(e, turns@.take(i as int), kids@);
        proof {
            assert(before =~= Replay {
                entries: entry_views(panel.entries@),
                awaited: awaited(open@),
            });
        }
        open = replayTurn(&mut panel.entries, open, &turns[i], kids);
        i = i + 1;
    }
    proof {
        assert(turns@.take(turns@.len() as int) =~= turns@);
    }
}

// ---- laws ----

/// A replay never shortens the conversation, and a turn that shows nothing but
/// itself adds one entry.
pub proof fn law_replay_only_adds(r: Replay, t: Turn, kids: Seq<ChildSession>)
    ensures
        r.step(t, kids).entries.len() >= r.entries.len(),
        t.role is User || t.role is Wake || t.role is ToolCall ==> r.step(t, kids).entries.len()
            == r.entries.len() + 1 && r.step(t, kids).entries.take(r.entries.len() as int)
            == r.entries,
        t.role is System ==> r.step(t, kids) == r,
{
    assert(r.step(t, kids).entries.take(r.entries.len() as int) =~= r.entries || !(t.role is User
        || t.role is Wake || t.role is ToolCall));
}

/// The result of a task is shown in its block and nowhere else; any other result is
/// an entry of its own.
pub proof fn law_task_results_fill_their_block(
    r: Replay,
    call: Turn,
    result: Turn,
    kids: Seq<ChildSession>,
)
    requires
        call.role is ToolCall,
        tool_name(call.tool) == "task"@,
        result.role is ToolResult,
        call.toolCallId is Some,
        result.toolCallId is Some,
        call.toolCallId->0@ == result.toolCallId->0@,
    ensures
        ({
            let after = r.step(call, kids).step(result, kids);
            &&& after.entries.len() == r.entries.len() + 1
            &&& after.entries.last() == EntryV::SubagentBlock(
                filled(task_block(call), result.content@, kids),
            )
            &&& !after.awaited.dom().contains(call.toolCallId->0@)
        }),
{
}

} // verus!
