//! Export of a session transcript as training data.
//!
//! One example is made per stable-prefix segment. A segment is the run of
//! assistant turns whose request snapshots share the same system prompt and
//! tools and extend the messages of the first of them. A new segment starts
//! whenever any of those break.

use vstd::prelude::*;
use vstd::string::*;
use crate::text::{
    dec, decimal, lines_of, linesOf, opt_text, strEq, texts, trim, trimmed,
};
use crate::transcript::{Turn, TurnRole, TurnStatus};

pub mod laws;
pub mod openai;

verus! {

/// Resolved export arguments.
#[derive(Clone, Debug)]
pub struct ExportArgs {
    /// Single session to export. Mutually exclusive with `all`.
    pub sessionId: Option<String>,
    /// Export every session that has snapshots.
    pub all: bool,
    /// When `all` is set, only sessions of this project directory.
    pub project: Option<String>,
    pub output: Option<String>,
    pub noReasoning: bool,
    pub minMessages: usize,
    pub dryRun: bool,
    /// Keep cancelled assistant turns as training targets.
    pub includeCancelled: bool,
}

/// What an export goes over.
#[derive(Debug)]
pub enum ExportScope {
    All,
    One(String),
}

/// Decides what to export.
pub fn exportScope(args: &ExportArgs) -> (r: Result<ExportScope, String>)
    ensures
        match r {
            Ok(ExportScope::All) => args.all,
            Ok(ExportScope::One(s)) => !args.all && args.sessionId == Some(s),
            Err(e) => !args.all && args.sessionId is None && e@
                == "provide a sessionId or pass --all"@,
        },
{
    if args.all {
        return Ok(ExportScope::All);
    }
    match &args.sessionId {
        Some(s) => Ok(ExportScope::One(s.clone())),
        None => Err(String::from_str("provide a sessionId or pass --all")),
    }
}

/// The exit code of an export that emitted `count` examples.
#[verifier::allow_in_spec]
pub fn exitCode(count: usize) -> i32
    returns
        (if count == 0 {
            2i32
        } else {
            0i32
        }),
{
    if count == 0 {
        2
    } else {
        0
    }
}

// ---- snapshots ----

/// The request that produced an assistant turn. `messages` holds the hashes of
/// the messages that were sent.
#[derive(Clone, Debug)]
pub struct RequestSnapshot {
    pub model: String,
    pub systemPromptHash: Option<String>,
    pub toolsHash: Option<String>,
    pub messages: Vec<String>,
}

/// A snapshot as a value.
pub ghost struct SnapshotV {
    pub model: Seq<char>,
    pub system: Option<Seq<char>>,
    pub tools: Option<Seq<char>>,
    pub messages: Seq<Seq<char>>,
}

impl View for RequestSnapshot {
    type V = SnapshotV;

    open spec fn view(&self) -> SnapshotV {
        SnapshotV {
            model: self.model@,
            system: opt_text(self.systemPromptHash),
            tools: opt_text(self.toolsHash),
            messages: texts(self.messages@),
        }
    }
}

fn copyOption(o: &Option<String>) -> (r: Option<String>)
    ensures
        r == *o,
{
    match o {
        Some(s) => Some(s.clone()),
        None => None,
    }
}

fn sameOption(a: &Option<String>, b: &Option<String>) -> (r: bool)
    ensures
        r == (opt_text(*a) == opt_text(*b)),
{
    match (a, b) {
        (Some(x), Some(y)) => strEq(x.as_str(), y.as_str()),
        (None, None) => true,
        _ => false,
    }
}

/// The same strings.
pub fn copyStrings(v: &Vec<String>) -> (r: Vec<String>)
    ensures
        r@ == v@,
{
    let mut out: Vec<String> = Vec::new();
    let mut i: usize = 0;
    while i < v.len()
        invariant
            i <= v.len(),
            out@ == v@.take(i as int),
        decreases v.len() - i,
    {
        out.push(v[i].clone());
        i = i + 1;
        proof {
            assert(out@ =~= v@.take(i as int));
        }
    }
    proof {
        assert(out@ =~= v@);
    }
    out
}

impl RequestSnapshot {
    fn copy(&self) -> (r: RequestSnapshot)
        ensures
            r@ == self@,
    {
        RequestSnapshot {
            model: self.model.clone(),
            systemPromptHash: copyOption(&self.systemPromptHash),
            toolsHash: copyOption(&self.toolsHash),
            messages: copyStrings(&self.messages),
        }
    }
}

/// The snapshots of a session by their hash. Of two entries with one hash the
/// later stands.
pub struct SnapshotIndex {
    pub entries: Vec<(String, RequestSnapshot)>,
}

/// The entries as a map from hash to snapshot.
pub open spec fn entry_map(e: Seq<(String, RequestSnapshot)>) -> Map<Seq<char>, SnapshotV>
    decreases e.len(),
{
    if e.len() == 0 {
        Map::empty()
    } else {
        entry_map(e.drop_last()).insert(e.last().0@, e.last().1@)
    }
}

impl View for SnapshotIndex {
    type V = Map<Seq<char>, SnapshotV>;

    open spec fn view(&self) -> Map<Seq<char>, SnapshotV> {
        entry_map(self.entries@)
    }
}

impl SnapshotIndex {
    pub fn new() -> (r: Self)
        ensures
            r@ == Map::<Seq<char>, SnapshotV>::empty(),
    {
        SnapshotIndex { entries: Vec::new() }
    }

    /// Adds a snapshot.
    pub fn insert(&mut self, hash: String, snapshot: RequestSnapshot)
        ensures
            final(self)@ == old(self)@.insert(hash@, snapshot@),
    {
        let ghost before = self.entries@;
        self.entries.push((hash, snapshot));
        proof {
            assert(self.entries@.drop_last() =~= before);
        }
    }

    /// The snapshot with the given hash.
    pub fn get(&self, hash: &str) -> (r: Option<&RequestSnapshot>)
        ensures
            match r {
                Some(s) => self@.dom().contains(hash@) && self@[hash@] == s@,
                None => !self@.dom().contains(hash@),
            },
    {
        let mut i: usize = self.entries.len();
        proof {
            assert(self.entries@.take(self.entries@.len() as int) =~= self.entries@);
        }
        while i > 0
            invariant
                i <= self.entries.len(),
                self@.dom().contains(hash@) == entry_map(self.entries@.take(i as int)).dom().contains(
                    hash@,
                ),
                self@.dom().contains(hash@) ==> self@[hash@] == entry_map(
                    self.entries@.take(i as int),
                )[hash@],
            decreases i,
        {
            let ghost t = self.entries@.take(i as int);
            proof {
                assert(t.drop_last() =~= self.entries@.take(i - 1));
                assert(t.last() == self.entries@[i - 1]);
            }
            if strEq(self.entries[i - 1].0.as_str(), hash) {
                return Some(&self.entries[i - 1].1);
            }
            i = i - 1;
        }
        proof {
            assert(self.entries@.take(0).len() == 0);
        }
        None
    }
}

/// The lines of an index of snapshots that hold an entry: those that are not blank.
pub open spec fn entry_lines(lines: Seq<Seq<char>>) -> Seq<Seq<char>> {
    lines.filter(|l: Seq<char>| trimmed(l).len() > 0)
}

/// The lines of the index `content` that hold an entry, in order.
pub fn indexLines(content: &str) -> (r: Vec<String>)
    ensures
        texts(r@) == entry_lines(lines_of(content@)),
{
    let lines = linesOf(content);
    let ghost all = texts(lines@);
    let mut out: Vec<String> = Vec::new();
    let mut i: usize = 0;
    proof {
        reveal(Seq::filter);
        assert(texts(out@) =~= entry_lines(all.take(0)));
    }
    while i < lines.len()
        invariant
            i <= lines.len(),
            all == texts(lines@),
            texts(out@) == entry_lines(all.take(i as int)),
        decreases lines.len() - i,
    {
        let t = trim(lines[i].as_str());
        let ghost before = out@;
        proof {
            reveal(Seq::filter);
            assert(all.take(i + 1).drop_last() =~= all.take(i as int));
        }
        if t.as_str().unicode_len() > 0 {
            out.push(lines[i].clone());
            proof {
                assert(texts(out@) =~= texts(before).push(all[i as int]));
            }
        }
        i = i + 1;
    }
    proof {
        assert(all.take(i as int) =~= all);
    }
    out
}

// ---- segments ----

/// A run of assistant turns that share an anchor snapshot.
pub struct Segment {
    /// Index of the first assistant turn (the anchor).
    pub anchorIdx: usize,
    /// Index of the last assistant turn of the segment.
    pub lastAsstIdx: usize,
    /// The anchor's snapshot.
    pub anchor: RequestSnapshot,
    /// The last assistant turn's snapshot.
    pub last: RequestSnapshot,
}

/// A segment as a value.
pub ghost struct SegmentV {
    pub anchorIdx: int,
    pub lastAsstIdx: int,
    pub anchor: SnapshotV,
    pub last: SnapshotV,
}

impl View for Segment {
    type V = SegmentV;

    open spec fn view(&self) -> SegmentV {
        SegmentV {
            anchorIdx: self.anchorIdx as int,
            lastAsstIdx: self.lastAsstIdx as int,
            anchor: self.anchor@,
            last: self.last@,
        }
    }
}

/// The segments of `v` as values.
pub open spec fn segment_views(v: Seq<Segment>) -> Seq<SegmentV> {
    Seq::new(v.len(), |i: int| v[i]@)
}

/// Whether a turn can be a training target: an assistant turn with a known
/// snapshot, completed unless cancelled turns are wanted too.
pub open spec fn usable(t: Turn, index: Map<Seq<char>, SnapshotV>, includeCancelled: bool) -> bool {
    &&& t.role is Assistant
    &&& t.snapshotHash is Some
    &&& includeCancelled || t.status is Completed
    &&& index.dom().contains(t.snapshotHash->0@)
}

/// Whether a request with the snapshot `s` extends one with the snapshot `anchor`.
pub open spec fn extends(anchor: SnapshotV, s: SnapshotV) -> bool {
    &&& anchor.system == s.system
    &&& anchor.tools == s.tools
    &&& anchor.messages.len() <= s.messages.len()
    &&& s.messages.take(anchor.messages.len() as int) == anchor.messages
}

/// The segments of the first `n` turns of a branch.
pub open spec fn segments_of(
    branch: Seq<Turn>,
    index: Map<Seq<char>, SnapshotV>,
    includeCancelled: bool,
    n: int,
) -> Seq<SegmentV>
    decreases n,
{
    if n <= 0 {
        Seq::empty()
    } else {
        let r = segments_of(branch, index, includeCancelled, n - 1);
        let t = branch[n - 1];
        if !usable(t, index, includeCancelled) {
            r
        } else {
            let s = index[t.snapshotHash->0@];
            if r.len() > 0 && extends(r.last().anchor, s) {
                r.drop_last().push(SegmentV { lastAsstIdx: n - 1, last: s, ..r.last() })
            } else {
                r.push(SegmentV { anchorIdx: n - 1, lastAsstIdx: n - 1, anchor: s, last: s })
            }
        }
    }
}

fn startsWithAll(v: &Vec<String>, p: &Vec<String>) -> (r: bool)
    ensures
        r == (p@.len() <= v@.len() && texts(v@).take(p@.len() as int) == texts(p@)),
{
    if p.len() > v.len() {
        return false;
    }
    let mut i: usize = 0;
    while i < p.len()
        invariant
            i <= p.len() <= v.len(),
            forall|j: int| 0 <= j < i ==> texts(v@)[j] == texts(p@)[j],
        decreases p.len() - i,
    {
        if !strEq(v[i].as_str(), p[i].as_str()) {
            proof {
                assert(texts(v@).take(p@.len() as int)[i as int] != texts(p@)[i as int]);
            }
            return false;
        }
        i = i + 1;
    }
    proof {
        assert(texts(v@).take(p@.len() as int) =~= texts(p@));
    }
    true
}

fn extendsAnchor(anchor: &RequestSnapshot, s: &RequestSnapshot) -> (r: bool)
    ensures
        r == extends(anchor@, s@),
{
    sameOption(&anchor.systemPromptHash, &s.systemPromptHash) && sameOption(
        &anchor.toolsHash,
        &s.toolsHash,
    ) && startsWithAll(&s.messages, &anchor.messages)
}

/// Partitions the branch into stable-prefix segments.
///
/// When `includeCancelled` is false, assistant turns that were not completed
/// are left out: their content is partial and no training target. They still
/// exist in the history that later snapshots refer to.
pub fn buildSegments(
    branch: &Vec<Turn>,
    index: &SnapshotIndex,
    includeCancelled: bool,
) -> (r: Vec<Segment>)
    ensures
        segment_views(r@) == segments_of(
            branch@,
            index@,
            includeCancelled,
            branch@.len() as int,
        ),
{
    let mut segs: Vec<Segment> = Vec::new();
    let mut i: usize = 0;
    proof {
        assert(segment_views(segs@) =~= segments_of(branch@, index@, includeCancelled, 0));
    }
    while i < branch.len()
        invariant
            i <= branch.len(),
            segment_views(segs@) == segments_of(branch@, index@, includeCancelled, i as int),
        decreases branch.len() - i,
    {
        let t = &branch[i];
        let ghost before = segment_views(segs@);
        let wanted = t.role == TurnRole::Assistant && (includeCancelled || t.status
            == TurnStatus::Completed);
        if wanted {
            match &t.snapshotHash {
                Some(h) => {
                    match index.get(h.as_str()) {
                        Some(s) => {
                            let n: usize = segs.len();
                            if n > 0 && extendsAnchor(&segs[n - 1].anchor, s) {
                                let mut cur = segs.pop().unwrap();
                                cur.lastAsstIdx = i;
                                cur.last = s.copy();
                                segs.push(cur);
                                proof {
                                    assert(segment_views(segs@) =~= before.drop_last().push(cur@));
                                }
                            } else {
                                let fresh = Segment {
                                    anchorIdx: i,
                                    lastAsstIdx: i,
                                    anchor: s.copy(),
                                    last: s.copy(),
                                };
                                segs.push(fresh);
                                proof {
                                    assert(segment_views(segs@) =~= before.push(fresh@));
                                }
                            }
                        },
                        None => {},
                    }
                },
                None => {},
            }
        }
        i = i + 1;
    }
    segs
}

// ---- going over sessions ----

/// What to do with a session directory.
#[derive(Clone, Copy, Debug, PartialEq, Eq, Structural)]
pub enum SessionVerdict {
    /// It holds no snapshots.
    NoSnapshots,
    /// A filter is set and its metadata cannot be read.
    Unreadable,
    /// It belongs to another project.
    Filtered,
    /// Export it.
    Export,
}

/// Judges a session directory. `projectDir` is what its metadata says, if it
/// could be read; it matters only where a filter is set.
pub fn judgeSession(
    hasSnapshots: bool,
    filter: &Option<String>,
    projectDir: &Option<String>,
) -> (r: SessionVerdict)
    ensures
        r == (if !hasSnapshots {
            SessionVerdict::NoSnapshots
        } else if filter is None {
            SessionVerdict::Export
        } else if projectDir is None {
            SessionVerdict::Unreadable
        } else if opt_text(*filter) == opt_text(*projectDir) {
            SessionVerdict::Export
        } else {
            SessionVerdict::Filtered
        }),
{
    if !hasSnapshots {
        return SessionVerdict::NoSnapshots;
    }
    match filter {
        None => SessionVerdict::Export,
        Some(f) => match projectDir {
            None => SessionVerdict::Unreadable,
            Some(d) => if strEq(f.as_str(), d.as_str()) {
                SessionVerdict::Export
            } else {
                SessionVerdict::Filtered
            },
        },
    }
}

/// How many sessions went which way.
#[derive(Clone, Copy, Debug, PartialEq, Eq, Structural)]
pub struct Tally {
    pub sessions: u64,
    pub withoutSnapshots: u64,
    pub filtered: u64,
    pub failed: u64,
}

impl Tally {
    /// Nothing counted yet.
    #[verifier::allow_in_spec]
    pub fn zero() -> Tally
        returns
            (Tally { sessions: 0, withoutSnapshots: 0, filtered: 0, failed: 0 }),
    {
        Tally { sessions: 0, withoutSnapshots: 0, filtered: 0, failed: 0 }
    }

    /// Fewer sessions were counted than a counter can hold.
    pub open spec fn room(self) -> bool {
        self.sessions < u64::MAX && self.withoutSnapshots < u64::MAX && self.filtered < u64::MAX
            && self.failed < u64::MAX
    }

    /// Counts a judged session; `failed` says that its export failed.
    pub fn count(&mut self, verdict: SessionVerdict, failed: bool)
        requires
            old(self).room(),
        ensures
            *final(self) == (match verdict {
                SessionVerdict::NoSnapshots => Tally {
                    withoutSnapshots: (old(self).withoutSnapshots + 1) as u64,
                    ..*old(self)
                },
                SessionVerdict::Unreadable => *old(self),
                SessionVerdict::Filtered => Tally {
                    filtered: (old(self).filtered + 1) as u64,
                    ..*old(self)
                },
                SessionVerdict::Export => Tally {
                    sessions: (old(self).sessions + 1) as u64,
                    failed: if failed {
                        (old(self).failed + 1) as u64
                    } else {
                        old(self).failed
                    },
                    ..*old(self)
                },
            }),
    {
        match verdict {
            SessionVerdict::NoSnapshots => {
                self.withoutSnapshots = self.withoutSnapshots + 1;
            },
            SessionVerdict::Unreadable => {},
            SessionVerdict::Filtered => {
                self.filtered = self.filtered + 1;
            },
            SessionVerdict::Export => {
                self.sessions = self.sessions + 1;
                if failed {
                    self.failed = self.failed + 1;
                }
            },
        }
    }

    /// The closing line of an export of all sessions.
    pub fn summary(&self) -> (r: String)
        ensures
            r@ == "sessions processed: "@ + dec(self.sessions as nat) + " | no-snapshots skipped: "@
                + dec(self.withoutSnapshots as nat) + " | project-filtered: "@ + dec(
                self.filtered as nat,
            ) + " | failed: "@ + dec(self.failed as nat),
    {
        let mut s = String::from_str("sessions processed: ");
        s.append(decimal(self.sessions).as_str());
        s.append(" | no-snapshots skipped: ");
        s.append(decimal(self.withoutSnapshots).as_str());
        s.append(" | project-filtered: ");
        s.append(decimal(self.filtered).as_str());
        s.append(" | failed: ");
        s.append(decimal(self.failed).as_str());
        s
    }
}

/// Stats for a single session's export.
#[derive(Clone, Copy, Debug, PartialEq, Eq, Structural)]
pub struct SessionStats {
    pub asstTurns: usize,
    pub emitted: usize,
    pub skipped: usize,
}

/// How many of the first `n` turns are assistant turns.
pub open spec fn assistant_turns(branch: Seq<Turn>, n: int) -> int
    decreases n,
{
    if n <= 0 {
        0
    } else {
        assistant_turns(branch, n - 1) + (if branch[n - 1].role is Assistant {
            1int
        } else {
            0
        })
    }
}

/// The stats of an export that emitted `emitted` and skipped `skipped` examples.
pub fn sessionStats(branch: &Vec<Turn>, emitted: usize, skipped: usize) -> (r: SessionStats)
    ensures
        r.asstTurns == assistant_turns(branch@, branch@.len() as int),
        r.emitted == emitted,
        r.skipped == skipped,
{
    let mut n: usize = 0;
    let mut i: usize = 0;
    while i < branch.len()
        invariant
            i <= branch.len(),
            n == assistant_turns(branch@, i as int),
            n <= i,
        decreases branch.len() - i,
    {
        if branch[i].role == TurnRole::Assistant {
            n = n + 1;
        }
        i = i + 1;
    }
    SessionStats { asstTurns: n, emitted, skipped }
}

/// The report line of a session.
pub fn sessionLine(sessionId: &str, stats: SessionStats) -> (r: String)
    ensures
        r@ == sessionId@ + ": "@ + dec(stats.asstTurns as nat) + " asst turns \u{2192} "@ + dec(
            stats.emitted as nat,
        ) + " examples ("@ + dec(stats.skipped as nat) + " skipped)"@,
{
    let mut s = String::from_str(sessionId);
    s.append(": ");
    s.append(decimal(stats.asstTurns as u64).as_str());
    s.append(" asst turns \u{2192} ");
    s.append(decimal(stats.emitted as u64).as_str());
    s.append(" examples (");
    s.append(decimal(stats.skipped as u64).as_str());
    s.append(" skipped)");
    s
}

/// The turn at which a session's branch ends: the recorded head, else the last
/// turn. A session without turns has none.
pub fn headTurnId(recorded: &Option<String>, turns: &Vec<Turn>) -> (r: Option<String>)
    ensures
        r == (if recorded is Some {
            *recorded
        } else if turns@.len() > 0 {
            Some(turns@.last().id)
        } else {
            None
        }),
{
    match recorded {
        Some(h) => Some(h.clone()),
        None => if turns.len() > 0 {
            Some(turns[turns.len() - 1].id.clone())
        } else {
            None
        },
    }
}

// ---- laws ----

/// Segments lie one after another in the branch, each from its anchor to its
/// last turn, and both of these are usable turns whose snapshots it carries.
pub proof fn law_segments_are_ordered(
    branch: Seq<Turn>,
    index: Map<Seq<char>, SnapshotV>,
    includeCancelled: bool,
    n: int,
)
    requires
        0 <= n <= branch.len(),
    ensures
        ({
            let r = segments_of(branch, index, includeCancelled, n);
            &&& forall|k: int|
                #![trigger r[k]]
                0 <= k < r.len() ==> 0 <= r[k].anchorIdx <= r[k].lastAsstIdx < n && usable(
                    branch[r[k].anchorIdx],
                    index,
                    includeCancelled,
                ) && usable(branch[r[k].lastAsstIdx], index, includeCancelled) && r[k].anchor
                    == index[branch[r[k].anchorIdx].snapshotHash->0@] && r[k].last
                    == index[branch[r[k].lastAsstIdx].snapshotHash->0@]
            &&& forall|a: int, b: int|
                #![trigger r[a], r[b]]
                0 <= a < b < r.len() ==> r[a].lastAsstIdx < r[b].anchorIdx
        }),
    decreases n,
{
    if n > 0 {
        law_segments_are_ordered(branch, index, includeCancelled, n - 1);
    }
}

/// Every usable turn lies in a segment, and its request extends that of the
/// segment's anchor: same system prompt, same tools, and the anchor's messages
/// first.
pub proof fn law_every_usable_turn_is_in_a_segment(
    branch: Seq<Turn>,
    index: Map<Seq<char>, SnapshotV>,
    includeCancelled: bool,
    n: int,
    i: int,
)
    requires
        0 <= i < n <= branch.len(),
        usable(branch[i], index, includeCancelled),
    ensures
        ({
            let r = segments_of(branch, index, includeCancelled, n);
            exists|k: int|
                #![trigger r[k]]
                0 <= k < r.len() && r[k].anchorIdx <= i <= r[k].lastAsstIdx && extends(
                    r[k].anchor,
                    index[branch[i].snapshotHash->0@],
                )
        }),
    decreases n,
{
    let r = segments_of(branch, index, includeCancelled, n);
    let q = segments_of(branch, index, includeCancelled, n - 1);
    law_segments_are_ordered(branch, index, includeCancelled, n - 1);
    if i == n - 1 {
        let s = index[branch[i].snapshotHash->0@];
        assert(s.messages.take(s.messages.len() as int) =~= s.messages);
        assert(r[r.len() - 1].anchorIdx <= i <= r[r.len() - 1].lastAsstIdx);
        assert(extends(r[r.len() - 1].anchor, s));
    } else {
        law_every_usable_turn_is_in_a_segment(branch, index, includeCancelled, n - 1, i);
        let k = choose|k: int|
            #![trigger q[k]]
            0 <= k < q.len() && q[k].anchorIdx <= i <= q[k].lastAsstIdx && extends(
                q[k].anchor,
                index[branch[i].snapshotHash->0@],
            );
        assert(r.len() >= q.len());
        assert(q[k].lastAsstIdx < n - 1);
        assert(r[k].anchorIdx <= i <= r[k].lastAsstIdx);
        assert(r[k].anchor == q[k].anchor);
    }
}

/// A new segment starts only where the anchor of the one before is not extended.
pub proof fn law_new_segment_only_on_a_break(
    branch: Seq<Turn>,
    index: Map<Seq<char>, SnapshotV>,
    includeCancelled: bool,
    n: int,
)
    requires
        0 <= n <= branch.len(),
    ensures
        ({
            let r = segments_of(branch, index, includeCancelled, n);
            forall|k: int|
                #![trigger r[k]]
                0 < k < r.len() ==> !extends(r[k - 1].anchor, r[k].anchor)
        }),
    decreases n,
{
    if n > 0 {
        law_new_segment_only_on_a_break(branch, index, includeCancelled, n - 1);
        let r = segments_of(branch, index, includeCancelled, n);
        let q = segments_of(branch, index, includeCancelled, n - 1);
        assert forall|k: int| #![trigger r[k]] 0 < k < r.len() implies !extends(
            r[k - 1].anchor,
            r[k].anchor,
        ) by {
            if k < q.len() {
                assert(r[k].anchor == q[k].anchor);
                assert(r[k - 1].anchor == q[k - 1].anchor);
            } else {
                assert(r[k - 1] == q[k - 1]);
            }
        }
    }
}

} // verus!
