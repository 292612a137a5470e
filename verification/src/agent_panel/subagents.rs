//! The subagents that are running, and which of them the popup shows.

use vstd::prelude::*;
use vstd::string::*;
use crate::agent_panel::entry::{EntryV, PanelEntry, addEntry, entry_views};
use crate::text::strEq;

verus! {

/// A running subagent. `startTime` is in milliseconds.
#[derive(Debug)]
pub struct ActiveSubagent {
    pub sessionId: String,
    pub agentType: String,
    pub startTime: u64,
    /// Transcript entries for the overlay panel.
    pub transcript: Vec<PanelEntry>,
}

/// A running subagent as a value.
pub ghost struct SubagentV {
    pub sessionId: Seq<char>,
    pub agentType: Seq<char>,
    pub startTime: u64,
    pub transcript: Seq<EntryV>,
}

impl View for ActiveSubagent {
    type V = SubagentV;

    open spec fn view(&self) -> SubagentV {
        SubagentV {
            sessionId: self.sessionId@,
            agentType: self.agentType@,
            startTime: self.startTime,
            transcript: entry_views(self.transcript@),
        }
    }
}

impl ActiveSubagent {
    pub fn new(sessionId: &str, agentType: &str, now: u64) -> (r: Self)
        ensures
            r@ == (SubagentV {
                sessionId: sessionId@,
                agentType: agentType@,
                startTime: now,
                transcript: Seq::empty(),
            }),
    {
        let r = ActiveSubagent {
            sessionId: String::from_str(sessionId),
            agentType: String::from_str(agentType),
            startTime: now,
            transcript: Vec::new(),
        };
        proof {
            assert(r@.transcript =~= Seq::empty());
        }
        r
    }
}

/// The running subagents of `v` as values.
pub open spec fn subagent_views(v: Seq<ActiveSubagent>) -> Seq<SubagentV> {
    Seq::new(v.len(), |i: int| v[i]@)
}

/// The running subagents, in the order in which they started, and the tab that
/// the popup shows.
pub struct Subagents {
    pub active: Vec<ActiveSubagent>,
    pub selected: Option<usize>,
}

/// The running subagents as a value.
pub ghost struct SubagentsV {
    pub active: Seq<SubagentV>,
    pub selected: Option<int>,
}

impl View for Subagents {
    type V = SubagentsV;

    open spec fn view(&self) -> SubagentsV {
        SubagentsV {
            active: subagent_views(self.active@),
            selected: match self.selected {
                Some(i) => Some(i as int),
                None => None,
            },
        }
    }
}

/// The place of the first subagent with the session `sid`, from `i` on.
pub open spec fn subagent_at(a: Seq<SubagentV>, sid: Seq<char>, i: int) -> Option<int>
    decreases a.len() - i,
{
    if i >= a.len() {
        None
    } else if a[i].sessionId == sid {
        Some(i)
    } else {
        subagent_at(a, sid, i + 1)
    }
}

impl SubagentsV {
    /// The tab that is shown is one of the running subagents.
    pub open spec fn wf(self) -> bool {
        self.selected matches Some(i) ==> 0 <= i < self.active.len()
    }

    /// The place of the subagent `sid`.
    pub open spec fn find(self, sid: Seq<char>) -> Option<int> {
        subagent_at(self.active, sid, 0)
    }

    /// A subagent started: it is the last, and its tab is shown.
    pub open spec fn started(self, sid: Seq<char>, kind: Seq<char>, now: u64) -> SubagentsV {
        SubagentsV {
            active: self.active.push(
                SubagentV {
                    sessionId: sid,
                    agentType: kind,
                    startTime: now,
                    transcript: Seq::empty(),
                },
            ),
            selected: Some(self.active.len() as int),
        }
    }

    /// A subagent ended: the tabs behind it move up, and where its own tab was
    /// shown the next one is, or the last.
    pub open spec fn ended(self, sid: Seq<char>) -> SubagentsV {
        match self.find(sid) {
            None => self,
            Some(k) => {
                let active = self.active.remove(k);
                SubagentsV {
                    active,
                    selected: match self.selected {
                        None => None,
                        Some(s) => if active.len() == 0 {
                            None
                        } else if s > k {
                            Some(s - 1)
                        } else if s == k && k >= active.len() {
                            Some(active.len() - 1)
                        } else {
                            Some(s)
                        },
                    },
                }
            },
        }
    }

    /// The tabs cycled by `delta`.
    pub open spec fn cycled(self, delta: int) -> SubagentsV {
        if self.active.len() == 0 {
            SubagentsV { selected: None, ..self }
        } else {
            let s = match self.selected {
                Some(i) => i,
                None => 0,
            };
            SubagentsV { selected: Some((s + delta) % (self.active.len() as int)), ..self }
        }
    }

    /// An entry was added to the transcript of `sid`.
    pub open spec fn noted(self, sid: Seq<char>, e: EntryV) -> SubagentsV {
        match self.find(sid) {
            None => self,
            Some(k) => SubagentsV {
                active: self.active.update(
                    k,
                    SubagentV { transcript: self.active[k].transcript.push(e), ..self.active[k] },
                ),
                ..self
            },
        }
    }

    /// Content of `sid` arrived: it continues an assistant message at the end of
    /// the transcript, or begins one.
    pub open spec fn said(self, sid: Seq<char>, text: Seq<char>) -> SubagentsV {
        match self.find(sid) {
            None => self,
            Some(k) => {
                let t = self.active[k].transcript;
                let u = if t.len() > 0 && t.last() is Assistant {
                    t.update(t.len() - 1, EntryV::Assistant(t.last()->Assistant_0 + text))
                } else {
                    t.push(EntryV::Assistant(text))
                };
                SubagentsV {
                    active: self.active.update(
                        k,
                        SubagentV { transcript: u, ..self.active[k] },
                    ),
                    ..self
                }
            },
        }
    }
}

pub proof fn lemma_find(a: Seq<SubagentV>, sid: Seq<char>, i: int)
    requires
        0 <= i,
    ensures
        subagent_at(a, sid, i) matches Some(k) ==> i <= k < a.len() && a[k].sessionId == sid
            && forall|j: int| i <= j < k ==> (#[trigger] a[j]).sessionId != sid,
        subagent_at(a, sid, i) is None ==> forall|j: int|
            i <= j < a.len() ==> (#[trigger] a[j]).sessionId != sid,
    decreases a.len() - i,
{
    if i < a.len() && a[i].sessionId != sid {
        lemma_find(a, sid, i + 1);
    }
}

impl Subagents {
    pub fn new() -> (r: Self)
        ensures
            r@ == (SubagentsV { active: Seq::empty(), selected: None }),
    {
        let r = Subagents { active: Vec::new(), selected: None };
        proof {
            assert(r@.active =~= Seq::empty());
        }
        r
    }

    /// The place of a subagent by session id.
    pub fn findSubagentIndex(&self, sessionId: &str) -> (r: Option<usize>)
        ensures
            match r {
                Some(i) => i < self.active@.len() && self@.find(sessionId@) == Some(i as int),
                None => self@.find(sessionId@) is None,
            },
    {
        let ghost a = self@.active;
        let mut i: usize = 0;
        while i < self.active.len()
            invariant
                i <= self.active.len(),
                a == self@.active,
                subagent_at(a, sessionId@, 0) == subagent_at(a, sessionId@, i as int),
            decreases self.active.len() - i,
        {
            proof {
                assert(a[i as int] == self.active@[i as int]@);
            }
            if strEq(self.active[i].sessionId.as_str(), sessionId) {
                return Some(i);
            }
            i = i + 1;
        }
        None
    }

    /// Registers a subagent and shows its tab.
    pub fn start(&mut self, sessionId: &str, agentType: &str, now: u64)
        ensures
            final(self)@ == old(self)@.started(sessionId@, agentType@, now),
            final(self)@.wf(),
    {
        let ghost before = self@.active;
        let n: usize = self.active.len();
        let sub = ActiveSubagent::new(sessionId, agentType, now);
        self.active.push(sub);
        self.selected = Some(n);
        proof {
            assert(self@.active =~= before.push(sub@));
        }
    }

    /// Removes a subagent. The popup shows another one, or none where it was
    /// the last.
    pub fn removeSubagent(&mut self, sessionId: &str)
        requires
            old(self)@.wf(),
        ensures
            final(self)@ == old(self)@.ended(sessionId@),
            final(self)@.wf(),
    {
        let ghost before = self@.active;
        match self.findSubagentIndex(sessionId) {
            None => {},
            Some(k) => {
                self.active.remove(k);
                proof {
                    assert(self@.active =~= before.remove(k as int));
                }
                let n: usize = self.active.len();
                self.selected = match self.selected {
                    None => None,
                    Some(s) => if n == 0 {
                        None
                    } else if s > k {
                        Some(s - 1)
                    } else if s == k && k >= n {
                        Some(n - 1)
                    } else {
                        Some(s)
                    },
                };
            },
        }
    }

    /// The subagent that the popup shows.
    pub fn currentSubagent(&self) -> (r: Option<&ActiveSubagent>)
        ensures
            match r {
                Some(a) => self@.selected is Some && self@.selected->0 < self@.active.len() && a@
                    == self@.active[self@.selected->0],
                None => self@.selected is None || self@.selected->0 >= self@.active.len(),
            },
    {
        match self.selected {
            Some(i) => if i < self.active.len() {
                proof {
                    assert(self@.active[i as int] == self.active@[i as int]@);
                }
                Some(&self.active[i])
            } else {
                None
            },
            None => None,
        }
    }

    /// Shows the tab of a subagent; an unknown one changes nothing.
    pub fn selectSubagentBySessionId(&mut self, sessionId: &str)
        ensures
            final(self)@ == (match old(self)@.find(sessionId@) {
                Some(k) => SubagentsV { selected: Some(k), ..old(self)@ },
                None => old(self)@,
            }),
            old(self)@.wf() ==> final(self)@.wf(),
    {
        match self.findSubagentIndex(sessionId) {
            Some(i) => {
                self.selected = Some(i);
            },
            None => {},
        }
    }

    /// Cycles the tabs by `delta`, around the ends.
    pub fn cycleSubagent(&mut self, delta: i32)
        requires
            old(self)@.wf(),
        ensures
            final(self)@ == old(self)@.cycled(delta as int),
            final(self)@.wf(),
    {
        let n: usize = self.active.len();
        if n == 0 {
            self.selected = None;
            return;
        }
        let cur: u128 = match self.selected {
            Some(i) => i as u128,
            None => 0,
        };
        let len: u128 = n as u128;
        let next: u128 = if delta >= 0 {
            (cur + delta as u128) % len
        } else {
            let back: u128 = (-(delta as i64)) as u128;
            (cur + (len - back % len)) % len
        };
        proof {
            let l = len as int;
            let c = cur as int;
            if delta < 0 {
                let b = -(delta as int);
                let r = b % l;
                let q = b / l;
                vstd::arithmetic::div_mod::lemma_fundamental_div_mod(b, l);
                vstd::arithmetic::div_mod::lemma_mod_multiples_vanish(-q, c - r, l);
                vstd::arithmetic::div_mod::lemma_mod_multiples_vanish(1, c - r, l);
                assert(l * (-q) + (c - r) == c + delta) by (nonlinear_arith)
                    requires
                        b == l * q + r,
                        delta == -b,
                ;
                assert(l * 1 + (c - r) == c + (l - r)) by (nonlinear_arith);
            }
        }
        self.selected = Some(next as usize);
    }

    /// Adds an entry to the transcript of a subagent.
    pub fn note(&mut self, sessionId: &str, e: PanelEntry)
        ensures
            final(self)@ == old(self)@.noted(sessionId@, e@),
    {
        let ghost before = self@.active;
        match self.findSubagentIndex(sessionId) {
            None => {},
            Some(k) => {
                proof {
                    assert(before[k as int] == self.active@[k as int]@);
                }
                addEntry(&mut self.active[k].transcript, e);
                proof {
                    assert(self@.active =~= old(self)@.noted(sessionId@, e@).active);
                }
            },
        }
    }

    /// Continues the message of a subagent.
    pub fn say(&mut self, sessionId: &str, text: &str)
        ensures
            final(self)@ == old(self)@.said(sessionId@, text@),
    {
        let ghost before = self@.active;
        match self.findSubagentIndex(sessionId) {
            None => {},
            Some(k) => {
                proof {
                    assert(before[k as int] == self.active@[k as int]@);
                }
                let n: usize = self.active[k].transcript.len();
                let ghost t = entry_views(self.active@[k as int].transcript@);
                let mut continued = false;
                if n > 0 {
                    proof {
                        assert(t.last() == self.active@[k as int].transcript@[n - 1]@);
                    }
                    match &mut self.active[k].transcript[n - 1] {
                        PanelEntry::Assistant(s) => {
                            s.append(text);
                            continued = true;
                        },
                        _ => {},
                    }
                }
                let ghost now = self.active@[k as int].transcript@;
                if continued {
                    proof {
                        assert(entry_views(self.active@[k as int].transcript@) =~= t.update(
                            n - 1,
                            EntryV::Assistant(t.last()->Assistant_0 + text@),
                        ));
                    }
                    proof {
                        assert(self@.active =~= old(self)@.said(sessionId@, text@).active);
                    }
                } else {
                    proof {
                        assert(entry_views(now) =~= t);
                        assert(!(t.len() > 0 && t.last() is Assistant));
                    }
                    addEntry(
                        &mut self.active[k].transcript,
                        PanelEntry::Assistant(String::from_str(text)),
                    );
                }
                proof {
                    assert(self@.active =~= old(self)@.said(sessionId@, text@).active);
                }
            },
        }
    }
}

// ---- laws ----

/// While a subagent's tab is shown, another one ending does not change which
/// subagent is shown.
pub proof fn law_ending_another_keeps_the_shown_tab(s: SubagentsV, sid: Seq<char>)
    requires
        s.wf(),
        s.selected is Some,
        s.find(sid) != s.selected,
    ensures
        s.ended(sid).selected is Some,
        s.ended(sid).active[s.ended(sid).selected->0] == s.active[s.selected->0],
{
    lemma_find(s.active, sid, 0);
}

/// A subagent that ended is gone, and no other is.
pub proof fn law_ended_subagent_is_gone(s: SubagentsV, sid: Seq<char>, k: int)
    requires
        s.find(sid) == Some(k),
    ensures
        s.ended(sid).active == s.active.remove(k),
        s.active[k].sessionId == sid,
{
    lemma_find(s.active, sid, 0);
}

} // verus!
