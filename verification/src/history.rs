//! Input history with cursor-based navigation.
//!
//! Stores submitted messages and supports up/down navigation with draft
//! preservation. The caller keeps the file that the entries are saved in.

use vstd::prelude::*;
use vstd::string::*;
use crate::draw::minus;
use crate::text::{opt_text, strEq, texts};

verus! {

/// How many entries are kept.
pub const MAX_ENTRIES: usize = 500;

/// Input history.
pub struct History {
    pub entries: Vec<String>,
    /// Index into entries during navigation. `None` when not navigating.
    pub cursor: Option<usize>,
    /// The text that was in the textarea before navigating.
    pub draft: String,
}

/// A history as a value.
pub ghost struct HistoryV {
    pub entries: Seq<Seq<char>>,
    pub cursor: Option<int>,
    pub draft: Seq<char>,
}

impl View for History {
    type V = HistoryV;

    open spec fn view(&self) -> HistoryV {
        HistoryV {
            entries: texts(self.entries@),
            cursor: match self.cursor {
                Some(i) => Some(i as int),
                None => None,
            },
            draft: self.draft@,
        }
    }
}

impl HistoryV {
    /// The cursor points at an entry.
    pub open spec fn wf(self) -> bool {
        self.cursor matches Some(i) ==> 0 <= i < self.entries.len()
    }

    /// Whether recording `text` changes the entries.
    pub open spec fn records(self, text: Seq<char>) -> bool {
        text.len() > 0 && !(self.entries.len() > 0 && self.entries.last() == text)
    }

    /// The history after `text` was submitted: empty texts are ignored, a
    /// repetition of the last entry is not recorded again, and only the latest
    /// entries are kept.
    pub open spec fn pushed(self, text: Seq<char>) -> HistoryV {
        if text.len() == 0 {
            self
        } else if !self.records(text) {
            HistoryV { cursor: None, ..self }
        } else {
            let all = self.entries.push(text);
            HistoryV {
                entries: all.skip(minus(all.len() as int, MAX_ENTRIES as int)),
                cursor: None,
                ..self
            }
        }
    }

    /// The history after a step to the older entry, with `text` in the textarea.
    pub open spec fn up(self, text: Seq<char>) -> HistoryV {
        if self.entries.len() == 0 {
            self
        } else {
            match self.cursor {
                None => HistoryV {
                    draft: text,
                    cursor: Some(self.entries.len() - 1),
                    ..self
                },
                Some(i) => if i == 0 {
                    self
                } else {
                    HistoryV { cursor: Some(i - 1), ..self }
                },
            }
        }
    }

    /// What a step to the older entry shows; nothing at the oldest entry.
    pub open spec fn shown_up(self, text: Seq<char>) -> Option<Seq<char>> {
        if self.entries.len() == 0 || self.cursor == Some(0int) {
            None
        } else {
            Some(self.entries[self.up(text).cursor->0])
        }
    }

    /// The history after a step to the newer entry.
    pub open spec fn down(self) -> HistoryV {
        match self.cursor {
            None => self,
            Some(i) => if i + 1 >= self.entries.len() {
                HistoryV { cursor: None, ..self }
            } else {
                HistoryV { cursor: Some(i + 1), ..self }
            },
        }
    }

    /// What a step to the newer entry shows: the entry, or the draft after the
    /// newest one; nothing when not navigating.
    pub open spec fn shown_down(self) -> Option<Seq<char>> {
        match self.cursor {
            None => None,
            Some(i) => if i + 1 >= self.entries.len() {
                Some(self.draft)
            } else {
                Some(self.entries[i + 1])
            },
        }
    }
}

// ---- the file ----

/// The strings of the JSON array `s`, as `serde_json` reads it; none where `s` is no
/// such array.
pub uninterp spec fn json_strings(s: Seq<char>) -> Option<Seq<Seq<char>>>;

/// The JSON array of the strings `v`, as `serde_json` writes it.
pub uninterp spec fn strings_json(v: Seq<Seq<char>>) -> Seq<char>;

/// The texts of an optional list.
pub open spec fn opt_texts(o: Option<Vec<String>>) -> Option<Seq<Seq<char>>> {
    match o {
        Some(v) => Some(texts(v@)),
        None => None,
    }
}

/// Reads the text with `serde_json::from_str` as a list of strings. The outcome
/// depends on the text alone.
#[verifier::external_body]
fn parseStrings(s: &str) -> (r: Option<Vec<String>>)
    ensures
        opt_texts(r) == json_strings(s@),
{
    serde_json::from_str::<Vec<String>>(s).ok()
}

/// Writes the list with `serde_json::to_string`, which fails only on a map or where a
/// type's own `Serialize` does: never on a list of strings. The text depends on the
/// strings alone, and reading it gives them back.
#[verifier::external_body]
fn writeStrings(v: &Vec<String>) -> (r: Option<String>)
    ensures
        opt_text(r) == Some(strings_json(texts(v@))),
        r matches Some(t) ==> json_strings(t@) == Some(texts(v@)),
{
    serde_json::to_string(v).ok()
}

/// A history of the entries that were read, not navigating. It is empty where none
/// could be read.
pub open spec fn starting(entries: Option<Seq<Seq<char>>>) -> HistoryV {
    HistoryV {
        entries: match entries {
            Some(e) => e,
            None => Seq::empty(),
        },
        cursor: None,
        draft: Seq::empty(),
    }
}

/// The history that is kept in a file with the content `text`.
pub open spec fn loaded(text: Option<Seq<char>>) -> HistoryV {
    starting(
        match text {
            Some(t) => json_strings(t),
            None => None,
        },
    )
}

impl History {
    /// The history of the entries that were read, empty where none could be.
    pub fn starting(entries: Option<Vec<String>>) -> (r: Self)
        ensures
            r@ == starting(opt_texts(entries)),
            r@.wf(),
    {
        let r = match entries {
            Some(e) => History::new(e),
            None => History::new(Vec::new()),
        };
        proof {
            assert(r@.entries =~= starting(opt_texts(entries)).entries);
        }
        r
    }

    /// The history that is kept in a file with the content `text`. It is empty where
    /// there is no such file, or it holds something else.
    pub fn load(text: Option<&str>) -> (r: Self)
        ensures
            r@ == loaded(
                match text {
                    Some(t) => Some(t@),
                    None => None,
                },
            ),
            r@.wf(),
    {
        match text {
            Some(t) => History::starting(parseStrings(t)),
            None => History::starting(None),
        }
    }

    /// What the file of the history holds. Loading it gives the entries back.
    pub fn saved(&self) -> (r: Option<String>)
        ensures
            opt_text(r) == Some(strings_json(self@.entries)),
            r matches Some(t) ==> loaded(Some(t@)) == (HistoryV {
                entries: self@.entries,
                cursor: None,
                draft: Seq::empty(),
            }),
    {
        writeStrings(&self.entries)
    }

    /// A history of the given entries, not navigating.
    pub fn new(entries: Vec<String>) -> (r: Self)
        ensures
            r.entries == entries,
            r@ == (HistoryV { entries: texts(entries@), cursor: None, draft: Seq::empty() }),
            r@.wf(),
    {
        History { entries, cursor: None, draft: String::new() }
    }

    /// Records a submitted message, unless it repeats the last one. Returns
    /// whether the entries changed and have to be persisted.
    pub fn push(&mut self, text: &str) -> (r: bool)
        requires
            old(self).entries@.len() < usize::MAX,
        ensures
            final(self)@ == old(self)@.pushed(text@),
            r == old(self)@.records(text@),
            old(self)@.wf() ==> final(self)@.wf(),
            r ==> final(self).entries@.len() <= MAX_ENTRIES,
    {
        if text.unicode_len() == 0 {
            return false;
        }
        let ghost before = self@.entries;
        if self.entries.len() > 0 {
            let n: usize = self.entries.len() - 1;
            proof {
                assert(before.last() == self.entries@[n as int]@);
            }
            if strEq(self.entries[n].as_str(), text) {
                self.cursor = None;
                return false;
            }
        }
        self.entries.push(String::from_str(text));
        proof {
            assert(texts(self.entries@) =~= before.push(text@));
        }
        if self.entries.len() > MAX_ENTRIES {
            let excess: usize = self.entries.len() - MAX_ENTRIES;
            let ghost all = self.entries@;
            let tail = self.entries.split_off(excess);
            self.entries = tail;
            proof {
                assert(texts(self.entries@) =~= texts(all).skip(excess as int));
            }
        } else {
            proof {
                assert(texts(self.entries@).skip(0) =~= texts(self.entries@));
            }
        }
        self.cursor = None;
        true
    }

    /// Navigates to the previous (older) entry. `currentText` is the textarea's
    /// content, which becomes the draft when navigation begins. Returns the entry
    /// to display, or `None` at the beginning.
    pub fn navigateUp(&mut self, currentText: &str) -> (r: Option<&str>)
        requires
            old(self)@.wf(),
        ensures
            final(self)@ == old(self)@.up(currentText@),
            final(self)@.wf(),
            match r {
                Some(s) => old(self)@.shown_up(currentText@) == Some(s@),
                None => old(self)@.shown_up(currentText@) is None,
            },
    {
        if self.entries.len() == 0 {
            return None;
        }
        let idx: usize = match self.cursor {
            None => {
                self.draft = String::from_str(currentText);
                self.entries.len() - 1
            },
            Some(i) => {
                if i == 0 {
                    return None;
                }
                i - 1
            },
        };
        self.cursor = Some(idx);
        Some(self.entries[idx].as_str())
    }

    /// Navigates to the next (newer) entry, or restores the draft. Returns the
    /// text to display, or `None` if not navigating.
    pub fn navigateDown(&mut self) -> (r: Option<&str>)
        requires
            old(self)@.wf(),
        ensures
            final(self)@ == old(self)@.down(),
            final(self)@.wf(),
            match r {
                Some(s) => old(self)@.shown_down() == Some(s@),
                None => old(self)@.shown_down() is None,
            },
    {
        match self.cursor {
            None => None,
            Some(idx) => {
                let n: usize = self.entries.len();
                if idx >= n - 1 {
                    self.cursor = None;
                    Some(self.draft.as_str())
                } else {
                    self.cursor = Some(idx + 1);
                    Some(self.entries[idx + 1].as_str())
                }
            },
        }
    }

    /// Ends navigation (called on any edit to the textarea).
    pub fn resetCursor(&mut self)
        ensures
            final(self)@ == (HistoryV { cursor: None, ..old(self)@ }),
            final(self)@.wf(),
    {
        self.cursor = None;
    }

    /// Whether we're currently navigating history.
    pub fn isNavigating(&self) -> (r: bool)
        ensures
            r == (self@.cursor is Some),
    {
        self.cursor.is_some()
    }
}

// ---- laws ----

/// The history after `n` steps to older entries.
pub open spec fn ups(h: HistoryV, text: Seq<char>, n: nat) -> HistoryV
    decreases n,
{
    if n == 0 {
        h
    } else {
        ups(h, text, (n - 1) as nat).up(text)
    }
}

/// The history after `n` steps to newer entries.
pub open spec fn downs(h: HistoryV, n: nat) -> HistoryV
    decreases n,
{
    if n == 0 {
        h
    } else {
        downs(h, (n - 1) as nat).down()
    }
}

proof fn lemma_ups(h: HistoryV, text: Seq<char>, n: nat)
    requires
        h.cursor is None,
        1 <= n <= h.entries.len(),
    ensures
        ups(h, text, n) == (HistoryV {
            draft: text,
            cursor: Some(h.entries.len() - n),
            ..h
        }),
    decreases n,
{
    if n > 1 {
        lemma_ups(h, text, (n - 1) as nat);
    } else {
        assert(ups(h, text, 0) == h);
    }
}

proof fn lemma_downs(h: HistoryV, n: nat)
    requires
        h.cursor matches Some(i) && 0 <= i && i + n < h.entries.len(),
    ensures
        downs(h, n) == (HistoryV { cursor: Some(h.cursor->0 + n), ..h }),
    decreases n,
{
    if n > 0 {
        lemma_downs(h, (n - 1) as nat);
    }
}

/// The draft survives navigation: after any number of steps up that the entries
/// allow, as many steps down end outside the history, and the last of them shows
/// the text that was there before.
pub proof fn law_draft_is_restored(h: HistoryV, text: Seq<char>, n: nat)
    requires
        h.cursor is None,
        1 <= n <= h.entries.len(),
    ensures
        downs(ups(h, text, n), n).cursor is None,
        downs(ups(h, text, n), n).entries == h.entries,
        downs(ups(h, text, n), (n - 1) as nat).shown_down() == Some(text),
{
    lemma_ups(h, text, n);
    let u = ups(h, text, n);
    lemma_downs(u, (n - 1) as nat);
}

/// At most the latest entries are kept, and the text just recorded is the last.
pub proof fn law_latest_entries_are_kept(h: HistoryV, text: Seq<char>)
    requires
        h.records(text),
    ensures
        h.pushed(text).entries.len() <= MAX_ENTRIES,
        h.pushed(text).entries.last() == text,
        h.entries.len() < MAX_ENTRIES ==> h.pushed(text).entries == h.entries.push(text),
{
    let all = h.entries.push(text);
    if h.entries.len() < MAX_ENTRIES {
        assert(all.skip(0) =~= all);
    }
}

/// Recording a text twice in a row records it once.
pub proof fn law_repetition_is_recorded_once(h: HistoryV, text: Seq<char>)
    ensures
        h.pushed(text).pushed(text).entries == h.pushed(text).entries,
{
    if h.records(text) {
        law_latest_entries_are_kept(h, text);
    }
}

/// Steps to older entries show the entries one by one, the newest first, until the
/// oldest; there a step shows nothing and stays.
pub proof fn law_steps_up_show_the_newest_first(h: HistoryV, text: Seq<char>, n: nat)
    requires
        h.cursor is None,
        n <= h.entries.len(),
    ensures
        n < h.entries.len() ==> ups(h, text, n).shown_up(text) == Some(
            h.entries[h.entries.len() - 1 - n],
        ),
        n == h.entries.len() ==> ups(h, text, n).shown_up(text) is None && ups(h, text, n).up(text)
            == ups(h, text, n),
{
    if n > 0 {
        lemma_ups(h, text, n);
    }
}

/// A text that is recorded is shown by the next step to an older entry, and the text in
/// the input is kept to come back to.
pub proof fn law_what_was_sent_is_shown_first(h: HistoryV, sent: Seq<char>, text: Seq<char>)
    requires
        sent.len() > 0,
    ensures
        h.pushed(sent).cursor is None,
        h.pushed(sent).shown_up(text) == Some(sent),
        h.pushed(sent).up(text).draft == text,
        h.pushed(sent).up(text).shown_down() == Some(text),
        h.pushed(sent).entries.last() == sent,
{
    if h.records(sent) {
        law_latest_entries_are_kept(h, sent);
    }
}

/// An empty text is not recorded. What is recorded leaves the order of the entries
/// before it; the oldest of 500 makes room.
pub proof fn law_recording_keeps_the_order(h: HistoryV, text: Seq<char>, i: int)
    requires
        h.entries.len() <= 500,
        0 <= i < h.pushed(text).entries.len() - 1,
        h.records(text),
    ensures
        h.pushed(Seq::empty()) == h,
        h.entries.len() < 500 ==> h.pushed(text).entries[i] == h.entries[i],
        h.entries.len() == 500 ==> h.pushed(text).entries[i] == h.entries[i + 1],
{
}

/// What is kept in the file is what the history begins with: the strings that are read,
/// or nothing where there is no file or it cannot be read, and no step is taken yet.
pub proof fn law_a_history_begins_with_its_file(t: Seq<char>, e: Seq<Seq<char>>)
    ensures
        json_strings(t) == Some(e) ==> loaded(Some(t)).entries == e,
        json_strings(t) is None ==> loaded(Some(t)).entries.len() == 0,
        loaded(None).entries.len() == 0,
        loaded(Some(t)).cursor is None,
        loaded(Some(t)).draft.len() == 0,
        starting(Some(e)).entries == e,
        starting(None).entries.len() == 0,
{
}

/// What the calls give back: the newest entry first, then the older ones; and at the end
/// of the way down the text that was being written.
pub proof fn law_calls_browse_the_history(text: &str, sent: &str)
    requires
        sent@.len() > 0,
    ensures
        forall|h: &mut History, r: Option<&str>|
            h.cursor is None && h.entries@.len() > 0 && #[trigger] call_ensures(
                History::navigateUp,
                (h, text),
                r,
            ) ==> (r matches Some(s) && s@ == h.entries@.last()@) && final(h).draft@ == text@,
        forall|h: &mut History, r: Option<&str>|
            h.cursor == Some((h.entries@.len() - 1) as usize) && h.entries@.len() > 0
                && #[trigger] call_ensures(History::navigateDown, (h,), r) ==> (r matches Some(s)
                && s@ == h.draft@) && final(h).cursor is None,
        forall|h: &mut History, r: bool| #[trigger]
            call_ensures(History::push, (h, sent), r) ==> final(h).entries@.len() > 0 && final(
            h).entries@.last()@ == sent@ && final(h).cursor is None,
{
    assert forall|h: &mut History, r: Option<&str>|
        h.cursor is None && h.entries@.len() > 0 && #[trigger] call_ensures(
            History::navigateUp,
            (h, text),
            r,
        ) implies (r matches Some(s) && s@ == h.entries@.last()@) && final(h).draft@ == text@ by {
        assert(h@.entries.last() == h.entries@.last()@);
        assert(h@.shown_up(text@) == Some(h@.entries.last()));
    }
    assert forall|h: &mut History, r: Option<&str>|
        h.cursor == Some((h.entries@.len() - 1) as usize) && h.entries@.len() > 0
            && #[trigger] call_ensures(History::navigateDown, (h,), r) implies (r matches Some(s)
        && s@ == h.draft@) && final(h).cursor is None by {
        assert(h.entries.len() == h.entries@.len());
        assert(h@.shown_down() == Some(h@.draft));
    }
    assert forall|h: &mut History, r: bool| #[trigger]
        call_ensures(History::push, (h, sent), r) implies final(h).entries@.len() > 0 && final(
    h).entries@.last()@ == sent@ && final(h).cursor is None by {
        law_what_was_sent_is_shown_first(h@, sent@, sent@);
        let e = final(h)@.entries;
        assert(e.len() == final(h).entries@.len());
        assert(e.last() == final(h).entries@.last()@);
    }
}

} // verus!
