//! Short texts of the conversation: sizes, times, wake receipts, diff counts.

use vstd::prelude::*;
use vstd::string::*;
use crate::agent_panel::entry::WakeScheduleStatus;
use crate::draw::{Color, Style, colored};
use crate::jobs_panel::WakeKind;
use crate::share::{asDouble, as_double, nearest};
use crate::text::{
    byte_len, bytesExceed, charsOf, cutBytes, cut_bytes, dec, decimal, has_prefix, isWhite,
    is_digit, is_white, joinWith, joined, lines_of, linesOf, startsWith, strEq, texts,
};

verus! {

// ---- sizes ----

/// `n / d` to the nearest integer, halves to the even one.
pub open spec fn rounded(n: int, d: int) -> int {
    let q = n / d;
    let rest = n % d;
    if 2 * rest > d || (2 * rest == d && q % 2 == 1) {
        q + 1
    } else {
        q
    }
}

/// A byte count: `512 B`, `34 KB`, `1.2 MB`. It is written from the double nearest to
/// it.
pub open spec fn format_bytes(bytes: int) -> Seq<char> {
    if bytes >= 1_048_576 {
        let t = rounded(as_double(bytes) * 10, 1_048_576);
        dec((t / 10) as nat) + "."@ + dec((t % 10) as nat) + " MB"@
    } else if bytes >= 1024 {
        dec(rounded(bytes, 1024) as nat) + " KB"@
    } else {
        dec(bytes as nat) + " B"@
    }
}

/// Formats a byte count as a human-readable string.
pub fn formatBytes(bytes: u64) -> (r: String)
    ensures
        r@ == format_bytes(bytes as int),
{
    if bytes >= 1_048_576 {
        let t: u128 = nearest(asDouble(bytes as u128) * 10, 1_048_576);
        let mut s = decimal((t / 10) as u64);
        s.append(".");
        s.append(decimal((t % 10) as u64).as_str());
        s.append(" MB");
        s
    } else if bytes >= 1024 {
        let mut s = decimal(nearest(bytes as u128, 1024) as u64);
        s.append(" KB");
        s
    } else {
        let mut s = decimal(bytes);
        s.append(" B");
        s
    }
}

// ---- diffs ----

/// Whether a diff line adds something.
pub open spec fn is_added(l: Seq<char>) -> bool {
    has_prefix(l, "+"@) && !has_prefix(l, "+++"@) && !has_prefix(l, "---"@)
}

/// Whether a diff line removes something.
pub open spec fn is_removed(l: Seq<char>) -> bool {
    has_prefix(l, "-"@) && !has_prefix(l, "+++"@) && !has_prefix(l, "---"@) && !has_prefix(l, "+"@)
}

/// How many of the first `n` lines add something.
pub open spec fn added_lines(l: Seq<Seq<char>>, n: int) -> int
    decreases n,
{
    if n <= 0 {
        0
    } else {
        added_lines(l, n - 1) + (if is_added(l[n - 1]) {
            1int
        } else {
            0
        })
    }
}

/// How many of the first `n` lines remove something.
pub open spec fn removed_lines(l: Seq<Seq<char>>, n: int) -> int
    decreases n,
{
    if n <= 0 {
        0
    } else {
        removed_lines(l, n - 1) + (if is_removed(l[n - 1]) {
            1int
        } else {
            0
        })
    }
}

/// Counts added and removed lines in a unified diff.
pub fn diffStats(diff: &str) -> (r: (usize, usize))
    ensures
        r.0 == added_lines(lines_of(diff@), lines_of(diff@).len() as int),
        r.1 == removed_lines(lines_of(diff@), lines_of(diff@).len() as int),
{
    let v = linesOf(diff);
    let ghost l = lines_of(diff@);
    let mut added: usize = 0;
    let mut removed: usize = 0;
    let mut i: usize = 0;
    while i < v.len()
        invariant
            i <= v.len(),
            l == texts(v@),
            added == added_lines(l, i as int),
            removed == removed_lines(l, i as int),
            added <= i,
            removed <= i,
        decreases v.len() - i,
    {
        proof {
            assert(l[i as int] == v@[i as int]@);
        }
        let line = v[i].as_str();
        if startsWith(line, "+++") || startsWith(line, "---") {
        } else if startsWith(line, "+") {
            added = added + 1;
        } else if startsWith(line, "-") {
            removed = removed + 1;
        }
        i = i + 1;
    }
    (added, removed)
}

// ---- wakes ----

/// Whether the kind of wake shows a receipt.
#[verifier::allow_in_spec]
pub fn isScheduledWakeKind(kind: WakeKind) -> bool
    returns
        kind is Delay || kind is Cron || kind is FileWatch,
{
    match kind {
        WakeKind::Delay => true,
        WakeKind::Cron => true,
        WakeKind::FileWatch => true,
        _ => false,
    }
}

/// Whether `name` is a tool that arms or disarms a wake.
pub open spec fn is_wake_tool(name: Seq<char>) -> bool {
    name == "scheduleWakeup"@ || name == "cronCreate"@ || name == "fileWatch"@ || name
        == "cronDelete"@
}

/// Whether `name` is a tool that arms or disarms a wake.
pub fn isWakeToolName(name: &str) -> (r: bool)
    ensures
        r == is_wake_tool(name@),
{
    strEq(name, "scheduleWakeup") || strEq(name, "cronCreate") || strEq(name, "fileWatch")
        || strEq(name, "cronDelete")
}

/// How a kind of wake is called.
pub open spec fn wake_kind_label(kind: WakeKind) -> Seq<char> {
    match kind {
        WakeKind::Delay => "delay"@,
        WakeKind::Cron => "cron"@,
        WakeKind::FileWatch => "file watch"@,
        WakeKind::MonitorMatch => "monitor"@,
        WakeKind::TaskComplete => "task"@,
    }
}

pub fn wakeKindLabel(kind: WakeKind) -> (r: &'static str)
    ensures
        r@ == wake_kind_label(kind),
{
    match kind {
        WakeKind::Delay => "delay",
        WakeKind::Cron => "cron",
        WakeKind::FileWatch => "file watch",
        WakeKind::MonitorMatch => "monitor",
        WakeKind::TaskComplete => "task",
    }
}

/// The status text of a receipt and its style.
pub open spec fn wake_status_text(status: WakeScheduleStatus, armed: bool) -> (Seq<char>, Style) {
    match status {
        WakeScheduleStatus::Armed => if armed {
            ("armed"@, colored(Color::Green))
        } else {
            ("disarmed"@, colored(Color::DarkGray))
        },
        WakeScheduleStatus::Fired => if armed {
            ("fired \u{00B7} still armed"@, colored(Color::Yellow))
        } else {
            ("fired"@, colored(Color::Yellow))
        },
        WakeScheduleStatus::Disarmed => ("disarmed"@, colored(Color::DarkGray)),
    }
}

pub fn wakeScheduleStatusText(status: WakeScheduleStatus, armed: bool) -> (r: (
    &'static str,
    Style,
))
    ensures
        (r.0@, r.1) == wake_status_text(status, armed),
{
    match status {
        WakeScheduleStatus::Armed => if armed {
            ("armed", colored(Color::Green))
        } else {
            ("disarmed", colored(Color::DarkGray))
        },
        WakeScheduleStatus::Fired => if armed {
            ("fired \u{00B7} still armed", colored(Color::Yellow))
        } else {
            ("fired", colored(Color::Yellow))
        },
        WakeScheduleStatus::Disarmed => ("disarmed", colored(Color::DarkGray)),
    }
}

/// A duration of `secs` seconds, shortly.
pub open spec fn elapsed_compact(secs: nat) -> Seq<char> {
    if secs < 60 {
        dec(secs) + "s"@
    } else if secs < 3600 {
        dec(secs / 60) + "m"@
    } else if secs < 86_400 {
        if (secs % 3600) / 60 == 0 {
            dec(secs / 3600) + "h"@
        } else {
            dec(secs / 3600) + "h"@ + dec((secs % 3600) / 60) + "m"@
        }
    } else {
        dec(secs / 86_400) + "d"@
    }
}

/// A duration of `secs` seconds, shortly.
pub fn elapsedCompact(secs: u64) -> (r: String)
    ensures
        r@ == elapsed_compact(secs as nat),
{
    if secs < 60 {
        let mut s = decimal(secs);
        s.append("s");
        s
    } else if secs < 3600 {
        let mut s = decimal(secs / 60);
        s.append("m");
        s
    } else if secs < 86_400 {
        let minutes: u64 = (secs % 3600) / 60;
        let mut s = decimal(secs / 3600);
        s.append("h");
        if minutes != 0 {
            s.append(decimal(minutes).as_str());
            s.append("m");
        }
        s
    } else {
        let mut s = decimal(secs / 86_400);
        s.append("d");
        s
    }
}

/// How long it is until `at`, seen at `now`, both in milliseconds.
pub open spec fn time_until(at: u64, now: u64) -> Seq<char> {
    if at <= now {
        "due"@
    } else {
        "in "@ + elapsed_compact(((at - now) / 1000) as nat)
    }
}

/// How long it is until `at`, seen at `now`, both in milliseconds.
pub fn timeUntilLabel(at: u64, now: u64) -> (r: String)
    ensures
        r@ == time_until(at, now),
{
    if at <= now {
        String::from_str("due")
    } else {
        let mut s = String::from_str("in ");
        s.append(elapsedCompact((at - now) / 1000).as_str());
        s
    }
}

// ---- one-line snippets ----

/// The words of `s`, separated by white space, and whether it ends in one.
pub open spec fn words(s: Seq<char>) -> (Seq<Seq<char>>, bool)
    decreases s.len(),
{
    if s.len() == 0 {
        (Seq::empty(), false)
    } else {
        let r = words(s.drop_last());
        if is_white(s.last()) {
            (r.0, false)
        } else if r.1 {
            (r.0.drop_last().push(r.0.last().push(s.last())), true)
        } else {
            (r.0.push(seq![s.last()]), true)
        }
    }
}

proof fn lemma_words(s: Seq<char>)
    ensures
        words(s).1 ==> words(s).0.len() > 0,
    decreases s.len(),
{
    if s.len() > 0 {
        lemma_words(s.drop_last());
    }
}

/// Splits a text at white space.
pub fn splitWords(s: &str) -> (r: Vec<String>)
    ensures
        texts(r@) == words(s@).0,
{
    let v = charsOf(s);
    let mut out: Vec<String> = Vec::new();
    let mut open = false;
    let mut i: usize = 0;
    proof {
        assert(texts(out@) =~= words(s@.take(0)).0);
    }
    while i < v.len()
        invariant
            i <= v.len(),
            v@ == s@,
            texts(out@) == words(s@.take(i as int)).0,
            open == words(s@.take(i as int)).1,
        decreases v.len() - i,
    {
        let c = v[i];
        let ghost t = s@.take(i + 1);
        let ghost before = texts(out@);
        proof {
            assert(t.drop_last() =~= s@.take(i as int));
            assert(t.last() == c);
            lemma_words(s@.take(i as int));
        }
        if isWhite(c) {
            open = false;
        } else if open {
            let mut last = out.pop().unwrap();
            let ghost w = last@;
            proof {
                assert(before.last() == w);
            }
            last.push(c);
            out.push(last);
            proof {
                assert(texts(out@) =~= before.drop_last().push(w.push(c)));
            }
        } else {
            let mut word = String::new();
            word.push(c);
            proof {
                assert(word@ =~= seq![c]);
            }
            out.push(word);
            open = true;
            proof {
                assert(texts(out@) =~= before.push(seq![c]));
            }
        }
        i = i + 1;
    }
    proof {
        assert(s@.take(s@.len() as int) =~= s@);
    }
    out
}

/// A text on one line: white space becomes single spaces, and what does not fit
/// into `limit` bytes is cut, with an ellipsis.
pub open spec fn one_line(s: Seq<char>, limit: int) -> Seq<char> {
    let l = joined(words(s).0, " "@);
    if byte_len(l) <= limit {
        l
    } else {
        cut_bytes(l, limit) + "\u{2026}"@
    }
}

/// A text on one line, cut to `maxBytes` bytes.
pub fn snippetOneLine(text: &str, maxBytes: usize) -> (r: String)
    ensures
        r@ == one_line(text@, maxBytes as int),
{
    let line = joinWith(&splitWords(text), " ");
    if !bytesExceed(line.as_str(), maxBytes) {
        line
    } else {
        let mut s = cutBytes(line.as_str(), maxBytes);
        s.append("\u{2026}");
        s
    }
}

// ---- wake source ids ----

/// The number that decimal digits stand for.
pub open spec fn digits_value(s: Seq<char>) -> nat
    decreases s.len(),
{
    if s.len() == 0 {
        0
    } else {
        digits_value(s.drop_last()) * 10 + (s.last() as u32 - '0' as u32) as nat
    }
}

/// The leading decimal digits of `s`.
pub open spec fn leading_digits(s: Seq<char>) -> Seq<char>
    decreases s.len(),
{
    if s.len() == 0 || !is_digit(s[0]) {
        Seq::empty()
    } else {
        seq![s[0]] + leading_digits(s.skip(1))
    }
}

/// The place of the first `c` in `s`, or its length.
pub open spec fn index_of_char(s: Seq<char>, c: char) -> int
    decreases s.len(),
{
    if s.len() == 0 || s[0] == c {
        0
    } else {
        1 + index_of_char(s.skip(1), c)
    }
}

/// The id in a source such as `delay#3`: the digits behind the first `#`, where
/// there are any and they fit into 64 bits.
pub open spec fn source_id(s: Seq<char>) -> Option<u64> {
    let h = index_of_char(s, '#');
    if h >= s.len() {
        None
    } else {
        let d = leading_digits(s.skip(h + 1));
        if d.len() == 0 || digits_value(d) > u64::MAX {
            None
        } else {
            Some(digits_value(d) as u64)
        }
    }
}

pub proof fn lemma_digits_mono(s: Seq<char>, t: Seq<char>)
    requires
        forall|i: int| 0 <= i < t.len() ==> is_digit(#[trigger] t[i]),
    ensures
        digits_value(s + t) >= digits_value(s),
    decreases t.len(),
{
    if t.len() > 0 {
        lemma_digits_mono(s, t.drop_last());
        assert((s + t).drop_last() =~= s + t.drop_last());
        assert(is_digit(t[t.len() - 1]));
        assert(digits_value(s + t.drop_last()) * 10 >= digits_value(s + t.drop_last()))
            by (nonlinear_arith);
    } else {
        assert(s + t =~= s);
    }
}

proof fn lemma_leading_digits(s: Seq<char>)
    ensures
        forall|i: int| 0 <= i < leading_digits(s).len() ==> is_digit(#[trigger] leading_digits(s)[i]),
    decreases s.len(),
{
    if s.len() > 0 && is_digit(s[0]) {
        lemma_leading_digits(s.skip(1));
        let rest = leading_digits(s.skip(1));
        assert forall|i: int| 0 <= i < leading_digits(s).len() implies is_digit(
            #[trigger] leading_digits(s)[i],
        ) by {
            if i > 0 {
                assert(leading_digits(s)[i] == rest[i - 1]);
            }
        }
    }
}

/// The id in a source such as `delay#3`.
pub fn parseWakeSourceId(source: &str) -> (r: Option<u64>)
    ensures
        r == source_id(source@),
{
    let v = charsOf(source);
    let mut h: usize = 0;
    proof {
        assert(source@.skip(0) =~= source@);
    }
    while h < v.len() && v[h] != '#'
        invariant
            h <= v.len(),
            v@ == source@,
            index_of_char(source@, '#') == h + index_of_char(source@.skip(h as int), '#'),
        decreases v.len() - h,
    {
        proof {
            assert(source@.skip(h as int).skip(1) =~= source@.skip(h + 1));
        }
        h = h + 1;
    }
    if h >= v.len() {
        return None;
    }
    let ghost all = leading_digits(source@.skip(h + 1));
    let mut value: u64 = 0;
    let mut i: usize = h + 1;
    let ghost mut got: Seq<char> = Seq::empty();
    proof {
        assert(got + leading_digits(source@.skip(h + 1)) =~= all);
    }
    while i < v.len() && '0' <= v[i] && v[i] <= '9'
        invariant
            h < i <= v.len(),
            v@ == source@,
            index_of_char(source@, '#') == h,
            all == leading_digits(source@.skip(h + 1)),
            got.len() == i - h - 1,
            got + leading_digits(source@.skip(i as int)) == all,
            value == digits_value(got),
        decreases v.len() - i,
    {
        let d: u64 = (v[i] as u32 - '0' as u32) as u64;
        let ghost next = got.push(v@[i as int]);
        proof {
            let rest = source@.skip(i as int);
            assert(rest[0] == v@[i as int]);
            assert(rest.skip(1) =~= source@.skip(i + 1));
            assert(got + leading_digits(rest) =~= next + leading_digits(source@.skip(i + 1)));
            assert(next.drop_last() =~= got);
            lemma_leading_digits(source@.skip(i + 1));
            lemma_digits_mono(next, leading_digits(source@.skip(i + 1)));
        }
        if value > (u64::MAX - d) / 10 {
            proof {
                assert(digits_value(next) > u64::MAX);
                assert(all.len() > 0);
            }
            return None;
        }
        value = value * 10 + d;
        proof {
            got = next;
        }
        i = i + 1;
    }
    proof {
        if i < v.len() {
            assert(source@.skip(i as int)[0] == v@[i as int]);
        }
        assert(leading_digits(source@.skip(i as int)) =~= Seq::<char>::empty());
        assert(got =~= all);
    }
    if i == h + 1 {
        None
    } else {
        Some(value)
    }
}

// ---- laws ----

/// Looking at a source whose id is written in decimal gives that id back, up to
/// what follows it.
pub proof fn law_source_id_reads_what_was_written(kind: Seq<char>, id: u64, rest: Seq<char>)
    requires
        !kind.contains('#'),
        rest.len() == 0 || !is_digit(rest[0]),
    ensures
        source_id(kind + "#"@ + dec(id as nat) + rest) == Some(id),
{
    reveal_strlit("#");
    let s = kind + "#"@ + dec(id as nat) + rest;
    lemma_index_of(kind, "#"@ + dec(id as nat) + rest);
    assert(kind + ("#"@ + dec(id as nat) + rest) =~= s);
    assert(s.skip(kind.len() as int + 1) =~= dec(id as nat) + rest);
    law_decimal_is_read_back(id as nat);
    lemma_take_digits(dec(id as nat), rest);
}

proof fn lemma_index_of(a: Seq<char>, b: Seq<char>)
    requires
        !a.contains('#'),
        b.len() > 0,
        b[0] == '#',
    ensures
        index_of_char(a + b, '#') == a.len(),
    decreases a.len(),
{
    if a.len() > 0 {
        assert(a.contains(a[0]));
        assert((a + b).skip(1) =~= a.skip(1) + b);
        assert(!a.skip(1).contains('#')) by {
            if a.skip(1).contains('#') {
                let i = choose|i: int| 0 <= i < a.skip(1).len() && a.skip(1)[i] == '#';
                assert(a[i + 1] == '#');
            }
        }
        lemma_index_of(a.skip(1), b);
    } else {
        assert(a + b =~= b);
    }
}

/// A number that is written in decimal is read back as it was, and is written without
/// leading zeros.
pub proof fn law_decimal_is_read_back(n: nat)
    ensures
        dec(n)[0] == '0' ==> n == 0,
        digits_value(dec(n)) == n,
        dec(n).len() > 0,
        forall|i: int| 0 <= i < dec(n).len() ==> is_digit(#[trigger] dec(n)[i]),
    decreases n,
{
    if n < 10 {
        assert(dec(n).drop_last() =~= Seq::<char>::empty());
        assert(digits_value(dec(n).drop_last()) == 0);
        assert(dec(n).last() as u32 - '0' as u32 == n);
    } else {
        law_decimal_is_read_back(n / 10);
        assert(dec(n).drop_last() =~= dec(n / 10));
        assert(dec(n).last() as u32 - '0' as u32 == n % 10);
    }
}

proof fn lemma_take_digits(d: Seq<char>, rest: Seq<char>)
    requires
        forall|i: int| 0 <= i < d.len() ==> is_digit(#[trigger] d[i]),
        rest.len() == 0 || !is_digit(rest[0]),
    ensures
        leading_digits(d + rest) == d,
    decreases d.len(),
{
    if d.len() > 0 {
        assert(is_digit(d[0]));
        assert((d + rest).skip(1) =~= d.skip(1) + rest);
        lemma_take_digits(d.skip(1), rest);
        assert(seq![d[0]] + d.skip(1) =~= d);
    } else {
        assert(d + rest =~= rest);
        assert(leading_digits(rest) =~= Seq::<char>::empty());
    }
}

} // verus!
