//! What the jobs panel shows.

use vstd::prelude::*;
use vstd::string::*;
use crate::draw::{
    Color, Draw, DrawV, Rect, Style, centered, centeredIn, colored, draws, emit, emitRow, emitText,
    fill_row, insideBorders, inside_borders, min, minus, span, sv,
};
use crate::jobs_panel::{
    InspectorState, JobInfo, JobKind, JobState, JobsPanel, Mode, WakeKind, WakeSourceInfo,
    lemma_visible, visible_of,
};
use crate::text::{
    byte_len, has_prefix, bytesExceed, cutBytes, cut_bytes, dec, dec2, dec_int, decimal, decimal2, decimalInt,
    firstChars, first_chars, lemma_chars_in_bytes, lemma_cut_bytes_len, lemma_dec_len, padRight,
    pad_right,
};

verus! {

/// The panel's background.
#[verifier::allow_in_spec]
pub fn backdrop() -> Color
    returns
        Color::Rgb(15, 15, 25),
{
    Color::Rgb(15, 15, 25)
}

/// The background of the selected row.
#[verifier::allow_in_spec]
pub fn selectedBackdrop() -> Color
    returns
        Color::Rgb(40, 40, 80),
{
    Color::Rgb(40, 40, 80)
}

/// Secondary text.
#[verifier::allow_in_spec]
pub fn dimmed() -> Color
    returns
        Color::Rgb(120, 120, 140),
{
    Color::Rgb(120, 120, 140)
}

/// Rules and hints.
#[verifier::allow_in_spec]
pub fn muted() -> Color
    returns
        Color::Rgb(80, 80, 100),
{
    Color::Rgb(80, 80, 100)
}

// ---- texts ----

/// An age in seconds, as `42s`, `3m07s` or `2h05m`.
pub open spec fn format_age(s: nat) -> Seq<char> {
    if s < 60 {
        dec(s) + "s"@
    } else if s < 3600 {
        dec(s / 60) + "m"@ + dec2(s % 60) + "s"@
    } else {
        dec(s / 3600) + "h"@ + dec2((s % 3600) / 60) + "m"@
    }
}

pub fn formatAge(s: u64) -> (r: String)
    ensures
        r@ == format_age(s as nat),
{
    if s < 60 {
        let mut out = decimal(s);
        out.append("s");
        out
    } else if s < 3600 {
        let mut out = decimal(s / 60);
        out.append("m");
        out.append(decimal2(s % 60).as_str());
        out.append("s");
        out
    } else {
        let mut out = decimal(s / 3600);
        out.append("h");
        out.append(decimal2((s % 3600) / 60).as_str());
        out.append("m");
        out
    }
}

/// `line` in at most `limit` characters, the last of them an ellipsis where
/// something was cut. A limit of 0 cuts nothing.
pub open spec fn truncate_line(line: Seq<char>, limit: int) -> Seq<char> {
    if line.len() <= limit || limit == 0 {
        line
    } else if limit <= 1 {
        "\u{2026}"@
    } else {
        line.take(limit - 1).push('\u{2026}')
    }
}

pub fn truncateLine(line: &str, limit: usize) -> (r: String)
    ensures
        r@ == truncate_line(line@, limit as int),
{
    if line.unicode_len() <= limit || limit == 0 {
        String::from_str(line)
    } else if limit <= 1 {
        String::from_str("\u{2026}")
    } else {
        let mut out = firstChars(line, limit - 1);
        out.push('\u{2026}');
        out
    }
}

/// The label of a state.
pub open spec fn state_label(s: JobState) -> Seq<char> {
    match s {
        JobState::Running => "running"@,
        JobState::Completed { exitCode } => "exit "@ + dec_int(exitCode as int),
        JobState::Killed => "killed"@,
        JobState::Errored(_) => "errored"@,
    }
}

fn stateLabel(s: &JobState) -> (r: String)
    ensures
        r@ == state_label(*s),
{
    match s {
        JobState::Running => String::from_str("running"),
        JobState::Completed { exitCode } => {
            let mut out = String::from_str("exit ");
            out.append(decimalInt(*exitCode as i64).as_str());
            out
        },
        JobState::Killed => String::from_str("killed"),
        JobState::Errored(_) => String::from_str("errored"),
    }
}

/// The glyph of a job and its color.
pub open spec fn job_glyph(kind: JobKind, s: JobState) -> (Seq<char>, Color) {
    match s {
        JobState::Running => if kind is Subagent {
            ("\u{2982}"@, Color::Cyan)
        } else {
            ("\u{25F4}"@, Color::Yellow)
        },
        JobState::Completed { exitCode } => if exitCode == 0 {
            ("\u{2713}"@, Color::Green)
        } else {
            ("\u{2717}"@, Color::Red)
        },
        JobState::Killed => ("\u{2717}"@, dimmed()),
        JobState::Errored(_) => ("\u{2717}"@, Color::Red),
    }
}

fn jobGlyph(kind: JobKind, s: &JobState) -> (r: (&'static str, Color))
    ensures
        (r.0@, r.1) == job_glyph(kind, *s),
{
    match s {
        JobState::Running => match kind {
            JobKind::Subagent => ("\u{2982}", Color::Cyan),
            JobKind::Bash => ("\u{25F4}", Color::Yellow),
        },
        JobState::Completed { exitCode } => if *exitCode == 0 {
            ("\u{2713}", Color::Green)
        } else {
            ("\u{2717}", Color::Red)
        },
        JobState::Killed => ("\u{2717}", dimmed()),
        JobState::Errored(_) => ("\u{2717}", Color::Red),
    }
}

/// A command cut to `room` bytes, with an ellipsis, where it is longer than
/// `limit` bytes and the limit leaves room for a preview.
pub open spec fn command_preview(command: Seq<char>, limit: int, room: int) -> Seq<char> {
    if byte_len(command) > limit && limit > 4 {
        cut_bytes(command, room) + "\u{2026}"@
    } else {
        command
    }
}

fn commandPreview(command: &str, limit: usize, room: usize) -> (r: String)
    requires
        limit <= u16::MAX,
        room <= u16::MAX,
    ensures
        r@ == command_preview(command@, limit as int, room as int),
{
    if bytesExceed(command, limit) && limit > 4 {
        let mut out = cutBytes(command, room);
        out.append("\u{2026}");
        out
    } else {
        String::from_str(command)
    }
}

/// How long a job ran, or has been running, in seconds.
pub open spec fn age_secs(job: JobInfo, now: u64) -> nat {
    let end = match job.completedAt {
        Some(t) => t,
        None => now,
    };
    (minus(end as int, job.spawnedAt as int) / 1000) as nat
}

// ---- one job ----

/// What the row of a job shows, drawn at `x`, `y` over `width` cells.
pub open spec fn row_draws(
    job: JobInfo,
    selected: bool,
    now: u64,
    x: u16,
    y: u16,
    width: u16,
) -> Seq<DrawV> {
    let bg = if selected {
        selectedBackdrop()
    } else {
        backdrop()
    };
    let row = colored(Color::White).bg(bg);
    let glyph = job_glyph(job.kind, job.state);
    let limit = minus(width as int, 40);
    let a = " "@ + glyph.0 + " "@;
    let b = "#"@ + pad_right(dec(job.id as nat), 4);
    let c = command_preview(job.command@, limit, limit - 1);
    let left = a.len() + b.len() + 1 + c.len();
    let right = state_label(job.state) + "  "@ + format_age(age_secs(job, now)) + " "@;
    let cells = fill_row(x as int, y, width as int, " "@, row).push(
        DrawV::Text { x, y, text: sv(a, colored(glyph.1).bg(bg)), width: a.len() as u16 },
    ).push(
        DrawV::Text {
            x: (x + a.len()) as u16,
            y,
            text: sv(b, colored(dimmed()).bg(bg)),
            width: b.len() as u16,
        },
    ).push(
        DrawV::Text { x: (x + a.len() + b.len()) as u16, y, text: sv(" "@, row), width: 1 },
    ).push(
        DrawV::Text {
            x: (x + a.len() + b.len() + 1) as u16,
            y,
            text: sv(c, row),
            width: c.len() as u16,
        },
    );
    if right.len() + left + 2 < width {
        cells.push(
            DrawV::Text {
                x: (x + width - right.len()) as u16,
                y,
                text: sv(right, colored(dimmed()).bg(bg)),
                width: right.len() as u16,
            },
        )
    } else {
        cells
    }
}

/// Whether the row of a job fits into the columns that cells are counted by. A row of
/// more than 44 cells cuts the command; a narrower one holds all of it.
pub open spec fn row_fits(job: JobInfo, x: int, width: int) -> bool {
    width > 44 || x + 5 + pad_right(dec(job.id as nat), 4).len() + job.command@.len() <= u16::MAX
}

/// Adds the row of a job.
fn renderRow(
    out: &mut Vec<Draw>,
    y: u16,
    x: u16,
    width: u16,
    job: &JobInfo,
    selected: bool,
    now: u64,
)
    requires
        x + width <= u16::MAX,
        row_fits(*job, x as int, width as int),
    ensures
        draws(final(out)@) == draws(old(out)@) + row_draws(*job, selected, now, x, y, width),
{
    let bg = if selected {
        selectedBackdrop()
    } else {
        backdrop()
    };
    let row = colored(Color::White).bg(bg);
    let (glyph, glyphColor) = jobGlyph(job.kind, &job.state);
    let limit: u16 = width.saturating_sub(40);
    let mut a = String::from_str(" ");
    a.append(glyph);
    a.append(" ");
    let mut b = String::from_str("#");
    b.append(padRight(decimal(job.id).as_str(), 4).as_str());
    let room: u16 = limit.saturating_sub(1);
    let c = commandPreview(job.command.as_str(), limit as usize, room as usize);
    let end: u64 = match job.completedAt {
        Some(t) => t,
        None => now,
    };
    let secs: u64 = end.saturating_sub(job.spawnedAt) / 1000;
    let mut right = stateLabel(&job.state);
    right.append("  ");
    right.append(formatAge(secs).as_str());
    right.append(" ");
    proof {
        reveal_strlit(" ");
        reveal_strlit("#");
        reveal_strlit("\u{2982}");
        reveal_strlit("\u{25F4}");
        reveal_strlit("\u{2713}");
        reveal_strlit("\u{2717}");
        reveal_strlit("\u{2026}");
        lemma_dec_len(job.id);
        lemma_cut_bytes_len(job.command@, room as int);
        lemma_chars_in_bytes(job.command@);
        assert(c@ == command_preview(job.command@, limit as int, limit - 1));
    }
    let wa: u16 = a.as_str().unicode_len() as u16;
    let wb: u16 = b.as_str().unicode_len() as u16;
    let wc: u16 = c.as_str().unicode_len() as u16;
    emitRow(out, x, y, width, " ", row);
    emitText(out, x, y, a.as_str(), colored(glyphColor).bg(bg), wa);
    emitText(out, x + wa, y, b.as_str(), colored(dimmed()).bg(bg), wb);
    emitText(out, x + wa + wb, y, " ", row, 1);
    emitText(out, x + wa + wb + 1, y, c.as_str(), row, wc);
    let left: u64 = wa as u64 + wb as u64 + 1 + wc as u64;
    let wr: usize = right.as_str().unicode_len();
    if wr < width as usize && wr as u64 + left + 2 < width as u64 {
        emitText(
            out,
            x + (width - wr as u16),
            y,
            right.as_str(),
            colored(dimmed()).bg(bg),
            wr as u16,
        );
    }
    proof {
        assert(draws(out@) =~= draws(old(out)@) + row_draws(*job, selected, now, x, y, width));
    }
}

// ---- one schedule ----

/// The glyph of a wake kind.
pub open spec fn wake_glyph(k: WakeKind) -> Seq<char> {
    match k {
        WakeKind::Delay => "\u{23F2}\u{FE0E}"@,
        WakeKind::Cron => "\u{23F1}\u{FE0E}"@,
        WakeKind::FileWatch => "\u{2399}"@,
        WakeKind::MonitorMatch => "\u{2299}"@,
        WakeKind::TaskComplete => "\u{25F4}"@,
    }
}

fn wakeGlyph(k: WakeKind) -> (r: &'static str)
    ensures
        r@ == wake_glyph(k),
{
    match k {
        WakeKind::Delay => "\u{23F2}\u{FE0E}",
        WakeKind::Cron => "\u{23F1}\u{FE0E}",
        WakeKind::FileWatch => "\u{2399}",
        WakeKind::MonitorMatch => "\u{2299}",
        WakeKind::TaskComplete => "\u{25F4}",
    }
}

/// The preview of a wake's prompt.
pub open spec fn prompt_preview(prompt: Option<String>) -> Seq<char> {
    match prompt {
        Some(p) => if p@.len() == 0 {
            Seq::empty()
        } else if byte_len(p@) > 30 {
            " \u{2014} "@ + first_chars(p@, 30) + "\u{2026}"@
        } else {
            " \u{2014} "@ + p@
        },
        None => Seq::empty(),
    }
}

/// The line of a schedule.
pub open spec fn wake_line(w: WakeSourceInfo) -> Seq<char> {
    "  "@ + wake_glyph(w.kind) + " #"@ + dec(w.id as nat) + " ["@ + w.kindName@ + "] "@ + w.summary@
        + prompt_preview(w.prompt) + " \u{00B7} "@ + dec(w.firesSoFar as nat) + " fires"@
}

/// The text of a schedule's row.
pub fn wakeRowText(w: &WakeSourceInfo) -> (r: String)
    ensures
        r@ == wake_line(*w),
{
    let mut preview = String::new();
    match &w.prompt {
        Some(p) => {
            if p.as_str().unicode_len() == 0 {
            } else if bytesExceed(p.as_str(), 30) {
                preview = String::from_str(" \u{2014} ");
                preview.append(firstChars(p.as_str(), 30).as_str());
                preview.append("\u{2026}");
            } else {
                preview = String::from_str(" \u{2014} ");
                preview.append(p.as_str());
            }
        },
        None => {},
    }
    let mut s = String::from_str("  ");
    s.append(wakeGlyph(w.kind));
    s.append(" #");
    s.append(decimal(w.id).as_str());
    s.append(" [");
    s.append(w.kindName.as_str());
    s.append("] ");
    s.append(w.summary.as_str());
    s.append(preview.as_str());
    s.append(" \u{00B7} ");
    s.append(decimal(w.firesSoFar).as_str());
    s.append(" fires");
    s
}

// ---- the list ----

/// The popup of the panel: at most `w` by `h` cells, in the middle, clear of the edges.
pub open spec fn center_rect(area: Rect, w: int, h: int) -> Rect {
    centered(area, min(w, minus(area.width as int, 4)), min(h, minus(area.height as int, 2)))
}

pub fn centerRect(area: Rect, width: u16, height: u16) -> (r: Rect)
    requires
        area.wf(),
    ensures
        r == center_rect(area, width as int, height as int),
        r.wf(),
        r.inside(area),
{
    let maxW: u16 = area.width.saturating_sub(4);
    let maxH: u16 = area.height.saturating_sub(2);
    let w: u16 = if width < maxW {
        width
    } else {
        maxW
    };
    let h: u16 = if height < maxH {
        height
    } else {
        maxH
    };
    centeredIn(area, w, h)
}

/// How many rows the schedules section takes of a body of `body` rows.
pub open spec fn schedule_rows(wakes: int, body: int) -> int {
    if wakes == 0 {
        2
    } else {
        min(wakes % 65536 + 1, minus(body, 3))
    }
}

/// How many rows the jobs section has in an inner area of `height` rows.
pub open spec fn jobs_rows(wakes: int, height: int) -> int {
    minus(minus(height, 3), schedule_rows(wakes, minus(height, 3)))
}

/// The summary line.
pub open spec fn list_header(p: JobsPanel) -> Seq<char> {
    let running = visible_of(p.jobs@, false).len();
    " "@ + dec(running) + " unfinished \u{00B7} "@ + dec((p.jobs@.len() - running) as nat)
        + " finished "@ + (if p.showFinished {
        "shown"@
    } else {
        "hidden"@
    }) + " \u{00B7} "@ + dec(p.wakes@.len()) + " schedule"@ + (if p.wakes@.len() == 1 {
        ""@
    } else {
        "s"@
    }) + " "@
}

/// The message in place of the rows where no job is listed.
pub open spec fn empty_message(p: JobsPanel) -> Seq<char> {
    if p.jobs@.len() == 0 {
        "  no jobs \u{2014} call shell with runInBackground: true to start one"@
    } else if p.showFinished {
        "  no jobs"@
    } else {
        "  no unfinished jobs \u{2014} press f to show finished"@
    }
}

/// The hint line.
pub open spec fn list_hint(showFinished: bool) -> Seq<char> {
    " \u{2191}\u{2193} select  \u{21B5} inspect  k kill  "@ + (if showFinished {
        "f hide finished"@
    } else {
        "f show finished"@
    }) + "  q/Esc close "@
}

/// How many jobs fit into `rows` rows from the scroll offset on.
pub open spec fn window(p: JobsPanel, rows: int) -> int {
    min(minus(p.visible().len() as int, p.scrollOffset as int), rows)
}

/// The first `k` rows of the jobs section.
pub open spec fn job_rows(p: JobsPanel, now: u64, r: Rect, k: int) -> Seq<DrawV>
    decreases k,
{
    if k <= 0 {
        Seq::empty()
    } else {
        let at = p.scrollOffset + k - 1;
        job_rows(p, now, r, k - 1) + row_draws(
            p.jobs@[p.visible()[at] as int],
            at == p.selected,
            now,
            r.x,
            (r.y + k - 1) as u16,
            r.width,
        )
    }
}

/// The first `k` rows of the schedules section, from row `y` on.
pub open spec fn wake_rows(p: JobsPanel, x: u16, y: int, width: u16, k: int) -> Seq<DrawV> {
    Seq::new(
        k as nat,
        |i: int|
            DrawV::Text {
                x,
                y: (y + i) as u16,
                text: sv(wake_line(p.wakes@[i]), colored(Color::White)),
                width,
            },
    )
}

/// The frame of the panel.
pub open spec fn panel_frame(popup: Rect, title: Seq<char>) -> Seq<DrawV> {
    seq![
        DrawV::Clear { rect: popup },
        DrawV::Frame {
            rect: popup,
            title: sv(title, colored(Color::Cyan).bold()),
            border: colored(Color::Magenta),
            fill: Style::plain().bg(backdrop()),
        },
    ]
}

fn emitFrame(out: &mut Vec<Draw>, popup: Rect, title: &str)
    ensures
        draws(final(out)@) == draws(old(out)@) + panel_frame(popup, title@),
{
    emit(out, Draw::Clear { rect: popup });
    emit(
        out,
        Draw::Frame {
            rect: popup,
            title: span(title, colored(Color::Cyan).bold()),
            border: colored(Color::Magenta),
            fill: Style::plain().bg(backdrop()),
        },
    );
    proof {
        assert(draws(out@) =~= draws(old(out)@) + panel_frame(popup, title@));
    }
}

/// What the list shows in `area` at the time `now`.
pub open spec fn list_draws(p: JobsPanel, area: Rect, now: u64) -> Seq<DrawV> {
    let popup = center_rect(area, 80, 24);
    let inner = inside_borders(popup);
    let frame = panel_frame(popup, " /jobs "@);
    if inner.height < 4 {
        frame
    } else {
        let rows = jobs_rows(p.wakes@.len() as int, inner.height as int);
        let r = Rect { x: inner.x, y: (inner.y + 2) as u16, width: inner.width, height: rows as u16 };
        let body = if p.visible().len() == 0 {
            seq![
                DrawV::Text {
                    x: r.x,
                    y: r.y,
                    text: sv(empty_message(p), colored(dimmed())),
                    width: r.width,
                },
            ]
        } else {
            job_rows(p, now, r, window(p, rows))
        };
        let below = (inner.y + 2 + rows) as u16;
        let schedules = if p.wakes@.len() == 0 {
            seq![
                DrawV::Text {
                    x: min(inner.x + 2, u16::MAX as int) as u16,
                    y: (below + 1) as u16,
                    text: sv(
                        "no schedules \u{2014} use scheduleWakeup/cronCreate/fileWatch"@,
                        colored(dimmed()),
                    ),
                    width: minus(inner.width as int, 2) as u16,
                },
            ]
        } else {
            let room = minus(
                schedule_rows(p.wakes@.len() as int, minus(inner.height as int, 3)),
                1,
            );
            wake_rows(p, inner.x, below + 1, inner.width, min(p.wakes@.len() as int, room))
        };
        frame.push(
            DrawV::Text {
                x: inner.x,
                y: inner.y,
                text: sv(list_header(p), colored(dimmed())),
                width: inner.width,
            },
        ) + fill_row(
            inner.x as int,
            (inner.y + 1) as u16,
            inner.width as int,
            "\u{2500}"@,
            colored(muted()),
        ) + body.push(
            DrawV::Text {
                x: inner.x,
                y: below,
                text: sv(" schedules "@, colored(Color::Cyan).bold()),
                width: inner.width,
            },
        ) + schedules.push(
            DrawV::Text {
                x: inner.x,
                y: (inner.y + inner.height - 1) as u16,
                text: sv(list_hint(p.showFinished), colored(muted())),
                width: inner.width,
            },
        )
    }
}

impl JobsPanel {
    /// The panel after the list was drawn in `area`: it remembers how many
    /// rows were in view.
    pub open spec fn after_list(self, area: Rect) -> JobsPanel {
        let inner = inside_borders(center_rect(area, 80, 24));
        if inner.height < 4 {
            self
        } else {
            JobsPanel {
                lastVisibleCount: jobs_rows(
                    self.wakes@.len() as int,
                    inner.height as int,
                ) as usize,
                ..self
            }
        }
    }

    /// Whether the rows of the listed jobs fit.
    pub open spec fn rows_fit(self, x: int, width: int) -> bool {
        forall|q: int|
            0 <= q < self.visible().len() ==> row_fits(
                self.jobs@[#[trigger] self.visible()[q] as int],
                x,
                width,
            )
    }

    /// Whether the list can be laid out in `area`: its rows fit, and the schedules can
    /// be counted.
    pub open spec fn drawable(self, area: Rect) -> bool {
        let inner = inside_borders(center_rect(area, 80, 24));
        &&& area.wf()
        &&& inner.height >= 4 ==> self.wakes@.len() % 65536 != 65535 && self.rows_fit(
            inner.x as int,
            inner.width as int,
        )
    }

    /// Whether the panel can be drawn in `area`: its list can be laid out, or the lines
    /// of its inspector can be numbered.
    pub open spec fn renderable(self, area: Rect) -> bool {
        match self.mode {
            Mode::List => self.drawable(area),
            Mode::Inspect(s) => area.wf() && s.firstLine + s.lines@.len() <= u64::MAX,
        }
    }

    fn rowsFit(&self, x: u16, width: u16) -> (r: bool)
        ensures
            r == self.rows_fit(x as int, width as int),
    {
        if width > 44 {
            return true;
        }
        let count: usize = self.jobs.len();
        let v = self.visibleJobIndexes();
        proof {
            assert(count == self.jobs@.len());
            lemma_visible(self.jobs@, self.showFinished);
        }
        let mut q: usize = 0;
        while q < v.len()
            invariant
                q <= v@.len(),
                v@ == self.visible(),
                width <= 44,
                forall|k: int| 0 <= k < v@.len() ==> #[trigger] v@[k] < self.jobs@.len(),
                forall|k: int|
                    0 <= k < q ==> row_fits(
                        self.jobs@[#[trigger] self.visible()[k] as int],
                        x as int,
                        width as int,
                    ),
            decreases v@.len() - q,
        {
            let job = &self.jobs[v[q]];
            let digits: usize = padRight(decimal(job.id).as_str(), 4).as_str().unicode_len();
            proof {
                lemma_dec_len(job.id);
            }
            let room: usize = 65535usize.saturating_sub(x as usize + 5 + digits);
            if x as usize + 5 + digits > 65535 || job.command.as_str().unicode_len() > room {
                proof {
                    assert(!row_fits(
                        self.jobs@[self.visible()[q as int] as int],
                        x as int,
                        width as int,
                    ));
                }
                return false;
            }
            q = q + 1;
        }
        true
    }

    /// Whether the panel can be drawn in `area`.
    pub fn canRender(&self, area: Rect) -> (r: bool)
        ensures
            r == self.renderable(area),
    {
        if area.x > u16::MAX - area.width || area.y > u16::MAX - area.height {
            return false;
        }
        match &self.mode {
            Mode::List => {
                let inner = insideBorders(centerRect(area, 80, 24));
                inner.height < 4 || (self.wakes.len() % 65536 != 65535 && self.rowsFit(
                    inner.x,
                    inner.width,
                ))
            },
            Mode::Inspect(s) => s.lines.len() as u64 <= u64::MAX - s.firstLine,
        }
    }

    fn headerText(&self) -> (r: String)
        ensures
            r@ == list_header(*self),
    {
        let mut running: u64 = 0;
        let mut i: usize = 0;
        while i < self.jobs.len()
            invariant
                i <= self.jobs.len(),
                running == visible_of(self.jobs@.take(i as int), false).len(),
                running <= i,
            decreases self.jobs.len() - i,
        {
            proof {
                assert(self.jobs@.take(i + 1).drop_last() =~= self.jobs@.take(i as int));
            }
            if !self.jobs[i].state.isTerminal() {
                running = running + 1;
            }
            i = i + 1;
        }
        proof {
            assert(self.jobs@.take(self.jobs@.len() as int) =~= self.jobs@);
        }
        let mut s = String::from_str(" ");
        s.append(decimal(running).as_str());
        s.append(" unfinished \u{00B7} ");
        s.append(decimal(self.jobs.len() as u64 - running).as_str());
        s.append(" finished ");
        if self.showFinished {
            s.append("shown");
        } else {
            s.append("hidden");
        }
        s.append(" \u{00B7} ");
        s.append(decimal(self.wakes.len() as u64).as_str());
        s.append(" schedule");
        if self.wakes.len() == 1 {
            s.append("");
        } else {
            s.append("s");
        }
        s.append(" ");
        s
    }

    fn renderJobs(&self, out: &mut Vec<Draw>, r: Rect, now: u64)
        requires
            r.wf(),
            self.rows_fit(r.x as int, r.width as int),
        ensures
            draws(final(out)@) == draws(old(out)@) + (if self.visible().len() == 0 {
                seq![
                    DrawV::Text {
                        x: r.x,
                        y: r.y,
                        text: sv(empty_message(*self), colored(dimmed())),
                        width: r.width,
                    },
                ]
            } else {
                job_rows(*self, now, r, window(*self, r.height as int))
            }),
    {
        let v = self.visibleJobIndexes();
        let count: usize = self.jobs.len();
        if v.len() == 0 {
            if self.jobs.len() == 0 {
                emitText(
                    out,
                    r.x,
                    r.y,
                    "  no jobs \u{2014} call shell with runInBackground: true to start one",
                    colored(dimmed()),
                    r.width,
                );
            } else if self.showFinished {
                emitText(out, r.x, r.y, "  no jobs", colored(dimmed()), r.width);
            } else {
                emitText(
                    out,
                    r.x,
                    r.y,
                    "  no unfinished jobs \u{2014} press f to show finished",
                    colored(dimmed()),
                    r.width,
                );
            }
            return;
        }
        proof {
            lemma_visible(self.jobs@, self.showFinished);
            assert(draws(out@) =~= draws(old(out)@) + job_rows(*self, now, r, 0));
        }
        let mut k: u16 = 0;
        while k < r.height && self.scrollOffset < v.len() && (k as usize) < v.len()
            - self.scrollOffset
            invariant
                r.wf(),
                v@ == self.visible(),
                k <= window(*self, r.height as int),
                forall|q: int| 0 <= q < v.len() ==> #[trigger] v@[q] < self.jobs@.len(),
                self.rows_fit(r.x as int, r.width as int),
                draws(out@) == draws(old(out)@) + job_rows(*self, now, r, k as int),
            decreases r.height - k,
        {
            let at: usize = self.scrollOffset + k as usize;
            let i: usize = v[at];
            let ghost before = draws(out@);
            renderRow(out, r.y + k, r.x, r.width, &self.jobs[i], at == self.selected, now);
            k = k + 1;
            proof {
                assert(draws(out@) =~= draws(old(out)@) + job_rows(*self, now, r, k as int));
            }
        }
    }

    fn renderSchedules(&self, out: &mut Vec<Draw>, x: u16, y: u16, width: u16, room: u16)
        requires
            y + room <= u16::MAX,
        ensures
            draws(final(out)@) == draws(old(out)@) + wake_rows(
                *self,
                x,
                y as int,
                width,
                min(self.wakes@.len() as int, room as int),
            ),
    {
        let mut k: u16 = 0;
        proof {
            assert(draws(out@) =~= draws(old(out)@) + wake_rows(*self, x, y as int, width, 0));
        }
        while k < room && (k as usize) < self.wakes.len()
            invariant
                y + room <= u16::MAX,
                k <= min(self.wakes@.len() as int, room as int),
                draws(out@) == draws(old(out)@) + wake_rows(*self, x, y as int, width, k as int),
            decreases room - k,
        {
            let line = wakeRowText(&self.wakes[k as usize]);
            emitText(out, x, y + k, line.as_str(), colored(Color::White), width);
            k = k + 1;
            proof {
                assert(draws(out@) =~= draws(old(out)@) + wake_rows(
                    *self,
                    x,
                    y as int,
                    width,
                    k as int,
                ));
            }
        }
    }

    /// Draws the list.
    #[verifier::rlimit(80)]
    #[verifier::spinoff_prover]
    fn renderList(&mut self, area: Rect, now: u64) -> (out: Vec<Draw>)
        requires
            old(self).drawable(area),
        ensures
            draws(out@) == list_draws(*old(self), area, now),
            *final(self) == old(self).after_list(area),
    {
        let popup = centerRect(area, 80, 24);
        let inner = insideBorders(popup);
        let mut out: Vec<Draw> = Vec::new();
        emitFrame(&mut out, popup, " /jobs ");
        proof {
            assert(draws(out@) =~= panel_frame(popup, " /jobs "@));
        }
        if inner.height < 4 {
            return out;
        }
        let header = self.headerText();
        emitText(&mut out, inner.x, inner.y, header.as_str(), colored(dimmed()), inner.width);
        emitRow(&mut out, inner.x, inner.y + 1, inner.width, "\u{2500}", colored(muted()));
        let body: u16 = inner.height.saturating_sub(3);
        let sched: u16 = if self.wakes.len() == 0 {
            2
        } else {
            let want: u16 = (self.wakes.len() % 65536) as u16 + 1;
            let most: u16 = body.saturating_sub(3);
            if want < most {
                want
            } else {
                most
            }
        };
        let rows: u16 = body.saturating_sub(sched);
        let r = Rect { x: inner.x, y: inner.y + 2, width: inner.width, height: rows };
        self.lastVisibleCount = rows as usize;
        let ghost p = *self;
        proof {
            assert(p.visible() == old(self).visible());
            lemma_rows_same(*old(self), p, now, r, window(p, rows as int));
        }
        self.renderJobs(&mut out, r, now);
        let below: u16 = inner.y + 2 + rows;
        emitText(
            &mut out,
            inner.x,
            below,
            " schedules ",
            colored(Color::Cyan).bold(),
            inner.width,
        );
        if self.wakes.len() == 0 {
            emitText(
                &mut out,
                inner.x.saturating_add(2),
                below + 1,
                "no schedules \u{2014} use scheduleWakeup/cronCreate/fileWatch",
                colored(dimmed()),
                inner.width.saturating_sub(2),
            );
        } else {
            self.renderSchedules(
                &mut out,
                inner.x,
                below + 1,
                inner.width,
                sched.saturating_sub(1),
            );
        }
        let mut hint = String::from_str(
            " \u{2191}\u{2193} select  \u{21B5} inspect  k kill  ",
        );
        if self.showFinished {
            hint.append("f hide finished");
        } else {
            hint.append("f show finished");
        }
        hint.append("  q/Esc close ");
        emitText(
            &mut out,
            inner.x,
            inner.y + (inner.height - 1),
            hint.as_str(),
            colored(muted()),
            inner.width,
        );
        proof {
            assert(draws(out@) =~= list_draws(*old(self), area, now));
        }
        out
    }
}

proof fn lemma_rows_same(p: JobsPanel, q: JobsPanel, now: u64, r: Rect, k: int)
    requires
        q == (JobsPanel { lastVisibleCount: q.lastVisibleCount, ..p }),
    ensures
        job_rows(p, now, r, k) == job_rows(q, now, r, k),
    decreases k,
{
    if k > 0 {
        lemma_rows_same(p, q, now, r, k - 1);
    }
}

// ---- the inspector ----

/// The color of a state in the inspector.
pub open spec fn state_color(s: JobState) -> Color {
    match s {
        JobState::Running => Color::Yellow,
        JobState::Completed { exitCode } => if exitCode == 0 {
            Color::Green
        } else {
            Color::Red
        },
        JobState::Killed => dimmed(),
        JobState::Errored(_) => Color::Red,
    }
}

fn stateColor(s: &JobState) -> (r: Color)
    ensures
        r == state_color(*s),
{
    match s {
        JobState::Running => Color::Yellow,
        JobState::Completed { exitCode } => if *exitCode == 0 {
            Color::Green
        } else {
            Color::Red
        },
        JobState::Killed => dimmed(),
        JobState::Errored(_) => Color::Red,
    }
}

/// Which of the task's lines are shown.
pub open spec fn scope_text(s: InspectorState) -> Seq<char> {
    if s.totalLines == 0 {
        Seq::empty()
    } else if s.lines@.len() == 0 {
        dec(s.totalLines as nat) + " total"@
    } else {
        dec(s.totalLines as nat) + " total, showing "@ + dec(s.firstLine as nat) + "-"@ + dec(
            (s.firstLine + s.lines@.len() - 1) as nat,
        )
    }
}

/// Lines that are gone for good, and lines that paging back would show.
pub open spec fn missing_text(s: InspectorState) -> Seq<char> {
    let dropped = dec(s.earliestBuffered as nat) + " dropped"@;
    let earlier = dec(minus(s.firstLine as int, s.earliestBuffered as int) as nat)
        + " earlier (PgUp)"@;
    if s.earliestBuffered > 0 && s.firstLine > s.earliestBuffered {
        " \u{00B7} "@ + dropped + ", "@ + earlier
    } else if s.earliestBuffered > 0 {
        " \u{00B7} "@ + dropped
    } else if s.firstLine > s.earliestBuffered {
        " \u{00B7} "@ + earlier
    } else {
        Seq::empty()
    }
}

/// The status line of the inspector.
pub open spec fn status_text(s: InspectorState) -> Seq<char> {
    " "@ + state_label(s.state) + " \u{00B7} "@ + scope_text(s) + missing_text(s) + " "@
}

/// The hint line of the inspector.
pub open spec fn inspector_hint(s: InspectorState) -> Seq<char> {
    " "@ + (if s.autoscroll {
        "tail"@
    } else {
        "scrolled"@
    }) + " \u{00B7} \u{2191}\u{2193}/jk PgUp/PgDn Home/End scroll"@ + (if s.state is Running {
        "  K kill"@
    } else {
        ""@
    }) + "  q/Esc back "@
}

/// The first `k` rows of output, from row `y` on.
pub open spec fn output_rows(s: InspectorState, x: u16, y: int, width: u16, k: int) -> Seq<DrawV> {
    Seq::new(
        k as nat,
        |i: int|
            DrawV::Text {
                x,
                y: (y + i) as u16,
                text: sv(
                    truncate_line(s.lines@[s.scrollOffset + i]@, width as int),
                    colored(Color::White).bg(backdrop()),
                ),
                width,
            },
    )
}

impl InspectorState {
    /// The inspector laid out in `area`: it remembers the viewport's height,
    /// and the tail stays in view while autoscroll is on.
    pub open spec fn laid_out(self, area: Rect) -> InspectorState {
        let inner = inside_borders(center_rect(area, 100, 30));
        if inner.height < 4 {
            self
        } else {
            let t = InspectorState { lastViewportRows: (inner.height - 4) as usize, ..self };
            if self.autoscroll {
                InspectorState { scrollOffset: t.bottom() as usize, ..t }
            } else {
                t
            }
        }
    }

    fn statusText(&self) -> (r: String)
        requires
            self.firstLine + self.lines@.len() <= u64::MAX,
        ensures
            r@ == status_text(*self),
    {
        let mut scope = String::new();
        if self.totalLines == 0 {
        } else if self.lines.len() == 0 {
            scope = decimal(self.totalLines);
            scope.append(" total");
        } else {
            scope = decimal(self.totalLines);
            scope.append(" total, showing ");
            scope.append(decimal(self.firstLine).as_str());
            scope.append("-");
            scope.append(decimal(self.firstLine + (self.lines.len() as u64 - 1)).as_str());
        }
        let mut missing = String::new();
        let recoverable: u64 = self.firstLine.saturating_sub(self.earliestBuffered);
        if self.earliestBuffered > 0 {
            missing = String::from_str(" \u{00B7} ");
            let mut dropped = decimal(self.earliestBuffered);
            dropped.append(" dropped");
            missing.append(dropped.as_str());
        }
        if recoverable > 0 {
            let mut earlier = decimal(recoverable);
            earlier.append(" earlier (PgUp)");
            if self.earliestBuffered > 0 {
                missing.append(", ");
            } else {
                missing = String::from_str(" \u{00B7} ");
            }
            missing.append(earlier.as_str());
        }
        let mut s = String::from_str(" ");
        s.append(stateLabel(&self.state).as_str());
        s.append(" \u{00B7} ");
        s.append(scope.as_str());
        s.append(missing.as_str());
        s.append(" ");
        s
    }

    fn renderOutput(&self, out: &mut Vec<Draw>, r: Rect)
        requires
            r.wf(),
        ensures
            draws(final(out)@) == draws(old(out)@) + output_rows(
                *self,
                r.x,
                r.y as int,
                r.width,
                min(minus(self.lines@.len() as int, self.scrollOffset as int), r.height as int),
            ),
    {
        let mut k: u16 = 0;
        proof {
            assert(draws(out@) =~= draws(old(out)@) + output_rows(
                *self,
                r.x,
                r.y as int,
                r.width,
                0,
            ));
        }
        while k < r.height && self.scrollOffset < self.lines.len() && (k as usize)
            < self.lines.len() - self.scrollOffset
            invariant
                r.wf(),
                k <= min(
                    minus(self.lines@.len() as int, self.scrollOffset as int),
                    r.height as int,
                ),
                draws(out@) == draws(old(out)@) + output_rows(
                    *self,
                    r.x,
                    r.y as int,
                    r.width,
                    k as int,
                ),
            decreases r.height - k,
        {
            let line = &self.lines[self.scrollOffset + k as usize];
            let shown = truncateLine(line.as_str(), r.width as usize);
            emitText(
                out,
                r.x,
                r.y + k,
                shown.as_str(),
                colored(Color::White).bg(backdrop()),
                r.width,
            );
            k = k + 1;
            proof {
                assert(draws(out@) =~= draws(old(out)@) + output_rows(
                    *self,
                    r.x,
                    r.y as int,
                    r.width,
                    k as int,
                ));
            }
        }
    }

    /// Draws the inspector.
    #[verifier::rlimit(60)]
    #[verifier::spinoff_prover]
    pub fn render(&mut self, area: Rect) -> (out: Vec<Draw>)
        requires
            area.wf(),
            old(self).firstLine + old(self).lines@.len() <= u64::MAX,
        ensures
            *final(self) == old(self).laid_out(area),
            draws(out@) == inspector_draws(old(self).laid_out(area), area),
    {
        let popup = centerRect(area, 100, 30);
        let inner = insideBorders(popup);
        let mut title = String::from_str(" /tasks \u{203A} #");
        title.append(decimal(self.id).as_str());
        title.append(" ");
        let mut out: Vec<Draw> = Vec::new();
        emitFrame(&mut out, popup, title.as_str());
        proof {
            assert(draws(out@) =~= panel_frame(popup, title@));
        }
        if inner.height < 4 {
            return out;
        }
        let limit: u16 = inner.width.saturating_sub(2);
        let mut command = String::from_str("$ ");
        command.append(
            commandPreview(
                self.command.as_str(),
                limit as usize,
                limit.saturating_sub(3) as usize,
            ).as_str(),
        );
        emitText(&mut out, inner.x, inner.y, command.as_str(), colored(dimmed()), inner.width);
        let status = self.statusText();
        emitText(
            &mut out,
            inner.x,
            inner.y + 1,
            status.as_str(),
            colored(stateColor(&self.state)),
            inner.width,
        );
        emitRow(&mut out, inner.x, inner.y + 2, inner.width, "\u{2500}", colored(muted()));
        let r = Rect {
            x: inner.x,
            y: inner.y + 3,
            width: inner.width,
            height: inner.height - 4,
        };
        self.lastViewportRows = r.height as usize;
        if self.autoscroll {
            let bottom: usize = self.bottomOffset();
            self.scrollOffset = bottom;
        }
        if self.lines.len() == 0 {
            emitText(&mut out, r.x, r.y, "  (no output yet)", colored(dimmed()), r.width);
        } else {
            self.renderOutput(&mut out, r);
        }
        let mut hint = String::from_str(" ");
        if self.autoscroll {
            hint.append("tail");
        } else {
            hint.append("scrolled");
        }
        hint.append(" \u{00B7} \u{2191}\u{2193}/jk PgUp/PgDn Home/End scroll");
        if !self.state.isTerminal() {
            hint.append("  K kill");
        } else {
            hint.append("");
        }
        hint.append("  q/Esc back ");
        emitText(
            &mut out,
            inner.x,
            inner.y + (inner.height - 1),
            hint.as_str(),
            colored(muted()),
            inner.width,
        );
        proof {
            assert(draws(out@) =~= inspector_draws(*self, area));
        }
        out
    }
}

/// What a laid-out inspector shows in `area`.
pub open spec fn inspector_draws(s: InspectorState, area: Rect) -> Seq<DrawV> {
    let popup = center_rect(area, 100, 30);
    let inner = inside_borders(popup);
    let frame = panel_frame(popup, " /tasks \u{203A} #"@ + dec(s.id as nat) + " "@);
    if inner.height < 4 {
        frame
    } else {
        let limit = minus(inner.width as int, 2);
        let rows = if s.lines@.len() == 0 {
            seq![
                DrawV::Text {
                    x: inner.x,
                    y: (inner.y + 3) as u16,
                    text: sv("  (no output yet)"@, colored(dimmed())),
                    width: inner.width,
                },
            ]
        } else {
            output_rows(
                s,
                inner.x,
                inner.y + 3,
                inner.width,
                min(minus(s.lines@.len() as int, s.scrollOffset as int), inner.height - 4),
            )
        };
        frame.push(
            DrawV::Text {
                x: inner.x,
                y: inner.y,
                text: sv(
                    "$ "@ + command_preview(s.command@, limit, minus(limit, 3)),
                    colored(dimmed()),
                ),
                width: inner.width,
            },
        ).push(
            DrawV::Text {
                x: inner.x,
                y: (inner.y + 1) as u16,
                text: sv(status_text(s), colored(state_color(s.state))),
                width: inner.width,
            },
        ) + fill_row(
            inner.x as int,
            (inner.y + 2) as u16,
            inner.width as int,
            "\u{2500}"@,
            colored(muted()),
        ) + rows.push(
            DrawV::Text {
                x: inner.x,
                y: (inner.y + inner.height - 1) as u16,
                text: sv(inspector_hint(s), colored(muted())),
                width: inner.width,
            },
        )
    }
}

impl JobsPanel {
    /// Draws the panel in `area` at the time `now`.
    pub fn render(&mut self, area: Rect, now: u64) -> (out: Vec<Draw>)
        requires
            old(self).renderable(area),
        ensures
            match old(self).mode {
                Mode::List => draws(out@) == list_draws(*old(self), area, now) && *final(self)
                    == old(self).after_list(area),
                Mode::Inspect(s) => draws(out@) == inspector_draws(s.laid_out(area), area)
                    && *final(self) == (JobsPanel {
                    mode: Mode::Inspect(s.laid_out(area)),
                    ..*old(self)
                }),
            },
    {
        match &mut self.mode {
            Mode::Inspect(s) => {
                return s.render(area);
            },
            Mode::List => {},
        }
        self.renderList(area, now)
    }
}

/// Drawing twice shows the same: what a drawing remembers of the layout does
/// not change what the next one shows.
pub proof fn law_inspector_layout_is_stable(s: InspectorState, area: Rect)
    ensures
        s.laid_out(area).laid_out(area) == s.laid_out(area),
{
}

/// Whether a step of drawing shows the text `t`.
pub open spec fn shows(d: Seq<DrawV>, t: Seq<char>) -> bool {
    exists|i: int| 0 <= i < d.len() && (#[trigger] d[i] matches DrawV::Text { text, .. } && text.text
        == t)
}

/// A row of the list shows the job's number, what it runs where that is short, and how it
/// stands and for how long where there is room.
pub proof fn law_a_row_shows_its_job(
    job: JobInfo,
    selected: bool,
    now: u64,
    x: u16,
    y: u16,
    width: u16,
)
    requires
        width > 44,
        job.command@.len() <= byte_len(job.command@) <= width - 40,
        job.spawnedAt <= now,
        job.state is Running,
        job.completedAt is None,
    ensures
        shows(row_draws(job, selected, now, x, y, width), job.command@),
        shows(
            row_draws(job, selected, now, x, y, width),
            "#"@ + pad_right(dec(job.id as nat), 4),
        ),
{
    let d = row_draws(job, selected, now, x, y, width);
    let row = colored(Color::White).bg(if selected {
        selectedBackdrop()
    } else {
        backdrop()
    });
    let n = fill_row(x as int, y, width as int, " "@, row).len() as int;
    assert(d[n + 1]->Text_text.text == "#"@ + pad_right(dec(job.id as nat), 4));
    assert(d[n + 3]->Text_text.text == job.command@);
}

/// How a job stands is told: that it runs, how it ended, that it was ended or that it
/// failed. Only an exit without an error is green.
pub proof fn law_the_state_of_a_job_is_told(code: i32, e: String, kind: JobKind)
    ensures
        state_label(JobState::Running) == "running"@,
        state_label(JobState::Completed { exitCode: code }) == "exit "@ + dec_int(code as int),
        state_label(JobState::Killed) == "killed"@,
        state_label(JobState::Errored(e)) == "errored"@,
        state_color(JobState::Completed { exitCode: code }) == Color::Green <==> code == 0,
        state_color(JobState::Errored(e)) == Color::Red,
        state_color(JobState::Running) == Color::Yellow,
        job_glyph(kind, JobState::Completed { exitCode: code }).1 == Color::Green <==> code == 0,
        job_glyph(kind, JobState::Errored(e)).1 == Color::Red,
{
}

/// The age of a job is the time from its start to its end, or to now while it runs, told
/// in seconds, in minutes and seconds, or in hours and minutes.
pub proof fn law_the_age_of_a_job_is_told(job: JobInfo, now: u64, s: nat, m: nat, h: nat)
    requires
        job.spawnedAt <= now,
    ensures
        job.completedAt is None ==> age_secs(job, now) == (now - job.spawnedAt) / 1000,
        job.completedAt matches Some(t) ==> t >= job.spawnedAt ==> age_secs(job, now) == (t
            - job.spawnedAt) / 1000,
        s < 60 ==> format_age(s) == dec(s) + "s"@,
        s < 60 && 1 <= m < 60 ==> format_age(60 * m + s) == dec(m) + "m"@ + dec2(s) + "s"@,
        s < 60 && m < 60 && 1 <= h ==> format_age((3600 * h + 60 * m + s) as nat) == dec(h) + "h"@
            + dec2(m) + "m"@,
{
    if s < 60 && 1 <= m < 60 {
        assert((60 * m + s) / 60 == m && (60 * m + s) % 60 == s);
    }
    if s < 60 && m < 60 && 1 <= h {
        let t = 3600 * h + 60 * m + s;
        assert(t / 3600 == h);
        assert((t % 3600) / 60 == m);
    }
}

/// The head of the list counts what runs, what has ended and what is scheduled.
pub proof fn law_the_head_counts_the_jobs(p: JobsPanel)
    ensures
        ({
            let n = visible_of(p.jobs@, false).len();
            let head = " "@ + dec(n) + " unfinished \u{00B7} "@ + dec(
                (p.jobs@.len() - n) as nat,
            ) + " finished "@;
            has_prefix(list_header(p), head)
        }),
{
    let n = visible_of(p.jobs@, false).len();
    let head = " "@ + dec(n) + " unfinished \u{00B7} "@ + dec((p.jobs@.len() - n) as nat)
        + " finished "@;
    assert(list_header(p).take(head.len() as int) =~= head);
}

/// The inspector shows the lines of the job from where it is scrolled to, in order, whole
/// where they fit.
pub proof fn law_output_is_shown_in_order(
    s: InspectorState,
    x: u16,
    y: int,
    width: u16,
    k: int,
    i: int,
)
    requires
        0 <= i < k,
        s.scrollOffset + k <= s.lines@.len(),
        0 <= y,
        y + k <= u16::MAX,
        s.lines@[s.scrollOffset + i]@.len() <= width,
    ensures
        output_rows(s, x, y, width, k).len() == k,
        output_rows(s, x, y, width, k)[i] is Text,
        output_rows(s, x, y, width, k)[i]->Text_y == y + i,
        output_rows(s, x, y, width, k)[i]->Text_text.text == s.lines@[s.scrollOffset + i]@,
{
}

/// A wake source is listed with its number, its kind, what it is about and how often it
/// fired.
pub proof fn law_a_wake_source_is_listed(w: WakeSourceInfo)
    requires
        w.prompt is None,
    ensures
        wake_line(w) == "  "@ + wake_glyph(w.kind) + " #"@ + dec(w.id as nat) + " ["@ + w.kindName@
            + "] "@ + w.summary@ + " \u{00B7} "@ + dec(w.firesSoFar as nat) + " fires"@,
{
    assert(wake_line(w) =~= "  "@ + wake_glyph(w.kind) + " #"@ + dec(w.id as nat) + " ["@
        + w.kindName@ + "] "@ + w.summary@ + " \u{00B7} "@ + dec(w.firesSoFar as nat) + " fires"@);
}

/// The jobs are drawn one below the other from the first that is in view, and the chosen
/// one is marked.
pub proof fn law_jobs_are_drawn_in_order(p: JobsPanel, now: u64, r: Rect, k: int)
    requires
        0 <= k,
        r.y + k <= u16::MAX,
    ensures
        job_rows(p, now, r, k + 1) == job_rows(p, now, r, k) + row_draws(
            p.jobs@[p.visible()[p.scrollOffset + k] as int],
            p.scrollOffset + k == p.selected,
            now,
            r.x,
            (r.y + k) as u16,
            r.width,
        ),
        job_rows(p, now, r, 0).len() == 0,
{
}

/// The inspector tells how the job stands, how many lines there are and which are shown.
pub proof fn law_the_inspector_tells_what_it_shows(s: InspectorState)
    requires
        s.lines@.len() > 0,
        s.totalLines > 0,
    ensures
        scope_text(s) == dec(s.totalLines as nat) + " total, showing "@ + dec(s.firstLine as nat)
            + "-"@ + dec((s.firstLine + s.lines@.len() - 1) as nat),
        has_prefix(status_text(s), " "@ + state_label(s.state)),
        s.earliestBuffered == 0 && s.firstLine == 0 ==> missing_text(s).len() == 0,
        s.earliestBuffered > 0 && s.firstLine == s.earliestBuffered ==> missing_text(s)
            == " \u{00B7} "@ + (dec(s.earliestBuffered as nat) + " dropped"@),
        s.earliestBuffered == 0 && s.firstLine > 0 ==> missing_text(s) == " \u{00B7} "@ + (dec(
            s.firstLine as nat,
        ) + " earlier (PgUp)"@),
{
    let head = " "@ + state_label(s.state);
    assert(status_text(s).take(head.len() as int) =~= head);
}

/// Where no job is listed, the list says whether there are any.
pub proof fn law_an_empty_list_says_why(p: JobsPanel)
    ensures
        p.jobs@.len() > 0 && !p.showFinished ==> empty_message(p)
            == "  no unfinished jobs \u{2014} press f to show finished"@,
        p.jobs@.len() == 0 ==> empty_message(p)
            == "  no jobs \u{2014} call shell with runInBackground: true to start one"@,
{
}

} // verus!
