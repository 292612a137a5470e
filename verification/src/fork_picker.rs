//! Fork picker: interactive popup for switching conversation forks.
//!
//! Shows saved forks with their label, relative time, and fork ID. The user
//! picks one to switch to, or presses Esc to close.

use vstd::prelude::*;
use vstd::string::*;
use crate::draw::{
    Color, Draw, DrawV, Rect, Style, centered, centeredIn, colored, draws, emit, emitLine,
    insideBorders, inside_borders, max, min, minus, row_of, span, sv,
};
use crate::keys::{KeyCode, KeyEvent};
use crate::text::{dec, decimal, firstChars};

verus! {

/// A saved fork. `createdAt` is in seconds.
#[derive(Clone, Debug)]
pub struct Fork {
    pub id: String,
    pub label: String,
    pub createdAt: u64,
}

/// Result of handling a key event in the picker.
#[derive(Debug)]
pub enum ForkAction {
    /// Key consumed, no state change.
    Stay,
    /// Close the picker.
    Close,
    /// Switch to a fork by ID. The picker stays open, waiting.
    Switch(String),
}

/// Whether the picker is waiting for a switch result.
#[derive(Clone, Copy, Debug, PartialEq, Eq, Structural)]
pub enum PickerState {
    Browsing,
    Pending,
}

/// Display-ready fork data for one picker row.
#[derive(Debug)]
pub struct ForkRow {
    pub forkId: String,
    pub label: String,
    pub relativeTime: String,
}

/// Interactive fork picker.
pub struct ForkPicker {
    pub rows: Vec<ForkRow>,
    pub selected: usize,
    pub scrollOffset: usize,
    pub state: PickerState,
    pub error: Option<String>,
    pub lastVisibleCount: usize,
}

// ---- texts ----

/// A moment `ts` as seen at `now`, both in seconds.
pub open spec fn relative_time(ts: u64, now: u64) -> Seq<char> {
    let delta = minus(now as int, ts as int);
    if delta < 60 {
        "just now"@
    } else if delta < 3600 {
        dec((delta / 60) as nat) + "m ago"@
    } else if delta < 86400 {
        dec((delta / 3600) as nat) + "h ago"@
    } else if delta < 172800 {
        "yesterday"@
    } else if delta < 604800 {
        dec((delta / 86400) as nat) + "d ago"@
    } else {
        dec((delta / 604800) as nat) + "w ago"@
    }
}

/// Formats a timestamp as a relative time string.
pub fn formatRelativeTime(ts: u64, now: u64) -> (r: String)
    ensures
        r@ == relative_time(ts, now),
{
    let delta: u64 = now.saturating_sub(ts);
    if delta < 60 {
        String::from_str("just now")
    } else if delta < 3600 {
        let mut s = decimal(delta / 60);
        s.append("m ago");
        s
    } else if delta < 86400 {
        let mut s = decimal(delta / 3600);
        s.append("h ago");
        s
    } else if delta < 172800 {
        String::from_str("yesterday")
    } else if delta < 604800 {
        let mut s = decimal(delta / 86400);
        s.append("d ago");
        s
    } else {
        let mut s = decimal(delta / 604800);
        s.append("w ago");
        s
    }
}

/// `s` in at most `n` characters; where something is cut and there is room, the
/// last of them is an ellipsis.
pub open spec fn truncated(s: Seq<char>, n: int) -> Seq<char> {
    if s.len() <= n {
        s
    } else if n > 3 {
        s.take(n - 1) + "\u{2026}"@
    } else {
        s.take(n)
    }
}

/// Truncates a string to fit within `maxChars`.
pub fn truncate(s: &str, maxChars: usize) -> (r: String)
    ensures
        r@ == truncated(s@, maxChars as int),
{
    if s.unicode_len() <= maxChars {
        String::from_str(s)
    } else if maxChars > 3 {
        let mut out = firstChars(s, maxChars - 1);
        out.append("\u{2026}");
        out
    } else {
        firstChars(s, maxChars)
    }
}

// ---- state ----

impl ForkPicker {
    /// A picker that was just opened on `forks`.
    pub open spec fn is_new(self, forks: Seq<Fork>, now: u64) -> bool {
        &&& self.rows@.len() == forks.len()
        &&& forall|i: int|
            0 <= i < forks.len() ==> (#[trigger] self.rows@[i]).forkId == forks[i].id
                && self.rows@[i].label == forks[i].label && self.rows@[i].relativeTime@
                == relative_time(forks[i].createdAt, now)
        &&& self.selected == 0
        &&& self.scrollOffset == 0
        &&& self.state is Browsing
        &&& self.error is None
        &&& self.lastVisibleCount == 5
    }

    /// At least one row was in view, and the cursor is on a row or at the top.
    pub open spec fn wf(self) -> bool {
        self.lastVisibleCount >= 1 && (self.selected == 0 || self.selected < self.rows@.len())
    }

    /// The picker with the window moved so that the cursor is in it.
    pub open spec fn scrolled(self) -> ForkPicker {
        let top = min(self.scrollOffset as int, self.selected as int);
        ForkPicker {
            scrollOffset: if self.selected >= top + self.lastVisibleCount {
                (self.selected - (self.lastVisibleCount - 1)) as usize
            } else {
                top as usize
            },
            ..self
        }
    }

    /// Whether the row under the cursor is in the window.
    pub open spec fn in_view(self) -> bool {
        self.scrollOffset <= self.selected < self.scrollOffset + self.lastVisibleCount
    }

    /// The picker after a key, the action aside.
    #[verifier::opaque]
    pub open spec fn after_key(self, key: KeyCode) -> ForkPicker {
        if self.state is Pending {
            self
        } else {
            let p = ForkPicker { error: None, ..self };
            match key {
                KeyCode::Enter => if self.selected < self.rows@.len() {
                    ForkPicker { state: PickerState::Pending, ..p }
                } else {
                    p
                },
                KeyCode::Up => p.up(),
                KeyCode::Down => p.down(),
                KeyCode::Char(c) => if c == 'k' {
                    p.up()
                } else if c == 'j' {
                    p.down()
                } else {
                    p
                },
                _ => p,
            }
        }
    }

    /// The picker with the cursor one row up.
    pub open spec fn up(self) -> ForkPicker {
        if self.selected > 0 {
            (ForkPicker { selected: (self.selected - 1) as usize, ..self }).scrolled()
        } else {
            self
        }
    }

    /// The picker with the cursor one row down.
    pub open spec fn down(self) -> ForkPicker {
        if self.selected + 1 < self.rows@.len() {
            (ForkPicker { selected: (self.selected + 1) as usize, ..self }).scrolled()
        } else {
            self
        }
    }

    /// Builds the picker from saved forks, at the time `now` in seconds.
    pub fn new(forks: &Vec<Fork>, now: u64) -> (r: Self)
        ensures
            r.is_new(forks@, now),
            r.wf(),
    {
        let mut rows: Vec<ForkRow> = Vec::new();
        let mut i: usize = 0;
        while i < forks.len()
            invariant
                i <= forks.len(),
                rows@.len() == i,
                forall|j: int|
                    0 <= j < i ==> (#[trigger] rows@[j]).forkId == forks@[j].id && rows@[j].label
                        == forks@[j].label && rows@[j].relativeTime@ == relative_time(
                        forks@[j].createdAt,
                        now,
                    ),
            decreases forks.len() - i,
        {
            let f = &forks[i];
            rows.push(
                ForkRow {
                    forkId: f.id.clone(),
                    label: f.label.clone(),
                    relativeTime: formatRelativeTime(f.createdAt, now),
                },
            );
            i = i + 1;
        }
        ForkPicker {
            rows,
            selected: 0,
            scrollOffset: 0,
            state: PickerState::Browsing,
            error: None,
            lastVisibleCount: 5,
        }
    }

    /// Handles a key event. While a switch is pending only Esc does something.
    pub fn handleKey(&mut self, key: KeyEvent) -> (r: ForkAction)
        requires
            old(self).wf(),
        ensures
            *final(self) == old(self).after_key(key.code),
            final(self).wf(),
            r is Close <==> key.code == KeyCode::Esc,
            match r {
                ForkAction::Switch(id) => {
                    &&& old(self).state is Browsing
                    &&& key.code == KeyCode::Enter
                    &&& old(self).selected < old(self).rows@.len()
                    &&& id == old(self).rows@[old(self).selected as int].forkId
                },
                _ => !(old(self).state is Browsing && key.code == KeyCode::Enter && old(
                    self,
                ).selected < old(self).rows@.len()),
            },
    {
        proof {
            reveal(ForkPicker::after_key);
        }
        match self.state {
            PickerState::Pending => {
                return match key.code {
                    KeyCode::Esc => ForkAction::Close,
                    _ => ForkAction::Stay,
                };
            },
            PickerState::Browsing => {},
        }
        self.error = None;
        match key.code {
            KeyCode::Esc => ForkAction::Close,
            KeyCode::Enter => {
                if self.selected < self.rows.len() {
                    self.state = PickerState::Pending;
                    ForkAction::Switch(self.rows[self.selected].forkId.clone())
                } else {
                    ForkAction::Stay
                }
            },
            KeyCode::Up => {
                self.moveUp();
                ForkAction::Stay
            },
            KeyCode::Down => {
                self.moveDown();
                ForkAction::Stay
            },
            KeyCode::Char(c) => {
                if c == 'k' {
                    self.moveUp();
                } else if c == 'j' {
                    self.moveDown();
                }
                ForkAction::Stay
            },
            _ => ForkAction::Stay,
        }
    }

    fn moveUp(&mut self)
        requires
            old(self).wf(),
        ensures
            *final(self) == old(self).up(),
            final(self).wf(),
    {
        if self.selected > 0 {
            self.selected = self.selected - 1;
            self.adjustScroll();
        }
    }

    fn moveDown(&mut self)
        requires
            old(self).wf(),
        ensures
            *final(self) == old(self).down(),
            final(self).wf(),
    {
        if self.selected < self.rows.len() && self.rows.len() - self.selected > 1 {
            self.selected = self.selected + 1;
            self.adjustScroll();
        }
    }

    /// Switch failed: shows the error and returns to browsing.
    pub fn switchFailed(&mut self, msg: String)
        ensures
            *final(self) == (ForkPicker {
                error: Some(msg),
                state: PickerState::Browsing,
                ..*old(self)
            }),
    {
        self.error = Some(msg);
        self.state = PickerState::Browsing;
    }

    /// Ensures that the selected item is visible in the scroll window.
    pub fn adjustScroll(&mut self)
        requires
            old(self).lastVisibleCount >= 1,
        ensures
            *final(self) == old(self).scrolled(),
            final(self).in_view(),
    {
        if self.selected < self.scrollOffset {
            self.scrollOffset = self.selected;
        }
        if self.selected - self.scrollOffset >= self.lastVisibleCount {
            self.scrollOffset = self.selected - (self.lastVisibleCount - 1);
        }
    }
}

// ---- what is shown ----

/// The popup's background.
#[verifier::allow_in_spec]
pub fn backdrop() -> Color
    returns
        Color::Rgb(15, 15, 25),
{
    Color::Rgb(15, 15, 25)
}

/// The popup: seven tenths of the area, at least 40 by 10 cells, clear of the
/// edges.
pub open spec fn popup_of(area: Rect) -> Rect {
    centered(
        area,
        min(max(area.width * 7 / 10, 40), minus(area.width as int, 4)),
        min(max(area.height * 7 / 10, 10), minus(area.height as int, 2)),
    )
}

/// How many forks fit into an inner area of `height` rows, two rows each, above
/// a footer of two rows.
pub open spec fn visible_forks(height: int) -> int {
    max(minus(height, 2) / 2, 1)
}

/// What the `k`-th row in view shows, from row `y` on.
pub open spec fn fork_row(p: ForkPicker, inner: Rect, k: int) -> Seq<DrawV> {
    let at = p.scrollOffset + k;
    let row = p.rows@[at];
    let here = at == p.selected;
    let bg = if here {
        Color::Rgb(40, 40, 80)
    } else {
        backdrop()
    };
    let label = colored(Color::White).bg(bg);
    let meta = colored(Color::DarkGray).bg(bg);
    let y = (inner.y + 2 * k) as u16;
    let w = inner.width as int;
    let lines = seq![
        row_of(
            inner.x,
            y,
            inner.width,
            (if here {
                "\u{25B8} "@
            } else {
                "  "@
            }) + truncated(row.label@, minus(w, 3)),
            label,
        ),
        row_of(
            inner.x,
            (y + 1) as u16,
            inner.width,
            truncated("  "@ + row.forkId@ + "  "@ + row.relativeTime@, w),
            meta,
        ),
    ];
    if here {
        seq![
            DrawV::Fill {
                rect: Rect { x: inner.x, y, width: inner.width, height: 2 },
                style: label,
            },
        ] + lines
    } else {
        lines
    }
}

/// The first `k` rows in view.
pub open spec fn fork_rows(p: ForkPicker, inner: Rect, k: int) -> Seq<DrawV>
    decreases k,
{
    if k <= 0 {
        Seq::empty()
    } else {
        fork_rows(p, inner, k - 1) + fork_row(p, inner, k - 1)
    }
}

/// The footer from row `foot` on: an error or the pending note, then the hints.
pub open spec fn footer_draws(p: ForkPicker, inner: Rect, foot: u16) -> Seq<DrawV> {
    let w = inner.width as int;
    let note = match p.error {
        Some(e) => seq![
            row_of(
                inner.x,
                foot,
                inner.width,
                truncated(e@, w),
                colored(Color::Red).bg(backdrop()),
            ),
        ],
        None => if p.state is Pending {
            seq![
                row_of(
                    inner.x,
                    foot,
                    inner.width,
                    "Switching\u{2026}"@,
                    colored(Color::Yellow).bg(backdrop()),
                ),
            ]
        } else {
            Seq::empty()
        },
    };
    let hints = if p.state is Pending {
        "Esc: cancel"@
    } else {
        "\u{2191}\u{2193}/jk: navigate  Enter: switch  Esc: close"@
    };
    note.push(
        row_of(
            inner.x,
            (foot + 1) as u16,
            inner.width,
            truncated(hints, w),
            colored(Color::DarkGray).bg(backdrop()),
        ),
    )
}

/// What the picker shows in `area`.
pub open spec fn picker_draws(p: ForkPicker, area: Rect) -> Seq<DrawV> {
    let popup = popup_of(area);
    let inner = inside_borders(popup);
    let frame = seq![
        DrawV::Fill { rect: popup, style: colored(Color::White).bg(backdrop()) },
        DrawV::Frame {
            rect: popup,
            title: sv(" Forks "@, Style::plain()),
            border: colored(Color::Cyan).bg(backdrop()),
            fill: Style::plain(),
        },
    ];
    if inner.height < 3 || inner.width < 10 {
        frame
    } else {
        let grey = colored(Color::DarkGray).bg(backdrop());
        let w = inner.width as int;
        let foot = (popup.y + popup.height - 2) as u16;
        let body = if p.rows@.len() == 0 {
            seq![
                row_of(
                    (inner.x + 1) as u16,
                    inner.y,
                    (w - 1) as u16,
                    "No saved forks."@,
                    grey,
                ),
            ]
        } else {
            fork_rows(
                p,
                inner,
                min(
                    visible_forks(inner.height as int),
                    minus(p.rows@.len() as int, p.scrollOffset as int),
                ),
            )
        };
        frame + body + footer_draws(p, inner, foot)
    }
}

impl ForkPicker {
    /// The picker after it was drawn in `area`: it remembers how many rows fit.
    pub open spec fn laid_out(self, area: Rect) -> ForkPicker {
        let inner = inside_borders(popup_of(area));
        if inner.height < 3 || inner.width < 10 {
            self
        } else {
            ForkPicker {
                lastVisibleCount: visible_forks(inner.height as int) as usize,
                ..self
            }
        }
    }

    fn renderRows(&self, out: &mut Vec<Draw>, inner: Rect, count: u16)
        requires
            inner.wf(),
            inner.y + 2 * count <= u16::MAX,
        ensures
            draws(final(out)@) == draws(old(out)@) + fork_rows(
                *self,
                inner,
                min(count as int, minus(self.rows@.len() as int, self.scrollOffset as int)),
            ),
    {
        let mut k: u16 = 0;
        let w: usize = inner.width as usize;
        proof {
            assert(draws(out@) =~= draws(old(out)@) + fork_rows(*self, inner, 0));
        }
        while k < count && self.scrollOffset < self.rows.len() && (k as usize) < self.rows.len()
            - self.scrollOffset
            invariant
                w == inner.width,
                inner.y + 2 * count <= u16::MAX,
                k <= min(count as int, minus(self.rows@.len() as int, self.scrollOffset as int)),
                draws(out@) == draws(old(out)@) + fork_rows(*self, inner, k as int),
            decreases count - k,
        {
            let at: usize = self.scrollOffset + k as usize;
            let row = &self.rows[at];
            let here = at == self.selected;
            let bg = if here {
                Color::Rgb(40, 40, 80)
            } else {
                backdrop()
            };
            let label = colored(Color::White).bg(bg);
            let meta = colored(Color::DarkGray).bg(bg);
            let y: u16 = inner.y + 2 * k;
            let ghost before = draws(out@);
            if here {
                emit(
                    out,
                    Draw::Fill {
                        rect: Rect { x: inner.x, y, width: inner.width, height: 2 },
                        style: label,
                    },
                );
            }
            let mut first = String::from_str(
                if here {
                    "\u{25B8} "
                } else {
                    "  "
                },
            );
            first.append(truncate(row.label.as_str(), w.saturating_sub(3)).as_str());
            emitLine(out, inner.x, y, inner.width, first.as_str(), label);
            let mut second = String::from_str("  ");
            second.append(row.forkId.as_str());
            second.append("  ");
            second.append(row.relativeTime.as_str());
            emitLine(
                out,
                inner.x,
                y + 1,
                inner.width,
                truncate(second.as_str(), w).as_str(),
                meta,
            );
            proof {
                assert(draws(out@) =~= before + fork_row(*self, inner, k as int));
            }
            k = k + 1;
            proof {
                assert(draws(out@) =~= draws(old(out)@) + fork_rows(*self, inner, k as int));
            }
        }
    }

    fn renderFooter(&self, out: &mut Vec<Draw>, inner: Rect, foot: u16)
        requires
            foot < u16::MAX,
        ensures
            draws(final(out)@) == draws(old(out)@) + footer_draws(*self, inner, foot),
    {
        let w: usize = inner.width as usize;
        match &self.error {
            Some(e) => {
                emitLine(
                    out,
                    inner.x,
                    foot,
                    inner.width,
                    truncate(e.as_str(), w).as_str(),
                    colored(Color::Red).bg(backdrop()),
                );
            },
            None => {
                if self.state == PickerState::Pending {
                    emitLine(
                        out,
                        inner.x,
                        foot,
                        inner.width,
                        "Switching\u{2026}",
                        colored(Color::Yellow).bg(backdrop()),
                    );
                }
            },
        }
        let hints = if self.state == PickerState::Pending {
            "Esc: cancel"
        } else {
            "\u{2191}\u{2193}/jk: navigate  Enter: switch  Esc: close"
        };
        emitLine(
            out,
            inner.x,
            foot + 1,
            inner.width,
            truncate(hints, w).as_str(),
            colored(Color::DarkGray).bg(backdrop()),
        );
        proof {
            assert(draws(out@) =~= draws(old(out)@) + footer_draws(*self, inner, foot));
        }
    }

    /// Draws the picker as a centered popup overlay.
    #[verifier::rlimit(60)]
    #[verifier::spinoff_prover]
    pub fn render(&mut self, area: Rect) -> (out: Vec<Draw>)
        requires
            area.wf(),
            area.width * 7 <= u16::MAX,
            area.height * 7 <= u16::MAX,
        ensures
            *final(self) == old(self).laid_out(area),
            draws(out@) == picker_draws(*old(self), area),
    {
        let wide: u16 = area.width * 7 / 10;
        let w0: u16 = if wide > 40 {
            wide
        } else {
            40
        };
        let maxW: u16 = area.width.saturating_sub(4);
        let tall: u16 = area.height * 7 / 10;
        let h0: u16 = if tall > 10 {
            tall
        } else {
            10
        };
        let maxH: u16 = area.height.saturating_sub(2);
        let popup = centeredIn(
            area,
            if w0 < maxW {
                w0
            } else {
                maxW
            },
            if h0 < maxH {
                h0
            } else {
                maxH
            },
        );
        let inner = insideBorders(popup);
        let mut out: Vec<Draw> = Vec::new();
        emit(
            &mut out,
            Draw::Fill { rect: popup, style: colored(Color::White).bg(backdrop()) },
        );
        emit(
            &mut out,
            Draw::Frame {
                rect: popup,
                title: span(" Forks ", Style::plain()),
                border: colored(Color::Cyan).bg(backdrop()),
                fill: Style::plain(),
            },
        );
        let ghost frame = draws(out@);
        if inner.height < 3 || inner.width < 10 {
            proof {
                assert(draws(out@) =~= picker_draws(*old(self), area));
            }
            return out;
        }
        let grey = colored(Color::DarkGray).bg(backdrop());
        let half: u16 = inner.height.saturating_sub(2) / 2;
        let count: u16 = if half > 1 {
            half
        } else {
            1
        };
        if self.rows.len() == 0 {
            emitLine(
                &mut out,
                inner.x + 1,
                inner.y,
                inner.width - 1,
                "No saved forks.",
                grey,
            );
        } else {
            self.renderRows(&mut out, inner, count);
        }
        let foot: u16 = popup.y + (popup.height - 2);
        self.renderFooter(&mut out, inner, foot);
        self.lastVisibleCount = count as usize;
        proof {
            assert(draws(out@) =~= picker_draws(*old(self), area));
        }
        out
    }
}

// ---- laws ----

/// After the cursor moved, its row is in view.
pub proof fn law_cursor_row_is_in_view(p: ForkPicker)
    requires
        p.wf(),
    ensures
        p.selected > 0 ==> p.up().in_view(),
        p.selected + 1 < p.rows@.len() ==> p.down().in_view(),
{
}

/// A failed switch can be tried again, and the next key takes its error away.
pub proof fn law_failed_switch_returns_to_browsing(p: ForkPicker, msg: String, key: KeyCode)
    ensures
        ({
            let q = ForkPicker { error: Some(msg), state: PickerState::Browsing, ..p };
            q.after_key(key).error is None && (key == KeyCode::Enter && p.selected < p.rows@.len()
                ==> q.after_key(key).state is Pending)
        }),
{
    reveal(ForkPicker::after_key);
}

/// Every fork is listed in its order, with its id, its label and how old it is, and the
/// first one is chosen.
pub proof fn law_every_fork_is_listed(p: ForkPicker, forks: Seq<Fork>, now: u64, i: int)
    requires
        p.is_new(forks, now),
        0 <= i < forks.len(),
    ensures
        p.rows@.len() == forks.len(),
        p.rows@[i].forkId@ == forks[i].id@,
        p.rows@[i].label@ == forks[i].label@,
        p.rows@[i].relativeTime@ == relative_time(forks[i].createdAt, now),
        p.selected == 0,
        p.state is Browsing,
{
}

/// The arrows move the choice by one within the list; enter waits for the fork that is
/// chosen, and while it waits no key changes anything.
pub proof fn law_the_choice_of_a_fork(p: ForkPicker, key: KeyCode)
    requires
        p.wf(),
    ensures
        ({
            let q = p.after_key(key);
            let up = key == KeyCode::Up || key == KeyCode::Char('k');
            let down = key == KeyCode::Down || key == KeyCode::Char('j');
            &&& p.state is Pending ==> q == p
            &&& q.rows == p.rows
            &&& p.state is Browsing && up && p.selected > 0 ==> q.selected == p.selected - 1
            &&& p.state is Browsing && up && p.selected == 0 ==> q.selected == 0
            &&& p.state is Browsing && down && p.selected + 1 < p.rows@.len() ==> q.selected
                == p.selected + 1
            &&& p.state is Browsing && down && p.selected + 1 >= p.rows@.len() ==> q.selected
                == p.selected
            &&& p.state is Browsing && key == KeyCode::Enter && p.selected < p.rows@.len()
                ==> q.state is Pending && q.selected == p.selected
            &&& q.state is Pending ==> p.state is Pending || key == KeyCode::Enter
            &&& !up && !down ==> q.selected == p.selected
        }),
{
    assert(p.rows.len() == p.rows@.len());
    reveal(ForkPicker::after_key);
}

/// How old a fork is, is told in the largest unit that fits, rounded down.
pub proof fn law_ages_are_told_in_whole_units(ts: u64, now: u64, n: nat)
    requires
        ts <= now,
    ensures
        now - ts < 60 ==> relative_time(ts, now) == "just now"@,
        1 <= n < 60 && 60 * n <= now - ts < 60 * n + 60 ==> relative_time(ts, now) == dec(n)
            + "m ago"@,
        1 <= n < 24 && 3600 * n <= now - ts < 3600 * n + 3600 ==> relative_time(ts, now) == dec(n)
            + "h ago"@,
        86_400 <= now - ts < 172_800 ==> relative_time(ts, now) == "yesterday"@,
        2 <= n < 7 && 86_400 * n <= now - ts < 86_400 * n + 86_400 ==> relative_time(ts, now)
            == dec(n) + "d ago"@,
        1 <= n && 604_800 * n <= now - ts < 604_800 * n + 604_800 ==> relative_time(ts, now)
            == dec(n) + "w ago"@,
        ts > now ==> relative_time(ts, now) == "just now"@,
{
}

/// A text that is cut fits, and shows how it begins.
pub proof fn law_a_cut_label_fits(s: Seq<char>, n: int)
    requires
        0 <= n,
    ensures
        truncated(s, n).len() <= n,
        s.len() <= n ==> truncated(s, n) == s,
        n > 3 && s.len() > n ==> truncated(s, n).last() == '\u{2026}' && truncated(
            s,
            n,
        ).drop_last() == s.take(n - 1),
{
    reveal_strlit("\u{2026}");
    if n > 3 && s.len() > n {
        assert(truncated(s, n).drop_last() =~= s.take(n - 1));
    }
}

/// A fork is drawn with its label where it fits, its id and its age, and the chosen one
/// is marked.
pub proof fn law_a_fork_is_drawn(p: ForkPicker, inner: Rect, k: int)
    requires
        0 <= k,
        p.scrollOffset + k < p.rows@.len(),
        p.rows@[p.scrollOffset + k].label@.len() <= minus(inner.width as int, 3),
    ensures
        ({
            let at = p.scrollOffset + k;
            let here = at == p.selected;
            let d = fork_row(p, inner, k);
            let n = d.len() as int;
            let mark = if here {
                "\u{25B8} "@
            } else {
                "  "@
            };
            &&& n == (if here {
                3int
            } else {
                2
            })
            &&& d[n - 2] is Para
            &&& (d[n - 2]->Para_lines)[0][0].text == mark + p.rows@[at].label@
            &&& d[n - 1] is Para
            &&& (d[n - 1]->Para_lines)[0][0].text == truncated(
                "  "@ + p.rows@[at].forkId@ + "  "@ + p.rows@[at].relativeTime@,
                inner.width as int,
            )
        }),
{
}

/// What went wrong is shown at the foot, and that a switch is on its way.
pub proof fn law_the_foot_tells_how_it_stands(p: ForkPicker, inner: Rect, foot: u16)
    ensures
        p.error matches Some(e) ==> e@.len() <= inner.width ==> (footer_draws(
            p,
            inner,
            foot,
        )[0]->Para_lines)[0][0].text == e@,
        p.error is None && p.state is Pending ==> (footer_draws(
            p,
            inner,
            foot,
        )[0]->Para_lines)[0][0].text == "Switching\u{2026}"@,
        p.error is None && p.state is Browsing ==> footer_draws(p, inner, foot).len() == 1,
{
}

} // verus!
