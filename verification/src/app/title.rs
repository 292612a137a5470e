//! The title of the host terminal's window.

use vstd::prelude::*;
use vstd::string::*;
use crate::draw::minus;
use crate::text::opt_text;

verus! {

/// Shown while a topic is set and the agent is idle. Unlike every frame of the
/// animation, so that a still title reads as idle.
pub const TITLE_IDLE_GLYPH: &'static str = "\u{1F0B1}";

/// Shown when work was completed while the window was not focused.
pub const TITLE_UNSEEN_GLYPH: &'static str = "\u{2709}\u{FE0E}";

/// Shown when a permission prompt waits while the window was not focused.
pub const TITLE_PERMIT_GLYPH: &'static str = "\u{26A0}\u{FE0E}";

/// The title for a topic behind a glyph; without a topic, the name of the program.
pub open spec fn title_text(glyph: Seq<char>, topic: Option<Seq<char>>) -> Seq<char> {
    match topic {
        Some(t) => if t.len() > 0 {
            glyph + " "@ + t
        } else {
            "flatline"@
        },
        None => "flatline"@,
    }
}

/// The title for a topic behind a glyph.
pub fn titleText(glyph: &str, topic: &Option<String>) -> (r: String)
    ensures
        r@ == title_text(glyph@, opt_text(*topic)),
{
    match topic {
        Some(t) => {
            if t.as_str().unicode_len() > 0 {
                let mut s = String::from_str(glyph);
                s.append(" ");
                s.append(t.as_str());
                return s;
            }
        },
        None => {},
    }
    String::from_str("flatline")
}

/// The sequence that sets the window's title.
pub fn writeTerminalTitle(glyph: &str, topic: &Option<String>) -> (r: String)
    ensures
        r@ == "\x1b]2;"@ + title_text(glyph@, opt_text(*topic)) + "\x07"@,
{
    let mut s = String::from_str("\x1b]2;");
    s.append(titleText(glyph, topic).as_str());
    s.append("\x07");
    s
}

// ---- the animation ----

/// How many frames the animation has: four cards, and after each of them five
/// frames that turn it.
pub const FRAMES: usize = 24;

/// The glyph of a frame. The bars and the edge are padded with spaces that do not
/// break, so that the topic stays in its column.
pub open spec fn frame_glyph(i: int) -> Seq<char> {
    let at = i % 6;
    if at == 0 {
        if i == 6 {
            "\u{1F0A1}"@
        } else if i == 18 {
            "\u{1F0DF}"@
        } else {
            "\u{1F0A0}"@
        }
    } else if at == 3 {
        "\u{00A0}\u{00A0}"@
    } else if at == 1 || at == 5 {
        "\u{2337}"@
    } else {
        "|\u{00A0}"@
    }
}

/// How long a frame stays, in milliseconds.
pub open spec fn frame_dwell(i: int) -> int {
    let at = i % 6;
    if at == 0 {
        600
    } else if at == 3 {
        100
    } else {
        80
    }
}

/// A card that turns over and over.
#[derive(Clone, Copy, Debug, PartialEq, Eq, Structural)]
pub struct TitleSpinner {
    pub idx: usize,
    pub lastAdvance: u64,
}

impl TitleSpinner {
    /// The spinner shows one of its frames.
    pub open spec fn wf(self) -> bool {
        self.idx < FRAMES
    }

    #[verifier::allow_in_spec]
    pub fn new(now: u64) -> TitleSpinner
        returns
            (TitleSpinner { idx: 0, lastAdvance: now }),
    {
        TitleSpinner { idx: 0, lastAdvance: now }
    }

    /// The glyph that is shown.
    pub fn current(&self) -> (r: &'static str)
        ensures
            r@ == frame_glyph(self.idx as int),
    {
        let at: usize = self.idx % 6;
        if at == 0 {
            if self.idx == 6 {
                "\u{1F0A1}"
            } else if self.idx == 18 {
                "\u{1F0DF}"
            } else {
                "\u{1F0A0}"
            }
        } else if at == 3 {
            "\u{00A0}\u{00A0}"
        } else if at == 1 || at == 5 {
            "\u{2337}"
        } else {
            "|\u{00A0}"
        }
    }

    /// Whether the frame has stayed long enough.
    pub open spec fn is_due(self, now: u64) -> bool {
        minus(now as int, self.lastAdvance as int) >= frame_dwell(self.idx as int)
    }

    /// The spinner one frame on, at `now`.
    pub open spec fn advanced(self, now: u64) -> TitleSpinner {
        TitleSpinner { idx: ((self.idx + 1) % (FRAMES as int)) as usize, lastAdvance: now }
    }

    /// Advances by one frame once the frame has stayed long enough. Returns whether
    /// it did.
    pub fn tick(&mut self, now: u64) -> (r: bool)
        requires
            old(self).wf(),
        ensures
            r == old(self).is_due(now),
            *final(self) == (if r {
                old(self).advanced(now)
            } else {
                *old(self)
            }),
            final(self).wf(),
    {
        let at: usize = self.idx % 6;
        let dwell: u64 = if at == 0 {
            600
        } else if at == 3 {
            100
        } else {
            80
        };
        if now.saturating_sub(self.lastAdvance) >= dwell {
            self.idx = (self.idx + 1) % FRAMES;
            self.lastAdvance = now;
            true
        } else {
            false
        }
    }
}

// ---- the state of the title ----

/// What the title shows, and why.
#[derive(Debug)]
pub struct TitleState {
    pub topic: Option<String>,
    pub spinner: TitleSpinner,
    pub wasAnimating: bool,
    pub windowFocused: bool,
    /// Work was completed while the window was not focused.
    pub unseenWork: bool,
    /// A permission prompt came while the window was not focused.
    pub unseenPermit: bool,
}

/// The state of the title as a value.
pub ghost struct TitleV {
    pub topic: Option<Seq<char>>,
    pub spinner: TitleSpinner,
    pub wasAnimating: bool,
    pub windowFocused: bool,
    pub unseenWork: bool,
    pub unseenPermit: bool,
}

impl View for TitleState {
    type V = TitleV;

    open spec fn view(&self) -> TitleV {
        TitleV {
            topic: opt_text(self.topic),
            spinner: self.spinner,
            wasAnimating: self.wasAnimating,
            windowFocused: self.windowFocused,
            unseenWork: self.unseenWork,
            unseenPermit: self.unseenPermit,
        }
    }
}

impl TitleV {
    /// The glyph when the topic changes: what is unseen stays, then the animation
    /// of a running turn.
    pub open spec fn topic_glyph(self, active: bool) -> Seq<char> {
        if self.unseenPermit {
            TITLE_PERMIT_GLYPH@
        } else if self.unseenWork {
            TITLE_UNSEEN_GLYPH@
        } else if active {
            frame_glyph(self.spinner.idx as int)
        } else {
            TITLE_IDLE_GLYPH@
        }
    }

    /// The glyph once an unseen indicator is gone.
    pub open spec fn seen_glyph(self, active: bool) -> Seq<char> {
        if self.unseenPermit {
            TITLE_PERMIT_GLYPH@
        } else if active && self.topic is Some {
            frame_glyph(self.spinner.idx as int)
        } else {
            TITLE_IDLE_GLYPH@
        }
    }

    pub open spec fn text(self, glyph: Seq<char>) -> Seq<char> {
        title_text(glyph, self.topic)
    }

    /// The window was focused: what was completed is seen. A prompt stays flagged
    /// until it is answered.
    pub open spec fn focused(self, permitPending: bool) -> TitleV {
        if self.unseenWork || (self.unseenPermit && !permitPending) {
            TitleV {
                windowFocused: true,
                unseenWork: false,
                unseenPermit: self.unseenPermit && permitPending,
                ..self
            }
        } else {
            TitleV { windowFocused: true, ..self }
        }
    }

    /// A tick of the animation.
    pub open spec fn ticked(self, active: bool, now: u64) -> TitleV {
        let animating = self.topic is Some && active;
        TitleV {
            spinner: if animating && self.spinner.is_due(now) {
                self.spinner.advanced(now)
            } else {
                self.spinner
            },
            wasAnimating: animating,
            ..self
        }
    }

    /// The title to set after a tick. What is unseen stays until the window is
    /// focused; when the animation ends, the idle glyph is shown.
    pub open spec fn tick_title(self, active: bool, now: u64) -> Option<Seq<char>> {
        let animating = self.topic is Some && active;
        if self.unseenWork || self.unseenPermit {
            None
        } else if animating {
            if self.spinner.is_due(now) {
                Some(self.text(frame_glyph(self.spinner.advanced(now).idx as int)))
            } else {
                None
            }
        } else if self.wasAnimating {
            Some(self.text(TITLE_IDLE_GLYPH@))
        } else {
            None
        }
    }
}

impl TitleState {
    pub fn new(now: u64) -> (r: Self)
        ensures
            r@ == (TitleV {
                topic: None,
                spinner: TitleSpinner::new(now),
                wasAnimating: false,
                windowFocused: true,
                unseenWork: false,
                unseenPermit: false,
            }),
            r.spinner.wf(),
    {
        TitleState {
            topic: None,
            spinner: TitleSpinner::new(now),
            wasAnimating: false,
            windowFocused: true,
            unseenWork: false,
            unseenPermit: false,
        }
    }

    /// The title when the topic changes.
    pub fn topicTitle(&self, active: bool) -> (r: String)
        ensures
            r@ == self@.text(self@.topic_glyph(active)),
    {
        let glyph = if self.unseenPermit {
            TITLE_PERMIT_GLYPH
        } else if self.unseenWork {
            TITLE_UNSEEN_GLYPH
        } else if active {
            self.spinner.current()
        } else {
            TITLE_IDLE_GLYPH
        };
        titleText(glyph, &self.topic)
    }

    /// The title once an unseen indicator is gone.
    pub fn seenTitle(&self, active: bool) -> (r: String)
        ensures
            r@ == self@.text(self@.seen_glyph(active)),
    {
        let glyph = if self.unseenPermit {
            TITLE_PERMIT_GLYPH
        } else if active && self.topic.is_some() {
            self.spinner.current()
        } else {
            TITLE_IDLE_GLYPH
        };
        titleText(glyph, &self.topic)
    }

    /// The window was focused. Returns the title to set, where something unseen was
    /// seen by that.
    pub fn focusGained(&mut self, permitPending: bool, active: bool) -> (r: Option<String>)
        ensures
            final(self)@ == old(self)@.focused(permitPending),
            opt_text(r) == (if old(self)@.unseenWork || (old(self)@.unseenPermit
                && !permitPending) {
                Some(final(self)@.text(final(self)@.seen_glyph(active)))
            } else {
                None
            }),
    {
        self.windowFocused = true;
        if self.unseenWork || (self.unseenPermit && !permitPending) {
            self.unseenWork = false;
            if !permitPending {
                self.unseenPermit = false;
            }
            Some(self.seenTitle(active))
        } else {
            None
        }
    }

    /// A tick of the animation. Returns the title to set, if it changes.
    pub fn tick(&mut self, active: bool, now: u64) -> (r: Option<String>)
        requires
            old(self).spinner.wf(),
        ensures
            final(self)@ == old(self)@.ticked(active, now),
            opt_text(r) == old(self)@.tick_title(active, now),
            final(self).spinner.wf(),
    {
        let animating = self.topic.is_some() && active;
        let unseen = self.unseenWork || self.unseenPermit;
        let was = self.wasAnimating;
        self.wasAnimating = animating;
        if animating {
            let turned = self.spinner.tick(now);
            if turned && !unseen {
                return Some(titleText(self.spinner.current(), &self.topic));
            }
            None
        } else if was && !unseen {
            Some(titleText(TITLE_IDLE_GLYPH, &self.topic))
        } else {
            None
        }
    }
}

// ---- laws ----

/// What is unseen stays in the title, whatever the animation does, until the
/// window is focused.
pub proof fn law_unseen_survives_the_animation(t: TitleV, active: bool, now: u64)
    requires
        t.unseenWork || t.unseenPermit,
    ensures
        t.tick_title(active, now) is None,
        t.ticked(active, now).unseenWork == t.unseenWork,
        t.ticked(active, now).unseenPermit == t.unseenPermit,
{
}

/// Focusing the window clears everything unseen but a prompt that is not answered.
pub proof fn law_focus_clears_all_but_open_prompts(t: TitleV, permitPending: bool)
    ensures
        !t.focused(permitPending).unseenWork,
        t.focused(permitPending).unseenPermit == (t.unseenPermit && permitPending),
{
}

/// The spinner comes back to its first frame after all the others.
pub proof fn law_spinner_cycles(s: TitleSpinner, now: u64)
    requires
        s.wf(),
    ensures
        s.idx + 1 < FRAMES ==> s.advanced(now).idx == s.idx + 1,
        s.idx + 1 == FRAMES ==> s.advanced(now).idx == 0,
{
}

} // verus!
