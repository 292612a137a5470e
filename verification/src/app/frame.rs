//! What a frame shows of the desk: the status bar and the cursor.

use vstd::prelude::*;
use crate::app::deck::DeckV;
use crate::app::desk::{Desk, DeskV, Focus};
use crate::app::pace::{pressesAgain, presses_again};
use crate::app::status_bar::{
    StatusInput, bar_draw, chip_spots, chips_of, clamped_focus, renderStatusBar,
};
use crate::draw::{Draw, Rect};

verus! {

impl DeckV {
    /// Whether there is background activity besides running tasks: tasks that ended
    /// unseen, monitors, or wake sources.
    pub open spec fn has_background(self) -> bool {
        self.background.unread.len() > 0 || self.background.monitors > 0 || self.background.wakes
            > 0
    }
}

/// Whether `s` is what the status bar shows of the desk at `now`. The model takes
/// `window` tokens, and `caching` tells whether prompts are cached.
pub open spec fn is_status(s: StatusInput, d: DeskV, window: usize, caching: bool, now: u64) -> bool {
    &&& s.running == d.deck.background.running
    &&& s.background == d.deck.has_background()
    &&& s.cost@ == d.deck.usage.cost
    &&& s.tokens == d.deck.usage.tokens
    &&& s.window == window
    &&& s.caching == caching
    &&& s.cacheHitAt == d.deck.usage.cacheHitAt
    &&& s.quitHint == presses_again(d.quitPress, now)
}

impl Desk {
    /// What the status bar shows.
    pub fn statusInput(&self, window: usize, caching: bool, now: u64) -> (r: StatusInput)
        ensures
            is_status(r, self@, window, caching, now),
    {
        let b = &self.deck.background;
        StatusInput {
            running: b.running,
            background: b.unread.len() > 0 || b.monitors > 0 || b.wakes > 0,
            cost: self.deck.usage.cost.clone(),
            tokens: self.deck.usage.tokens,
            window,
            caching,
            cacheHitAt: self.deck.usage.cacheHitAt,
            quitHint: pressesAgain(self.quitPress, now),
        }
    }

    /// Draws the status bar, and remembers where its chips stand. A chip that is gone
    /// loses the focus to the last one.
    pub fn drawStatusBar(&mut self, area: Rect, window: usize, caching: bool, now: u64) -> (r: Draw)
        requires
            area.wf(),
        ensures
            exists|s: StatusInput| #[trigger]
                is_status(s, old(self)@, window, caching, now) && r@ == bar_draw(
                    s,
                    old(self)@.statusFocus,
                    area,
                    now,
                ) && final(self)@ == (DeskV {
                    chips: chip_spots(s, area, now),
                    statusFocus: if s.quitHint {
                        old(self)@.statusFocus
                    } else {
                        clamped_focus(old(self)@.statusFocus, chips_of(s).len() as int)
                    },
                    ..old(self)@
                }),
    {
        let s = self.statusInput(window, caching, now);
        let bar = renderStatusBar(&s, self.statusFocus, area, now);
        self.chips = bar.spots;
        self.statusFocus = bar.focus;
        proof {
            assert(is_status(s, old(self)@, window, caching, now));
        }
        bar.draw
    }

    /// Where the cursor of the screen stands: in the input where that has the focus and
    /// no prompt covers it, in the terminal where that has. `input` is its place in the
    /// input, and `terminal` the one in the terminal's area `inner`.
    pub fn cursorAt(
        &self,
        input: Option<(u16, u16)>,
        terminal: Option<(u16, u16)>,
        inner: Rect,
    ) -> (r: Option<(u16, u16)>)
        requires
            terminal matches Some(t) ==> inner.x + t.0 <= u16::MAX && inner.y + t.1 <= u16::MAX,
        ensures
            r == (if self@.focus is Agent {
                if self@.deck.panel.permit.pending {
                    None
                } else {
                    input
                }
            } else {
                match terminal {
                    Some(t) => Some(((inner.x + t.0) as u16, (inner.y + t.1) as u16)),
                    None => None,
                }
            }),
    {
        match self.focus {
            Focus::Agent => {
                if self.deck.panel.permit.pending {
                    None
                } else {
                    input
                }
            },
            Focus::Terminal => match terminal {
                Some(t) => Some((inner.x + t.0, inner.y + t.1)),
                None => None,
            },
        }
    }
}

} // verus!
