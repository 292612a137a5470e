//! What holds of the screen: its parts, the status bar, the popups and the mouse.

use vstd::prelude::*;
use crate::agent_panel::state::{Attachment, PanelV};
use crate::app::arrangement::{Arrangement, LayoutWork};
use crate::app::deck::{Overlays, StoredAttachment, all_restored, base64_bytes};
use crate::app::desk::{DeskV, Route, without_panel};
use crate::app::frame::is_status;
use crate::app::help::{help_draws, help_line, help_rect, help_rows};
use crate::app::mouse::{HitV, MouseStep, Spot, begins, sideways, text_spot};
use crate::app::screen::{
    TermLine, agent_area, below_tabs, shown_tree, tab_row, term_segment, terminal_area,
    with_terminals, without_empty_end,
};
use crate::app::status_bar::{
    ChipV, StatusInput, bar_spans, chip_offset, chip_spans, chip_spots, chips_of, chips_width,
    clamped_focus, right_width, cache_span,
};
use crate::app::terminal_input::terminal_size;
use crate::draw::{Color, Rect, inside_borders};
use crate::keys::{KeyCode, KeyEvent};
use crate::layout::control_panel::builtin;
use crate::layout::{
    AreaV, LayoutV, WindowV, active_terminal, has_container, holds_terminal, is_canonical,
    law_active_is_what_was_set, law_duplicate_add_is_ignored,
    law_terminals_keep_the_canonical_shape,
};
use crate::layout::laws::law_a_new_terminal_comes_last;
use crate::text::texts;

verus! {

// ---- the parts of the screen ----

/// The terminal is shown where the layout has one, and the agent where it has it.
pub proof fn law_the_areas_are_found(a: Seq<AreaV>, from: int)
    requires
        0 <= from,
    ensures
        match terminal_area(a, from) {
            Some(r) => exists|i: int|
                from <= i < a.len() && (#[trigger] a[i]).window is Terminal && a[i].rect == r,
            None => forall|i: int| from <= i < a.len() ==> !((#[trigger] a[i]).window is Terminal),
        },
        match agent_area(a, from) {
            Some(r) => exists|i: int|
                from <= i < a.len() && (#[trigger] a[i]).window is AgentPanel && a[i].rect == r,
            None => forall|i: int|
                from <= i < a.len() ==> !((#[trigger] a[i]).window is AgentPanel),
        },
    decreases a.len() - from,
{
    if from < a.len() {
        law_the_areas_are_found(a, from + 1);
        assert(a[from].rect == a[from].rect);
        if !(a[from].window is Terminal) && terminal_area(a, from) is Some {
            let i = choose|i: int|
                from + 1 <= i < a.len() && (#[trigger] a[i]).window is Terminal && a[i].rect
                    == terminal_area(a, from)->0;
            assert(a[i].window is Terminal);
        }
        if !(a[from].window is AgentPanel) && agent_area(a, from) is Some {
            let i = choose|i: int|
                from + 1 <= i < a.len() && (#[trigger] a[i]).window is AgentPanel && a[i].rect
                    == agent_area(a, from)->0;
            assert(a[i].window is AgentPanel);
        }
    }
}

/// The tabs stand on the first row within the frame of the terminal, and the terminal
/// itself has the rows below.
pub proof fn law_the_tabs_stand_above_the_terminal(r: Rect)
    requires
        r.wf(),
    ensures
        ({
            let i = inside_borders(r);
            &&& i.height > 1 ==> {
                &&& tab_row(r).y == i.y && tab_row(r).height == 1
                &&& tab_row(r).x == i.x && tab_row(r).width == i.width
                &&& below_tabs(r).y == i.y + 1
                &&& below_tabs(r).height == i.height - 1
                &&& below_tabs(r).width == i.width
            }
            &&& i.height <= 1 ==> tab_row(r).height == 0 && below_tabs(r) == i
        }),
{
}

/// Every terminal that is open is in the tree that is shown, and the active one is shown.
pub proof fn law_every_open_terminal_is_shown(
    l: LayoutV,
    names: Seq<Seq<char>>,
    active: Seq<char>,
    i: int,
)
    requires
        is_canonical(l),
        0 <= i < names.len(),
    ensures
        holds_terminal(with_terminals(l, names), names[i]),
        is_canonical(with_terminals(l, names)),
        active == names[i] ==> active_terminal(shown_tree(l, names, active)) == Some(active),
    decreases names.len(),
{
    lemma_terminals_held(l, names, i);
    if active == names[i] {
        law_active_is_what_was_set(with_terminals(l, names), active);
    }
}

proof fn lemma_canonical(l: LayoutV, names: Seq<Seq<char>>)
    requires
        is_canonical(l),
    ensures
        is_canonical(with_terminals(l, names)),
        has_container(with_terminals(l, names)),
    decreases names.len(),
{
    if names.len() > 0 {
        lemma_canonical(l, names.drop_last());
        law_terminals_keep_the_canonical_shape(
            with_terminals(l, names.drop_last()),
            names.last(),
        );
    }
    crate::layout::lemma_canonical_container(with_terminals(l, names));
}

proof fn lemma_terminals_held(l: LayoutV, names: Seq<Seq<char>>, i: int)
    requires
        is_canonical(l),
        0 <= i < names.len(),
    ensures
        holds_terminal(with_terminals(l, names), names[i]),
        is_canonical(with_terminals(l, names)),
    decreases names.len(),
{
    let t = with_terminals(l, names.drop_last());
    lemma_canonical(l, names);
    lemma_canonical(l, names.drop_last());
    law_duplicate_add_is_ignored(t, names.last());
    if i < names.len() - 1 {
        lemma_terminals_held(l, names.drop_last(), i);
        if !holds_terminal(t, names.last()) {
            law_a_new_terminal_comes_last(t, names.last());
            let c = crate::layout::container(t).1;
            let w = LayoutV::Window(WindowV::Terminal(names[i]));
            let v = LayoutV::Window(WindowV::Terminal(names.last()));
            c.index_of_first_ensures(w);
            c.push(v).index_of_first_ensures(w);
            let k = choose|k: int| 0 <= k < c.len() && c[k] == w;
            assert(c.push(v)[k] == w);
        }
    }
}

/// A terminal that is started takes three fifths of the columns, less the frame.
pub proof fn law_a_terminal_gets_its_size(cols: u16, rows: u16, n: int)
    requires
        cols >= 4,
        rows >= n,
        n >= 0,
    ensures
        terminal_size(cols, rows, n).1 == rows - n,
        5 * (terminal_size(cols, rows, n).0 + 2) <= 3 * cols < 5 * (terminal_size(
            cols,
            rows,
            n,
        ).0 + 3),
{
}

// ---- copying from the terminal ----

/// Empty lines at the end of what is selected are not copied, and no other is left out.
pub proof fn law_only_empty_ends_are_left_out(s: Seq<(Seq<char>, bool)>) -> (k: int)
    ensures
        0 <= k <= s.len(),
        without_empty_end(s) == s.take(k),
        forall|i: int| k <= i < s.len() ==> (#[trigger] s[i]).0.len() == 0,
        k > 0 ==> s[k - 1].0.len() > 0,
    decreases s.len(),
{
    if s.len() > 0 && s.last().0.len() == 0 {
        let k = law_only_empty_ends_are_left_out(s.drop_last());
        assert(s.drop_last().take(k) =~= s.take(k));
        assert forall|i: int| k <= i < s.len() implies (#[trigger] s[i]).0.len() == 0 by {
            if i < s.len() - 1 {
                assert(s.drop_last()[i].0.len() == 0);
            }
        }
        k
    } else {
        assert(s.take(s.len() as int) =~= s);
        s.len() as int
    }
}

/// A selection takes its first line from the column where it begins and its last up to
/// the column where it ends; a line goes on from the one before where that was wrapped.
pub proof fn law_a_selection_takes_its_columns(
    lines: Seq<TermLine>,
    startCol: u16,
    endCol: u16,
    width: u16,
    k: int,
)
    requires
        0 <= k < lines.len(),
        lines[k].cells is Some,
    ensures
        ({
            let c = texts(lines[k].cells->0@);
            let s = term_segment(lines, startCol, endCol, width, k);
            let text = |from: int, to: int| crate::agent_panel::selecting::cells_text(c, from, to);
            &&& s is Some
            &&& 0 < k < lines.len() - 1 ==> (s->0).0 == text(0, width as int)
            &&& k == 0 && lines.len() > 1 ==> (s->0).0 == text(startCol as int, width as int)
            &&& k == lines.len() - 1 && k > 0 && endCol <= width ==> (s->0).0 == text(
                0,
                endCol as int,
            )
            &&& lines.len() == 1 && endCol <= width ==> (s->0).0 == text(
                startCol as int,
                endCol as int,
            )
            &&& (s->0).1 <==> k > 0 && lines[k - 1].wrapped
        }),
{
}

// ---- the status bar ----

/// The bar says that a second press quits while it does, and nothing else.
pub proof fn law_the_bar_asks_for_the_second_press(
    s: StatusInput,
    focus: Option<usize>,
    area: Rect,
    now: u64,
)
    requires
        s.quitHint,
    ensures
        bar_spans(s, focus, area.width as int, now)[0].text
            == " \u{25B8} press Ctrl+Q again to quit"@,
        chip_spots(s, area, now).len() == 0,
{
}

/// Chips are drawn in their order, each with its text, and the one that has the focus
/// stands out.
pub proof fn law_chips_are_drawn_in_order(
    c: Seq<ChipV>,
    n: int,
    i: int,
    focus: Option<usize>,
    bg: Color,
    fg: Color,
)
    requires
        0 <= i < n <= c.len() <= usize::MAX,
    ensures
        chip_spans(c, n, focus, bg, fg).len() == 2 * n - 1,
        chip_spans(c, n, focus, bg, fg)[2 * i].text == c[i].text,
        (chip_spans(c, n, focus, bg, fg)[2 * i].style.bg == Some(fg)) == (focus == Some(
            i as usize,
        )),
    decreases n,
{
    if n > 1 {
        if i < n - 1 {
            law_chips_are_drawn_in_order(c, n - 1, i, focus, bg, fg);
        } else {
            law_chips_are_drawn_in_order(c, n - 1, 0, focus, bg, fg);
        }
    } else {
        assert(chip_spans(c, 0, focus, bg, fg).len() == 0);
    }
}

/// The place where a chip takes clicks is as wide as its text, and the next chip's begins
/// two columns behind it, on the row of the bar.
pub proof fn law_chips_take_clicks_where_they_are_drawn(
    s: StatusInput,
    area: Rect,
    now: u64,
    i: int,
)
    requires
        !s.quitHint,
        area.wf(),
        0 <= i < chips_of(s).len(),
        right_width(chips_of(s), cache_span(s.caching, s.cacheHitAt, now, Color::DarkGray)) + 1
            <= area.width,
    ensures
        ({
            let c = chips_of(s);
            let p = chip_spots(s, area, now);
            &&& p.len() == c.len()
            &&& p[i].kind == c[i].kind
            &&& p[i].y == area.y
            &&& p[i].xe - p[i].xs == c[i].text.len()
            &&& p[0].xs == area.x + area.width - 1 - right_width(
                c,
                cache_span(s.caching, s.cacheHitAt, now, Color::DarkGray),
            )
            &&& chip_offset(c, 0) == 0
            &&& i > 0 ==> chip_offset(c, i) == chip_offset(c, i - 1) + c[i - 1].text.len() + 2
        }),
{
    let c = chips_of(s);
    lemma_offset(c, i, c.len() as int);
    lemma_offset(c, 0, c.len() as int);
}

proof fn lemma_offset(c: Seq<ChipV>, i: int, n: int)
    requires
        0 <= i < n <= c.len(),
    ensures
        0 <= chip_offset(c, i),
        chip_offset(c, i) + c[i].text.len() <= chips_width(c, n),
    decreases n, i,
{
    if i > 0 {
        lemma_offset(c, i - 1, i);
    }
    if i < n - 1 {
        lemma_offset(c, i, n - 1);
    }
}

/// The focus stays on a chip that is there.
pub proof fn law_the_focus_stays_on_a_chip(focus: usize, n: int)
    requires
        0 <= n <= usize::MAX,
    ensures
        clamped_focus(None, n) is None,
        n == 0 ==> clamped_focus(Some(focus), n) is None,
        focus < n ==> clamped_focus(Some(focus), n) == Some(focus),
        0 < n <= focus ==> clamped_focus(Some(focus), n) == Some((n - 1) as usize),
{
}

/// The bar shows the numbers of the deck.
pub proof fn law_the_bar_shows_the_deck(
    s: StatusInput,
    d: DeskV,
    window: usize,
    caching: bool,
    now: u64,
)
    requires
        is_status(s, d, window, caching, now),
    ensures
        s.running == d.deck.background.running,
        s.cost@ == d.deck.usage.cost,
        s.tokens == d.deck.usage.tokens,
        s.window == window,
        s.caching == caching,
        s.cacheHitAt == d.deck.usage.cacheHitAt,
        s.background <==> d.deck.background.unread.len() > 0 || d.deck.background.monitors > 0
            || d.deck.background.wakes > 0,
        d.quitPress is None ==> !s.quitHint,
{
}

/// The arrows move the focus along the chips; enter and the space bar open the one that
/// has it, and every other key of the bar leaves it.
pub proof fn law_the_keys_of_the_bar(d: DeskV, key: KeyEvent)
    requires
        d.statusFocus is Some,
        d.statusFocus->0 < d.chips.len() <= usize::MAX,
    ensures
        ({
            let i = d.statusFocus->0;
            &&& key.code == KeyCode::Left && i > 0 ==> d.status_focus_after(key) == Some(
                (i - 1) as usize,
            )
            &&& key.code == KeyCode::Right && i + 1 < d.chips.len() ==> d.status_focus_after(key)
                == Some((i + 1) as usize)
            &&& key.code == KeyCode::Enter || key.code == KeyCode::Char(' ') ==> d.status_asks(key)
                == crate::app::request::chip_asks(d.chips[i as int].kind)
                && d.status_focus_after(key) is None
            &&& key.code == KeyCode::Esc ==> d.status_focus_after(key) is None && d.status_asks(
                key,
            ).len() == 0
            &&& key.code == KeyCode::Left || key.code == KeyCode::Right ==> d.status_asks(
                key,
            ).len() == 0
        }),
{
}

// ---- panels and popups ----

/// A panel that is closed is closed, and the others stay as they are.
pub proof fn law_only_its_own_panel_is_closed(o: Overlays, r: Route)
    ensures
        ({
            let q = without_panel(o, r);
            &&& q.sessions == (o.sessions && !(r is Sessions))
            &&& q.log == (o.log && !(r is Log))
            &&& q.rewind == (o.rewind && !(r is Rewind))
            &&& q.mcp == (o.mcp && !(r is Mcp))
            &&& q.lsp == (o.lsp && !(r is Lsp))
            &&& q.model == (o.model && !(r is Model))
            &&& q.permissions == (o.permissions && !(r is Permissions))
            &&& q.subagents == o.subagents
        }),
{
}

/// The popup of hotkeys lists each key with what it does, in the middle of the screen.
pub proof fn law_the_popup_lists_the_keys(area: Rect, i: int)
    requires
        area.wf(),
        area.width >= 58,
        area.height >= 16,
        0 <= i < 10,
    ensures
        help_rows().len() == 10,
        help_line(help_rows()[i])[3].text == help_rows()[i].1,
        crate::text::has_prefix(help_line(help_rows()[i])[1].text, help_rows()[i].0),
        help_draws(area)[2] is Para,
        (help_draws(area)[2]->Para_lines)[i] == help_line(help_rows()[i]),
        help_rect(area).width == 56 && help_rect(area).height == 14,
        area.x <= help_rect(area).x,
        help_rect(area).x + 56 <= area.x + area.width,
        -1 <= (help_rect(area).x - area.x) - (area.x + area.width - help_rect(area).x - 56) <= 1,
{
    let k = help_rows()[i].0;
    assert(crate::text::pad_right(k, 10).take(k.len() as int) =~= k);
}

/// The keys of the panel of layouts reach the layout: a preset that is applied is the
/// layout from then on, and is unsaved; saving and resetting are handed on; closing
/// changes nothing.
pub proof fn law_presets_reach_the_layout(
    a: Arrangement,
    key: KeyEvent,
    b: Arrangement,
    work: LayoutWork,
)
    requires
        a.panel is Some,
        a.panel->0.wf(),
        a.panel->0.confirm is Hidden,
        a.keyed(key, b, work),
    ensures
        key.code == KeyCode::Enter ==> {
            let p = builtin()[(a.panel->0).selected as int];
            &&& b.layout@ == p.layout
            &&& b.panel is Some && (b.panel->0).dirty
            &&& work is Nothing
            &&& b.path == a.path
        },
        key.code == KeyCode::Char('s') ==> work is Write && b.layout == a.layout,
        key.code == KeyCode::Char('r') ==> work is Discover && b.layout == a.layout,
        key.code == KeyCode::Esc && !(a.panel->0).dirty ==> b.panel is None && b.layout == a.layout
            && work is Nothing,
        key.code == KeyCode::Up || key.code == KeyCode::Down ==> b.layout == a.layout && work
            is Nothing,
{
}

// ---- the mouse ----

/// A click in the input finds the column and the row that it hits, counted from the text.
pub proof fn law_a_click_finds_its_place_in_the_text(r: Rect, column: u16, row: u16)
    requires
        r.wf(),
        r.x + 2 <= column < r.x + r.width,
        r.y <= row < r.y + r.height,
    ensures
        text_spot(r, column, row, false).col == column - r.x - 2,
        text_spot(r, column, row, false).row == row - r.y,
        text_spot(r, column, row, true) == text_spot(r, column, row, false),
        text_spot(r, column, row, false).width == r.width - 2,
{
}

/// A click that hits nothing begins a selection there, of a rectangle with alt; one that
/// hits something does not.
pub proof fn law_a_free_click_selects(hit: HitV, spot: Spot, alt: bool, step: MouseStep)
    requires
        begins(hit, spot, alt, step),
    ensures
        hit is Free ==> step == (MouseStep::Begin { panel: spot.panel, rectangle: alt }),
        hit is Taken || hit is Popup ==> step is Done,
        hit matches HitV::Frozen(t, s) ==> (step matches MouseStep::ShowFrozen {
            agentType,
            sessionId,
        } && agentType@ == t && sessionId@ == s),
{
}

/// The wheel turned sideways over the prompt scrolls its command, and over code that
/// block, by three columns; nothing else moves.
pub proof fn law_sideways_scrolling(p: PanelV, spot: Option<Spot>, left: bool)
    ensures
        p.permit.pending && p.permit.scrollX <= 60000 && !left ==> sideways(
            p,
            true,
            spot,
            left,
        ).permit.scrollX == p.permit.scrollX + 3,
        p.permit.pending && p.permit.scrollX >= 3 && left ==> sideways(
            p,
            true,
            spot,
            left,
        ).permit.scrollX == p.permit.scrollX - 3,
        sideways(p, true, spot, left).entries == p.entries,
        sideways(p, false, None, left) == p,
{
}

// ---- rewinding ----

/// The images of a message that is given back are those that were stored with it.
pub proof fn law_stored_images_are_given_back(
    a: Seq<Attachment>,
    s: Seq<StoredAttachment>,
    i: int,
)
    requires
        all_restored(a, Some(s)),
        0 <= i < s.len(),
    ensures
        a.len() == s.len(),
        a[i].mimeType@ == s[i].mimeType@,
        base64_bytes(s[i].data@) matches Some(b) ==> a[i].data@ == b,
{
    assert(crate::app::deck::restored(a[i], s[i]));
}

} // verus!
