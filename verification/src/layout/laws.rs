//! What the layout shows, and what its panel does.

use vstd::prelude::*;
use crate::draw::Rect;
use crate::keys::KeyCode;
use crate::layout::control_panel::{ActionV, ControlPanel, builtin, preset_at, preset_name};
use crate::layout::discovery::{Candidate, DiscoveredLayout, Loaded, chosen, loadAt};
use crate::layout::{
    Layout,
    LayoutV, Orient, WindowV, active_terminal, areas_of, container, holds_terminal, is_canonical,
    is_terminal, law_canonical_shows_terminal_and_agent, lemma_canonical_container, lemma_container,
    named_at, percent, split_at, tab_labels, with_active, with_terminal, without_terminal,
};

verus! {

// ---- what is shown ----

/// A layout that can be shown has a row of terminals on the left, the agent on the right,
/// and gives each at least a twentieth of the width.
pub proof fn law_what_can_be_shown(l: LayoutV)
    ensures
        is_canonical(l) <==> (l matches LayoutV::Split { orient, ratio, a, b } && orient
            == Orient::Horizontal && 50_000 <= ratio <= 950_000 && *b == LayoutV::Window(
            WindowV::AgentPanel,
        ) && (*a matches LayoutV::Tabs { active, children } && 0 <= active < children.len()
            && forall|i: int|
            0 <= i < children.len() ==> (#[trigger] children[i]) is Window
                && children[i]->Window_0 is Terminal)),
{
    if l is Split && *(l->a) is Tabs {
        let children = (*(l->a))->children;
        if is_canonical(l) {
            assert forall|i: int| 0 <= i < children.len() implies (#[trigger] children[i]) is Window
                && children[i]->Window_0 is Terminal by {
                assert(is_terminal(children[i]));
            }
        }
        if forall|i: int|
            0 <= i < children.len() ==> (#[trigger] children[i]) is Window
                && children[i]->Window_0 is Terminal {
            assert forall|i: int| 0 <= i < children.len() implies is_terminal(
                #[trigger] children[i],
            ) by {
                assert(children[i] is Window);
            }
        }
    }
}

/// The terminals get the share of the width that the layout says, to the nearest column,
/// and the agent the rest; both are as high as the area.
pub proof fn law_the_width_is_shared(l: LayoutV, area: Rect)
    requires
        is_canonical(l),
        area.wf(),
    ensures
        ({
            let r = areas_of(l, area);
            let percent = l->ratio / 10_000;
            &&& r.len() == 2
            &&& area.width * percent - 50 <= 100 * r[0].rect.width <= area.width * percent + 50
            &&& r[0].rect.height == area.height && r[1].rect.height == area.height
            &&& r[0].rect.y == area.y && r[1].rect.y == area.y
            &&& r[0].rect.x == area.x
            &&& r[1].rect.x == area.x + r[0].rect.width
            &&& r[1].rect.width == area.width - r[0].rect.width
        }),
{
    reveal_with_fuel(areas_of, 3);
    law_canonical_shows_terminal_and_agent(l, area);
    lemma_canonical_container(l);
    let c = container(l);
    assert(is_terminal(c.1[c.0]));
    let pct = percent(l->ratio);
    assert(0 <= area.width * pct <= area.width * 95) by (nonlinear_arith)
        requires
            5 <= pct <= 95,
    ;
    let parts = split_at(true, pct, area);
    assert(areas_of(*(l->a), parts.0).len() == 1);
    assert(areas_of(*(l->b), parts.1).len() == 1);
}

/// A split from top to bottom shares the height in the same way.
pub proof fn law_the_height_is_shared(first: int, area: Rect)
    requires
        5 <= first <= 95,
        area.wf(),
    ensures
        ({
            let (a, b) = split_at(false, first, area);
            &&& area.height * first - 50 <= 100 * a.height <= area.height * first + 50
            &&& a.y == area.y
            &&& b.y == area.y + a.height
            &&& a.height + b.height == area.height
            &&& a.width == area.width && b.width == area.width
            &&& a.x == area.x && b.x == area.x
        }),
{
    assert(0 <= area.height * first <= area.height * 95) by (nonlinear_arith)
        requires
            5 <= first <= 95,
    ;
}

/// Every terminal has a tab in its order, and the one that is shown is marked.
pub proof fn law_every_terminal_has_a_tab(children: Seq<LayoutV>, k: int, n: int, i: int)
    requires
        0 <= i < n <= children.len(),
        forall|j: int| 0 <= j < children.len() ==> is_terminal(#[trigger] children[j]),
    ensures
        tab_labels(children, k, n).len() == n,
        tab_labels(children, k, n)[i] == (children[i]->Window_0, i == k),
    decreases n,
{
    assert(is_terminal(children[n - 1]));
    assert(tab_labels(children, k, 0).len() == 0);
    if n > 1 {
        if i < n - 1 {
            law_every_terminal_has_a_tab(children, k, n - 1, i);
        } else {
            law_every_terminal_has_a_tab(children, k, n - 1, 0);
        }
    }
}

// ---- terminals ----

/// A terminal that is added is the last one, the others keep their places, and the one
/// that is shown stays.
pub proof fn law_a_new_terminal_comes_last(l: LayoutV, name: Seq<char>)
    requires
        is_canonical(l),
        !holds_terminal(l, name),
    ensures
        container(with_terminal(l, name)).1 == container(l).1.push(
            LayoutV::Window(WindowV::Terminal(name)),
        ),
        active_terminal(with_terminal(l, name)) == active_terminal(l),
{
    lemma_canonical_container(l);
    let c = container(l);
    let w = LayoutV::Window(WindowV::Terminal(name));
    assert(is_terminal(c.1.push(w)[c.1.len() as int]));
    lemma_container(l, c.0, c.1.push(w));
    assert(c.1.push(w)[c.0] == c.1[c.0]);
}

/// A terminal that is removed is gone, and every other one is still there.
pub proof fn law_a_removed_terminal_is_gone(l: LayoutV, name: Seq<char>, other: Seq<char>)
    requires
        is_canonical(l),
        holds_terminal(l, name),
        container(l).1.len() > 1,
        container(l).1.no_duplicates(),
        other != name,
    ensures
        !holds_terminal(without_terminal(l, name), name),
        holds_terminal(without_terminal(l, name), other) == holds_terminal(l, other),
        container(without_terminal(l, name)).1.len() == container(l).1.len() - 1,
{
    lemma_canonical_container(l);
    let c = container(l);
    let w = LayoutV::Window(WindowV::Terminal(name));
    let v = LayoutV::Window(WindowV::Terminal(other));
    c.1.index_of_first_ensures(w);
    c.1.index_of_first_ensures(v);
    let k = named_at(c.1, name)->0;
    let rest = c.1.remove(k);
    rest.index_of_first_ensures(w);
    rest.index_of_first_ensures(v);
    let j: int = if k == 0 {
        1
    } else {
        0
    };
    assert(is_terminal(c.1[j]));
    assert(is_terminal(rest[0]));
    lemma_container(l, c.0, rest);
    if rest.contains(w) {
        let i = choose|i: int| 0 <= i < rest.len() && rest[i] == w;
        if i < k {
            assert(c.1[i] == w);
        } else {
            assert(c.1[i + 1] == w);
        }
    }
    if c.1.contains(v) {
        let i = choose|i: int| 0 <= i < c.1.len() && c.1[i] == v;
        if i < k {
            assert(rest[i] == v);
        } else {
            assert(rest[i - 1] == v);
        }
    }
    if rest.contains(v) {
        let i = choose|i: int| 0 <= i < rest.len() && rest[i] == v;
        if i < k {
            assert(c.1[i] == v);
        } else {
            assert(c.1[i + 1] == v);
        }
    }
}

/// Showing a terminal adds and removes none.
pub proof fn law_showing_a_terminal_moves_none(l: LayoutV, name: Seq<char>)
    requires
        is_canonical(l),
        holds_terminal(l, name),
    ensures
        container(with_active(l, name)).1 == container(l).1,
        active_terminal(with_active(l, name)) == Some(name),
{
    lemma_canonical_container(l);
    let c = container(l);
    c.1.index_of_first_ensures(LayoutV::Window(WindowV::Terminal(name)));
    assert(is_terminal(c.1[0]));
    lemma_container(l, named_at(c.1, name)->0, c.1);
}

// ---- presets ----

/// The presets by name: `split` gives the terminals three fifths, `wide` half and `focus`
/// four fifths of the width, each with one terminal and the agent beside it.
pub proof fn law_the_presets()
    ensures
        builtin().len() == 3,
        builtin()[0].name == "split"@ && builtin()[0].layout->ratio == 600_000,
        builtin()[1].name == "wide"@ && builtin()[1].layout->ratio == 500_000,
        builtin()[2].name == "focus"@ && builtin()[2].layout->ratio == 800_000,
        forall|i: int|
            0 <= i < 3 ==> is_canonical((#[trigger] builtin()[i]).layout) && container(
                builtin()[i].layout,
            ).1 == seq![LayoutV::Window(WindowV::Terminal("main"@))],
{
    assert forall|i: int| 0 <= i < 3 implies is_canonical((#[trigger] builtin()[i]).layout)
        && container(builtin()[i].layout).1 == seq![
        LayoutV::Window(WindowV::Terminal("main"@)),
    ] by {
        let l = builtin()[i].layout;
        let children = (*(l->a))->children;
        assert(is_terminal(children[0]));
        lemma_canonical_container(l);
    }
}

/// A layout that can be shown is the preset whose share it has, within a hundredth, and
/// none where it has none of them.
pub proof fn law_a_preset_is_known_by_its_share(l: LayoutV)
    requires
        is_canonical(l),
    ensures
        590_000 <= l->ratio <= 610_000 ==> preset_name(l) == Some("split"@),
        490_000 <= l->ratio <= 510_000 ==> preset_name(l) == Some("wide"@),
        790_000 <= l->ratio <= 810_000 ==> preset_name(l) == Some("focus"@),
        !(590_000 <= l->ratio <= 610_000) && !(490_000 <= l->ratio <= 510_000) && !(790_000
            <= l->ratio <= 810_000) ==> preset_name(l) is None,
{
}

// ---- the panel ----

/// In the panel, enter applies the preset that is chosen, `s` saves, `r` goes back to
/// what is on disk, and escape closes where nothing is unsaved. Nothing else is asked for.
pub proof fn law_the_keys_of_the_layout_panel(p: ControlPanel, key: KeyCode)
    requires
        p.wf(),
        p.confirm is Hidden,
    ensures
        ({
            let (q, a) = p.on_key(key);
            &&& key == KeyCode::Enter ==> a == (ActionV::ApplyPreset {
                name: builtin()[p.selected as int].name,
                layout: builtin()[p.selected as int].layout,
            })
            &&& a is ApplyPreset ==> key == KeyCode::Enter
            &&& a is Save <==> key == KeyCode::Char('s') || key == KeyCode::Char('S')
            &&& a is Reset <==> key == KeyCode::Char('r') || key == KeyCode::Char('R')
            &&& a is Close <==> key == KeyCode::Esc && !p.dirty
            &&& key == KeyCode::Esc && p.dirty ==> q.confirm is Asking
            &&& (key == KeyCode::Up || key == KeyCode::Char('k')) && p.selected > 0 ==> q.selected
                == p.selected - 1
            &&& (key == KeyCode::Down || key == KeyCode::Char('j')) && p.selected < 2
                ==> q.selected == p.selected + 1
            &&& key == KeyCode::Up && p.selected == 0 ==> q.selected == 0
            &&& key == KeyCode::Down && p.selected == 2 ==> q.selected == 2
            &&& q.working == p.working
            &&& q.dirty == p.dirty
        }),
{
}

/// Asked whether unsaved changes are dropped, `y` closes, `n` and escape go back, and any
/// other key changes nothing.
pub proof fn law_the_question_of_the_layout_panel(p: ControlPanel, key: KeyCode)
    requires
        p.confirm is Asking,
    ensures
        ({
            let (q, a) = p.on_key(key);
            let yes = key == KeyCode::Char('y') || key == KeyCode::Char('Y');
            let no = key == KeyCode::Char('n') || key == KeyCode::Char('N') || key
                == KeyCode::Esc;
            &&& a is Close <==> yes
            &&& no ==> q.confirm is Hidden && a is Stay
            &&& !yes && !no ==> q == p && a is Stay
            &&& q.selected == p.selected
        }),
{
}

/// The panel opens on the preset that is applied.
pub proof fn law_the_panel_opens_on_its_preset(i: int)
    requires
        0 <= i < 3,
    ensures
        preset_at(Some(builtin()[i].name)) == Some(i),
        preset_at(None) is None,
{
    reveal_strlit("split");
    reveal_strlit("wide");
    reveal_strlit("focus");
    assert("split"@.len() == 5 && "wide"@.len() == 4 && "focus"@.len() == 5);
    assert("split"@[0] != "focus"@[0]);
}

/// Without a file near the working directory the fallback is used, where it is there.
pub proof fn law_the_fallback_is_used(candidates: Seq<Candidate>, f: Candidate)
    requires
        forall|j: int| 0 <= j < candidates.len() ==> !(#[trigger] candidates[j]).exists,
        f.exists,
    ensures
        chosen(candidates, Some(f)) == Some(f.path@),
    decreases candidates.len(),
{
    if candidates.len() > 0 {
        assert(!candidates[0].exists);
        assert forall|j: int| 0 <= j < candidates.skip(1).len() implies !(
        #[trigger] candidates.skip(1)[j]).exists by {
            assert(!candidates[j + 1].exists);
        }
        law_the_fallback_is_used(candidates.skip(1), f);
    }
}

// ---- what is called ----

/// A terminal that is added is there, one that is removed was there, and one that is shown
/// is the active one.
pub proof fn law_calls_change_the_terminals(name: &str)
    ensures
        forall|l: &mut Layout|
            is_canonical(l@) && #[trigger] call_ensures(Layout::addTerminal, (l, name), ())
                ==> holds_terminal(final(l)@, name@) && is_canonical(final(l)@),
        forall|l: &mut Layout, r: bool|
            is_canonical(l@) && #[trigger] call_ensures(Layout::setActiveTerminal, (l, name), r)
                ==> r == holds_terminal(l@, name@) && (r ==> active_terminal(final(l)@) == Some(
                name@,
            )) && (!r ==> final(l)@ == l@),
        forall|l: &mut Layout, r: bool| #[trigger]
            call_ensures(Layout::removeTerminal, (l, name), r) ==> r == holds_terminal(
                l@,
                name@,
            ) && (!r ==> final(l)@ == l@),
{
    assert forall|l: &mut Layout|
        is_canonical(l@) && #[trigger] call_ensures(Layout::addTerminal, (l, name), ()) implies
        holds_terminal(final(l)@, name@) && is_canonical(final(l)@) by {
        lemma_canonical_container(l@);
        crate::layout::law_duplicate_add_is_ignored(l@, name@);
        crate::layout::law_terminals_keep_the_canonical_shape(l@, name@);
    }
    assert forall|l: &mut Layout, r: bool|
        is_canonical(l@) && #[trigger] call_ensures(
            Layout::setActiveTerminal,
            (l, name),
            r,
        ) implies r == holds_terminal(l@, name@) && (r ==> active_terminal(final(l)@) == Some(
        name@,
    )) && (!r ==> final(l)@ == l@) by {
        if r {
            law_showing_a_terminal_moves_none(l@, name@);
        }
    }
}

/// A layout that is loaded is used exactly where it was read and can be shown; else the
/// reason is given.
pub proof fn law_layouts_are_loaded_where_they_can_be_shown(
    path: String,
    l: Layout,
    e: String,
    r: DiscoveredLayout,
)
    ensures
        call_ensures(loadAt, (path, Loaded::Parsed(l)), r) ==> r.path == path && (r.result is Ok
            <==> is_canonical(l@)) && (r.result matches Ok(k) ==> k == l),
        call_ensures(loadAt, (path, Loaded::ReadFailed(e)), r) ==> r.result is Err,
        call_ensures(loadAt, (path, Loaded::ParseFailed(e)), r) ==> r.result is Err,
{
}

/// A preset that was applied is unsaved, one that was saved is not, and going back to what
/// is on disk leaves nothing unsaved.
pub proof fn law_the_panel_knows_what_is_unsaved(name: String, l: Layout, preset: Option<String>)
    ensures
        forall|p: &mut ControlPanel| #[trigger]
            call_ensures(ControlPanel::confirmApplied, (p, name, l), ()) ==> final(p).dirty
                && final(p).working == l && final(p).appliedName == Some(name),
        forall|p: &mut ControlPanel| #[trigger]
            call_ensures(ControlPanel::confirmSaved, (p,), ()) ==> !final(p).dirty && final(
            p).working == p.working,
        forall|p: &mut ControlPanel| #[trigger]
            call_ensures(ControlPanel::resetTo, (p, l, preset), ()) ==> !final(p).dirty && final(
            p).working == l,
{
}

} // verus!
