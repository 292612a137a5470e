//! Boxes drawn with lines: what both the context display and the subagent block
//! are made of. A box is indented by two columns.

use vstd::prelude::*;
use vstd::string::*;
use crate::agent_panel::entry::{
    BriefingLayer, ContextState, TokenCount, TopicLayer, TurnLayer,
};
use crate::agent_panel::rows::{Page, RowV, rv};
use crate::draw::{Color, Line, Span, Style, colored, min, minus, span, spanOf, span_views, sv};
use crate::share::{wholeShare, whole_share};
use crate::text::{
    byte_len, bytesExceed, cutBytes, cut_bytes, dec, decimal, has_prefix, repeatChar, repeated, texts,
};
use crate::unicode::{columns, columnsOf};
use crate::wrap::{cut_text, truncateToWidth};

verus! {

/// The style of a border.
#[verifier::allow_in_spec]
pub fn borderStyle() -> Style
    returns
        colored(Color::DarkGray),
{
    colored(Color::DarkGray)
}

/// Columns between the borders of a box that is as wide as the panel.
pub open spec fn inner_width(width: int) -> int {
    minus(minus(width, 2), 2)
}

/// Columns between the borders of a box that is as wide as the panel.
pub fn innerWidth(width: u16) -> (r: usize)
    ensures
        r == inner_width(width as int),
        r <= 65535,
{
    (width as usize).saturating_sub(2).saturating_sub(2)
}

/// A text cut to `inner` columns and filled up with spaces.
pub open spec fn filled_text(s: Seq<char>, inner: int) -> Seq<char> {
    let t = cut_text(s, inner);
    t + repeated(' ', minus(inner, columns(t) as int))
}

/// A row of text between two borders.
pub open spec fn bordered_row(s: Seq<char>, style: Style, inner: int) -> RowV {
    rv(
        seq![
            sv("  "@, Style::plain()),
            sv("\u{2502}"@, borderStyle()),
            sv(filled_text(s, inner), style),
            sv("\u{2502}"@, borderStyle()),
        ],
    )
}

/// Adds a row of text between two borders.
pub fn pushBordered(page: &mut Page, s: &str, style: Style, inner: usize)
    ensures
        final(page)@ == old(page)@.with_row(bordered_row(s@, style, inner as int)),
{
    let mut body = truncateToWidth(s, inner);
    let pad = repeatChar(' ', inner.saturating_sub(columnsOf(body.as_str())));
    body.append(pad.as_str());
    let mut spans: Vec<Span> = Vec::new();
    spans.push(span("  ", Style::plain()));
    spans.push(span("\u{2502}", borderStyle()));
    spans.push(spanOf(body, style));
    spans.push(span("\u{2502}", borderStyle()));
    proof {
        assert(span_views(spans@) =~= bordered_row(s@, style, inner as int).line);
    }
    page.push(Line { spans }, false);
}

/// A border with a label in its middle.
pub open spec fn rule_row(
    left: Seq<char>,
    right: Seq<char>,
    label: Seq<char>,
    style: Style,
    inner: int,
) -> RowV {
    let rule = minus(inner, columns(label) as int);
    rv(
        seq![
            sv("  "@, Style::plain()),
            sv(left, borderStyle()),
            sv(repeated('\u{2500}', rule / 2), borderStyle()),
            sv(label, style),
            sv(repeated('\u{2500}', rule - rule / 2), borderStyle()),
            sv(right, borderStyle()),
        ],
    )
}

/// Adds a border with a label in its middle.
pub fn pushRule(page: &mut Page, left: &str, right: &str, label: &str, style: Style, inner: usize)
    ensures
        final(page)@ == old(page)@.with_row(rule_row(left@, right@, label@, style, inner as int)),
{
    let rule: usize = inner.saturating_sub(columnsOf(label));
    let half: usize = rule / 2;
    let mut spans: Vec<Span> = Vec::new();
    spans.push(span("  ", Style::plain()));
    spans.push(span(left, borderStyle()));
    spans.push(spanOf(repeatChar('\u{2500}', half), borderStyle()));
    spans.push(span(label, style));
    spans.push(spanOf(repeatChar('\u{2500}', rule - half), borderStyle()));
    spans.push(span(right, borderStyle()));
    proof {
        assert(span_views(spans@) =~= rule_row(left@, right@, label@, style, inner as int).line);
    }
    page.push(Line { spans }, false);
}

// ---- the context display ----

/// A text in a style.
pub ghost struct StyledV {
    pub text: Seq<char>,
    pub style: Style,
}

/// A layer: its title and its lines.
pub ghost struct LayerV {
    pub title: Seq<char>,
    pub lines: Seq<StyledV>,
}

pub open spec fn white(text: Seq<char>) -> StyledV {
    StyledV { text, style: colored(Color::White) }
}

pub open spec fn faint(text: Seq<char>) -> StyledV {
    StyledV { text, style: colored(Color::DarkGray) }
}

/// The label of a topic, cut where it is long.
pub open spec fn topic_text(l: Seq<char>) -> Seq<char> {
    " "@ + (if byte_len(l) > 28 {
        cut_bytes(l, 27) + "\u{2026}"@
    } else {
        l
    })
}

/// The layer of merged topics.
pub open spec fn briefing_layer(b: BriefingLayer) -> LayerV {
    LayerV {
        title: "S4 Briefing"@,
        lines: seq![white(" "@ + dec(b.topicsMerged as nat) + " earlier topics merged"@)] + (if b.priorBriefings
            > 0 {
            seq![white(" "@ + dec(b.priorBriefings as nat) + " prior briefings"@)]
        } else {
            Seq::empty()
        }) + seq![faint(" ~"@ + b.tokens.label@ + " tok"@)],
    }
}

/// How many turns a layer condenses.
pub open spec fn condensed(turns: u64, tokens: TokenCount) -> Seq<char> {
    " "@ + dec(turns as nat) + " turns condensed \u{00B7} ~"@ + tokens.label@ + " tok"@
}

/// The layer of topic summaries.
pub open spec fn topic_layer(t: TopicLayer) -> LayerV {
    let labels = texts(t.topicLabels@);
    LayerV {
        title: "S3 Topic summaries"@,
        lines: Seq::new(labels.len(), |i: int| white(topic_text(labels[i]))).push(
            faint(condensed(t.turnsCondensed, t.tokens)),
        ),
    }
}

/// The layer of summarized turns.
pub open spec fn turn_layer(t: TurnLayer) -> LayerV {
    LayerV { title: "S2 Summaries"@, lines: seq![faint(condensed(t.turns, t.tokens))] }
}

/// The layer of turns that are as they were.
pub open spec fn raw_layer(t: TurnLayer) -> LayerV {
    LayerV {
        title: "Raw"@,
        lines: seq![
            faint(" "@ + dec(t.turns as nat) + " turns \u{00B7} ~"@ + t.tokens.label@ + " tok"@),
        ],
    }
}

/// The layers of a context, from the most condensed to the raw one.
pub open spec fn layers_of(c: ContextState) -> Seq<LayerV> {
    (match c.s4 {
        Some(b) => seq![briefing_layer(b)],
        None => Seq::empty(),
    }) + (match c.s3 {
        Some(t) => seq![topic_layer(t)],
        None => Seq::empty(),
    }) + (match c.s2 {
        Some(t) => seq![turn_layer(t)],
        None => Seq::empty(),
    }) + seq![raw_layer(c.raw)]
}

/// The title row of a layer.
pub open spec fn layer_title(title: Seq<char>, top: bool, inner: int) -> RowV {
    rv(
        seq![
            sv("  "@, Style::plain()),
            sv(
                if top {
                    "\u{256D}"@
                } else {
                    "\u{251C}"@
                },
                borderStyle(),
            ),
            sv(" "@ + title + " "@, colored(Color::Cyan).bold()),
            sv(repeated('\u{2500}', minus(inner, columns(title) as int + 2)), borderStyle()),
            sv(
                if top {
                    "\u{256E}"@
                } else {
                    "\u{2524}"@
                },
                borderStyle(),
            ),
        ],
    )
}

/// The rows of a layer.
pub open spec fn layer_rows(l: LayerV, top: bool, inner: int) -> Seq<RowV> {
    seq![layer_title(l.title, top, inner)] + Seq::new(
        l.lines.len(),
        |i: int| bordered_row(l.lines[i].text, l.lines[i].style, inner),
    )
}

/// The rows of the first `n` layers.
pub open spec fn layers_rows(l: Seq<LayerV>, n: int, inner: int) -> Seq<RowV>
    decreases n,
{
    if n <= 0 {
        Seq::empty()
    } else {
        layers_rows(l, n - 1, inner) + layer_rows(l[n - 1], n == 1, inner)
    }
}

/// The row with the bar that shows how full the context is.
pub open spec fn context_bar(c: ContextState, inner: int) -> RowV {
    let reported = c.reportedTokens.count > 0;
    let tokens = if reported {
        c.reportedTokens.count
    } else {
        c.estimatedTokens.count
    };
    let cells = minus(inner, 2);
    let full = min(whole_share(tokens as int, c.contextWindow.count as int, cells), cells);
    rv(
        seq![
            sv("  "@, Style::plain()),
            sv("Context "@, colored(Color::White)),
            sv(repeated('\u{25B0}', full), colored(Color::Yellow)),
            sv(repeated('\u{25B1}', cells - full), colored(Color::DarkGray)),
            sv(
                " "@ + (if reported {
                    c.reportedTokens.label@
                } else {
                    "~"@ + c.estimatedTokens.label@
                }) + " / "@ + c.contextWindow.label@,
                colored(Color::DarkGray),
            ),
        ],
    )
}

/// The bottom of the box.
pub open spec fn box_bottom(inner: int) -> RowV {
    rv(
        seq![
            sv("  "@, Style::plain()),
            sv("\u{2570}"@, borderStyle()),
            sv(repeated('\u{2500}', inner), borderStyle()),
            sv("\u{256F}"@, borderStyle()),
        ],
    )
}

/// The rows of the context display.
pub open spec fn context_rows(c: ContextState, width: int) -> Seq<RowV> {
    let inner = inner_width(width);
    let l = layers_of(c);
    seq![context_bar(c, inner)] + layers_rows(l, l.len() as int, inner) + seq![
        box_bottom(inner),
    ]
}

/// A line of a layer.
struct Styled {
    text: String,
    style: Style,
}

spec fn styled_views(v: Seq<Styled>) -> Seq<StyledV> {
    Seq::new(v.len(), |i: int| StyledV { text: v[i].text@, style: v[i].style })
}

fn addStyled(v: &mut Vec<Styled>, text: String, style: Style)
    ensures
        styled_views(final(v)@) == styled_views(old(v)@).push(StyledV { text: text@, style }),
{
    v.push(Styled { text, style });
    proof {
        assert(styled_views(v@) =~= styled_views(old(v)@).push(StyledV { text: text@, style }));
    }
}

fn pushLayer(page: &mut Page, title: &str, lines: &Vec<Styled>, top: bool, inner: usize)
    ensures
        final(page)@ == old(page)@.with_rows(
            layer_rows(
                LayerV { title: title@, lines: styled_views(lines@) },
                top,
                inner as int,
            ),
        ),
{
    let ghost l = LayerV { title: title@, lines: styled_views(lines@) };
    let ghost all = layer_rows(l, top, inner as int);
    let mut name = String::from_str(" ");
    name.append(title);
    name.append(" ");
    let w: usize = columnsOf(title);
    let rule: usize = inner.saturating_sub(w).saturating_sub(2);
    let mut spans: Vec<Span> = Vec::new();
    spans.push(span("  ", Style::plain()));
    if top {
        spans.push(span("\u{256D}", borderStyle()));
    } else {
        spans.push(span("\u{251C}", borderStyle()));
    }
    spans.push(spanOf(name, colored(Color::Cyan).bold()));
    spans.push(spanOf(repeatChar('\u{2500}', rule), borderStyle()));
    if top {
        spans.push(span("\u{256E}", borderStyle()));
    } else {
        spans.push(span("\u{2524}", borderStyle()));
    }
    proof {
        assert(span_views(spans@) =~= layer_title(title@, top, inner as int).line);
    }
    page.push(Line { spans }, false);
    proof {
        assert(page@.rows =~= old(page)@.rows + all.take(1));
    }
    let mut i: usize = 0;
    while i < lines.len()
        invariant
            i <= lines@.len(),
            l == (LayerV { title: title@, lines: styled_views(lines@) }),
            all == layer_rows(l, top, inner as int),
            page@ == old(page)@.with_rows(all.take(1 + i)),
        decreases lines@.len() - i,
    {
        pushBordered(page, lines[i].text.as_str(), lines[i].style, inner);
        proof {
            assert(l.lines[i as int].text == lines@[i as int].text@);
            assert(page@.rows =~= old(page)@.rows + all.take(2 + i));
        }
        i = i + 1;
    }
    proof {
        assert(all.take(all.len() as int) =~= all);
    }
}

fn condensedText(turns: u64, tokens: &TokenCount) -> (r: String)
    ensures
        r@ == condensed(turns, *tokens),
{
    let mut s = String::from_str(" ");
    s.append(decimal(turns).as_str());
    s.append(" turns condensed \u{00B7} ~");
    s.append(tokens.label.as_str());
    s.append(" tok");
    s
}

fn briefingLines(b: &BriefingLayer) -> (r: Vec<Styled>)
    ensures
        styled_views(r@) == briefing_layer(*b).lines,
{
    let mut v: Vec<Styled> = Vec::new();
    let mut s = String::from_str(" ");
    s.append(decimal(b.topicsMerged).as_str());
    s.append(" earlier topics merged");
    addStyled(&mut v, s, colored(Color::White));
    if b.priorBriefings > 0 {
        let mut p = String::from_str(" ");
        p.append(decimal(b.priorBriefings).as_str());
        p.append(" prior briefings");
        addStyled(&mut v, p, colored(Color::White));
    }
    let mut t = String::from_str(" ~");
    t.append(b.tokens.label.as_str());
    t.append(" tok");
    addStyled(&mut v, t, colored(Color::DarkGray));
    proof {
        assert(styled_views(v@) =~= briefing_layer(*b).lines);
    }
    v
}

fn topicLines(t: &TopicLayer) -> (r: Vec<Styled>)
    ensures
        styled_views(r@) == topic_layer(*t).lines,
{
    let mut v: Vec<Styled> = Vec::new();
    let ghost labels = texts(t.topicLabels@);
    let ghost all = topic_layer(*t).lines;
    let mut i: usize = 0;
    proof {
        assert(styled_views(v@) =~= all.take(0));
    }
    while i < t.topicLabels.len()
        invariant
            i <= t.topicLabels@.len(),
            labels == texts(t.topicLabels@),
            all == topic_layer(*t).lines,
            styled_views(v@) == all.take(i as int),
        decreases t.topicLabels@.len() - i,
    {
        proof {
            assert(labels[i as int] == t.topicLabels@[i as int]@);
        }
        let l = t.topicLabels[i].as_str();
        let mut s = String::from_str(" ");
        if bytesExceed(l, 28) {
            let mut c = cutBytes(l, 27);
            c.append("\u{2026}");
            s.append(c.as_str());
        } else {
            s.append(l);
        }
        addStyled(&mut v, s, colored(Color::White));
        proof {
            assert(styled_views(v@) =~= all.take(i + 1));
        }
        i = i + 1;
    }
    addStyled(&mut v, condensedText(t.turnsCondensed, &t.tokens), colored(Color::DarkGray));
    proof {
        assert(styled_views(v@) =~= all);
    }
    v
}

fn pushContextBar(page: &mut Page, c: &ContextState, inner: usize)
    requires
        inner <= 65535,
    ensures
        final(page)@ == old(page)@.with_row(context_bar(*c, inner as int)),
{
    let cells: usize = inner.saturating_sub(2);
    let tokens: u64 = if c.reportedTokens.count > 0 {
        c.reportedTokens.count
    } else {
        c.estimatedTokens.count
    };
    let filled: u64 = wholeShare(tokens, c.contextWindow.count, cells as u64);
    let full: usize = if filled < cells as u64 {
        filled as usize
    } else {
        cells
    };
    let mut s = String::from_str(" ");
    if c.reportedTokens.count > 0 {
        s.append(c.reportedTokens.label.as_str());
    } else {
        let mut e = String::from_str("~");
        e.append(c.estimatedTokens.label.as_str());
        s.append(e.as_str());
    }
    s.append(" / ");
    s.append(c.contextWindow.label.as_str());
    let mut spans: Vec<Span> = Vec::new();
    spans.push(span("  ", Style::plain()));
    spans.push(span("Context ", colored(Color::White)));
    spans.push(spanOf(repeatChar('\u{25B0}', full), colored(Color::Yellow)));
    spans.push(spanOf(repeatChar('\u{25B1}', cells - full), colored(Color::DarkGray)));
    spans.push(spanOf(s, colored(Color::DarkGray)));
    proof {
        assert(span_views(spans@) =~= context_bar(*c, inner as int).line);
    }
    page.push(Line { spans }, false);
}

fn pushBottom(page: &mut Page, inner: usize)
    ensures
        final(page)@ == old(page)@.with_row(box_bottom(inner as int)),
{
    let mut spans: Vec<Span> = Vec::new();
    spans.push(span("  ", Style::plain()));
    spans.push(span("\u{2570}", borderStyle()));
    spans.push(spanOf(repeatChar('\u{2500}', inner), borderStyle()));
    spans.push(span("\u{256F}", borderStyle()));
    proof {
        assert(span_views(spans@) =~= box_bottom(inner as int).line);
    }
    page.push(Line { spans }, false);
}

/// Adds the context display.
#[verifier::rlimit(60)]
#[verifier::spinoff_prover]
pub fn pushContextRows(page: &mut Page, c: &ContextState, width: u16)
    ensures
        final(page)@ == old(page)@.with_rows(context_rows(*c, width as int)),
{
    let inner: usize = innerWidth(width);
    let ghost l = layers_of(*c);
    let ghost n: int = inner as int;
    let ghost bar = context_bar(*c, n);
    pushContextBar(page, c, inner);
    let ghost mut done: int = 0;
    let mut top = true;
    proof {
        assert(page@.rows =~= old(page)@.rows + (seq![bar] + layers_rows(l, 0, n)));
    }
    match &c.s4 {
        Some(b) => {
            let lines = briefingLines(b);
            pushLayer(page, "S4 Briefing", &lines, top, inner);
            top = false;
            proof {
                done = 1;
                assert(l[0] == briefing_layer(*b));
                assert(page@.rows =~= old(page)@.rows + (seq![bar] + layers_rows(l, 1, n)));
            }
        },
        None => {},
    }
    match &c.s3 {
        Some(t) => {
            let lines = topicLines(t);
            pushLayer(page, "S3 Topic summaries", &lines, top, inner);
            top = false;
            proof {
                assert(l[done] == topic_layer(*t));
                done = done + 1;
                assert(page@.rows =~= old(page)@.rows + (seq![bar] + layers_rows(l, done, n)));
            }
        },
        None => {},
    }
    match &c.s2 {
        Some(t) => {
            let mut lines: Vec<Styled> = Vec::new();
            addStyled(&mut lines, condensedText(t.turns, &t.tokens), colored(Color::DarkGray));
            proof {
                assert(styled_views(lines@) =~= turn_layer(*t).lines);
            }
            pushLayer(page, "S2 Summaries", &lines, top, inner);
            top = false;
            proof {
                assert(l[done] == turn_layer(*t));
                done = done + 1;
                assert(page@.rows =~= old(page)@.rows + (seq![bar] + layers_rows(l, done, n)));
            }
        },
        None => {},
    }
    let mut s = String::from_str(" ");
    s.append(decimal(c.raw.turns).as_str());
    s.append(" turns \u{00B7} ~");
    s.append(c.raw.tokens.label.as_str());
    s.append(" tok");
    let mut lines: Vec<Styled> = Vec::new();
    addStyled(&mut lines, s, colored(Color::DarkGray));
    proof {
        assert(styled_views(lines@) =~= raw_layer(c.raw).lines);
    }
    pushLayer(page, "Raw", &lines, top, inner);
    proof {
        assert(l[done] == raw_layer(c.raw));
        done = done + 1;
        assert(l.len() == done);
        assert(page@.rows =~= old(page)@.rows + (seq![bar] + layers_rows(l, done, n)));
    }
    pushBottom(page, inner);
    proof {
        assert(page@.rows =~= old(page)@.rows + context_rows(*c, width as int));
    }
}

// ---- laws ----

/// The usage of the context shows what was reported, or what is estimated where nothing
/// was, and how much there is room for.
pub proof fn law_the_usage_is_told(c: ContextState, inner: int)
    ensures
        context_bar(c, inner).line.len() == 5,
        c.reportedTokens.count > 0 ==> context_bar(c, inner).line[4].text == " "@
            + c.reportedTokens.label@ + " / "@ + c.contextWindow.label@,
        c.reportedTokens.count == 0 ==> context_bar(c, inner).line[4].text == " "@ + ("~"@
            + c.estimatedTokens.label@) + " / "@ + c.contextWindow.label@,
{
}

/// What the context is made of is shown layer by layer, the oldest first and what was not
/// condensed last, and each layer tells how much is in it.
pub proof fn law_the_layers_are_shown(c: ContextState, i: int)
    ensures
        ({
            let l = layers_of(c);
            let a: int = if c.s4 is Some {
                1
            } else {
                0
            };
            let b: int = if c.s3 is Some {
                1
            } else {
                0
            };
            let d: int = if c.s2 is Some {
                1
            } else {
                0
            };
            &&& l.len() == a + b + d + 1
            &&& l.last().title == "Raw"@
            &&& l.last().lines[0].text == " "@ + dec(c.raw.turns as nat) + " turns \u{00B7} ~"@
                + c.raw.tokens.label@ + " tok"@
            &&& c.s4 matches Some(s) ==> l[0].title == "S4 Briefing"@ && l[0].lines[0].text == " "@
                + dec(s.topicsMerged as nat) + " earlier topics merged"@
            &&& c.s3 matches Some(s) ==> l[a].title == "S3 Topic summaries"@ && l[a].lines.len()
                == s.topicLabels@.len() + 1
            &&& (c.s3 matches Some(s) ==> (0 <= i < s.topicLabels@.len() && byte_len(
                s.topicLabels@[i]@,
            ) <= 28 ==> l[a].lines[i].text == " "@ + s.topicLabels@[i]@))
            &&& c.s2 matches Some(s) ==> l[a + b].title == "S2 Summaries"@ && l[a
                + b].lines[0].text == " "@ + dec(s.turns as nat) + " turns condensed \u{00B7} ~"@
                + s.tokens.label@ + " tok"@
        }),
{
}

/// Text in a box stands between its borders and fills it.
pub proof fn law_text_stands_in_its_box(s: Seq<char>, style: Style, inner: int)
    ensures
        bordered_row(s, style, inner).line.len() == 4,
        bordered_row(s, style, inner).line[1].text == "\u{2502}"@,
        bordered_row(s, style, inner).line[3].text == "\u{2502}"@,
        bordered_row(s, style, inner).line[2].style == style,
        has_prefix(bordered_row(s, style, inner).line[2].text, cut_text(s, inner)),
{
    let t = cut_text(s, inner);
    assert(filled_text(s, inner).take(t.len() as int) =~= t);
}

} // verus!
