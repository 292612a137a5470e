use deck::agent_panel::entry::{PanelEntry, WakeScheduleStatus};
use deck::agent_panel::labels::{
    diffStats, elapsedCompact, formatBytes, isWakeToolName, parseWakeSourceId,
    snippetOneLine, splitWords, timeUntilLabel,
};
use deck::agent_panel::state::{AgentPanel, Attachment, PermitOrigin, UserInput};
use deck::draw::{Line, Span, Style};
use deck::history::History;
use deck::impact::ShellImpact;
use deck::jobs_panel::WakeKind;
use deck::wrap::{sliceByDisplayColumn, stripBlockquoteBars, truncateToWidth, wrapSpannedLine};
use unicode_segmentation::UnicodeSegmentation;
use unicode_width::UnicodeWidthStr;

fn newPanel() -> AgentPanel {
    AgentPanel::new(History::new(vec![]), 0)
}

fn lineOf(text: &str) -> Line {
    Line { spans: vec![Span { text: text.to_string(), style: Style::plain() }] }
}

fn lineText(l: &Line) -> String {
    l.spans.iter().map(|s| s.text.as_str()).collect()
}

#[test]
fn wrapsEmojiParagraphCorrectly() {
    let text = "The \u{26A0}\u{FE0F} tells user: \"If you rewind past here, those .bak files stay deleted. We can't bring them back.\"";
    for w in [30usize, 40, 44, 50, 60] {
        let line = lineOf(text);
        let wrapped = wrapSpannedLine(line, w);
        for (i, wl) in wrapped.iter().enumerate() {
            let t = lineText(wl);
            let width = UnicodeWidthStr::width(t.as_str());
            assert!(
                width <= w,
                "maxW={} line{}: wrapped width {} exceeds limit for text={:?}",
                w,
                i,
                width,
                t
            );
        }
        let joined: String = wrapped.iter().map(lineText).collect::<Vec<_>>().join(" ");
        assert!(
            joined.replace("  ", " ").contains("those"),
            "maxW={}: expected 'those' intact in wrapped output, got joined={:?}",
            w,
            joined
        );
        assert!(
            !joined.contains("thosee"),
            "maxW={}: unexpected 'thosee' in joined={:?}",
            w,
            joined
        );
    }
}

#[test]
fn truncateWithEmojiRespectsLimit() {
    let text = "The \u{26A0}\u{FE0F} warning text";
    for w in [5usize, 6, 7, 10, 20] {
        let t = truncateToWidth(text, w);
        let width = UnicodeWidthStr::width(t.as_str());
        assert!(
            width <= w,
            "maxW={}: truncated width {} > limit, got {:?}",
            w,
            width,
            t
        );
    }
}

#[test]
fn wakeTurnActivatesPanelForLiveDeltas() {
    let mut panel = newPanel();

    panel.appendReasoning("dropped before active", 1);
    assert!(panel.stream.reasoning.is_empty());

    panel.pushWakeTurn("delay#3 \u{00B7} Send the message", 2);
    assert!(panel.isActive());
    assert!(matches!(
        panel.entries.last(),
        Some(PanelEntry::SessionNotice(text))
            if text.contains("delay#3") && text.contains("Send the message")
    ));

    panel.appendReasoning("model is thinking", 3);
    assert_eq!(panel.stream.reasoning, "model is thinking");
}

#[test]
fn wakeScheduleReceiptTracksFireAndDisarm() {
    let mut panel = newPanel();
    let now = 1_000_000;
    let next = now + 90_000;

    panel.wakeRegistered(
        3,
        WakeKind::Delay,
        "90s",
        Some("Good morning. Send the message.".to_string()),
        Some(next),
        now,
    );

    assert!(matches!(
        panel.entries.last(),
        Some(PanelEntry::WakeSchedule {
            id: 3,
            status: WakeScheduleStatus::Armed,
            armed: true,
            firesSoFar: 0,
            nextFireAt: Some(_),
            ..
        })
    ));

    panel.wakeFiredSource("delay#3 \u{00B7} Good morning");
    assert!(matches!(
        panel.entries.last(),
        Some(PanelEntry::WakeSchedule {
            id: 3,
            status: WakeScheduleStatus::Fired,
            armed: true,
            firesSoFar: 1,
            nextFireAt: None,
            ..
        })
    ));

    panel.wakeDisarmed(3, now);
    assert!(matches!(
        panel.entries.last(),
        Some(PanelEntry::WakeSchedule {
            id: 3,
            status: WakeScheduleStatus::Fired,
            armed: false,
            firesSoFar: 1,
            ..
        })
    ));
}

#[test]
fn dueWakeDisarmShowsFiredInsteadOfDisarmed() {
    let mut panel = newPanel();
    let now = 1_000_000;

    panel.wakeRegistered(
        4,
        WakeKind::Delay,
        "2s",
        Some("short timer".to_string()),
        Some(now - 10),
        now,
    );
    panel.wakeDisarmed(4, now);
    assert!(matches!(
        panel.entries.last(),
        Some(PanelEntry::WakeSchedule {
            id: 4,
            status: WakeScheduleStatus::Fired,
            armed: false,
            ..
        })
    ));
}

#[test]
fn earlyWakeDisarmStillShowsDisarmed() {
    let mut panel = newPanel();
    let now = 1_000_000;

    panel.wakeRegistered(
        5,
        WakeKind::Delay,
        "30s",
        Some("cancel me".to_string()),
        Some(now + 30_000),
        now,
    );
    panel.wakeDisarmed(5, now);
    assert!(matches!(
        panel.entries.last(),
        Some(PanelEntry::WakeSchedule {
            id: 5,
            status: WakeScheduleStatus::Disarmed,
            armed: false,
            ..
        })
    ));
}

#[test]
fn wakeScheduleSilentToolResultRemovesActiveRow() {
    let mut panel = newPanel();
    panel.pushUser("set a wake", 1);
    panel.toolStarted("scheduleWakeup", "scheduleWakeup 90s: Good morning", 2);
    assert!(panel.entries.iter().any(|e| matches!(e, PanelEntry::ToolActive { .. })));

    assert!(panel.finishWakeToolResult(
        "scheduleWakeup",
        "Armed wake #3 — will fire in 90s with prompt: Good morning.",
        3
    ));
    assert!(!panel.entries.iter().any(|e| matches!(e, PanelEntry::ToolActive { .. })));
    assert!(!panel.entries.iter().any(|e| matches!(e, PanelEntry::ToolResult { .. })));
}

#[test]
fn truncateStripsControlCharsMatchingRatatuiRender() {
    let text = "     1\thulls/flareCartridge.lua: local M = {}";
    for w in [10usize, 20, 30, 40, 60] {
        let t = truncateToWidth(text, w);
        assert!(
            !t.chars().any(|c| c.is_control()),
            "maxW={}: truncated contained control chars, got {:?}",
            w,
            t
        );
        let width = UnicodeWidthStr::width(t.as_str());
        assert!(
            width <= w,
            "maxW={}: truncated width {} > limit, got {:?}",
            w,
            width,
            t
        );
    }
}

// ---- wrapping ----

#[test]
fn wrappingLosesNothingButSpaces() {
    let text = "one two  three \u{1F468}\u{200D}\u{1F469}\u{200D}\u{1F467} fourfivesixseven";
    let squeezed: String = text.chars().filter(|c| *c != ' ').collect();
    for w in 2usize..40 {
        let joined: String = wrapSpannedLine(lineOf(text), w).iter().map(lineText).collect();
        let kept: String = joined.chars().filter(|c| *c != ' ').collect();
        assert_eq!(kept, squeezed, "width {w}");
    }
}

#[test]
fn clustersAreNeverTornApart() {
    let family = "\u{1F468}\u{200D}\u{1F469}\u{200D}\u{1F467}";
    let text = family.repeat(5);
    for line in wrapSpannedLine(lineOf(&text), 4) {
        for g in lineText(&line).graphemes(true) {
            assert_eq!(g, family);
        }
    }
}

#[test]
fn shortTextsAreLeftAlone() {
    assert_eq!(truncateToWidth("abc", 4), "abc");
    assert_eq!(truncateToWidth("abcd", 4), "abc\u{2026}");
    assert_eq!(truncateToWidth("\u{4F60}\u{597D}", 5), "\u{4F60}\u{597D}");
    assert_eq!(truncateToWidth("\u{4F60}\u{597D}", 4), "\u{4F60}\u{2026}");
}

#[test]
fn columnsAreCutByWidth() {
    assert_eq!(sliceByDisplayColumn("abcdef", 1, 3), "bc");
    assert_eq!(sliceByDisplayColumn("\u{4F60}\u{597D}x", 2, 9), "\u{597D}x");
}

#[test]
fn quotationBarsAreTakenOff() {
    let bar = Span { text: "\u{2502} ".to_string(), style: Style::plain() };
    let rest = Span { text: "quoted".to_string(), style: Style::plain() };
    let (bars, line, width) = stripBlockquoteBars(Line { spans: vec![bar, rest] });
    assert_eq!(bars.len(), 1);
    assert_eq!(lineText(&line), "quoted");
    assert_eq!(width, 2);
}

// ---- labels ----

#[test]
fn bytesAreShownAsFloatsWould() {
    let shown = |n: u64| {
        if n >= 1_048_576 {
            format!("{:.1} MB", n as f64 / 1_048_576.0)
        } else if n >= 1024 {
            format!("{:.0} KB", n as f64 / 1024.0)
        } else {
            format!("{n} B")
        }
    };
    for n in (0u64..70_000).chain((1_000_000..20_000_000).step_by(997)) {
        assert_eq!(formatBytes(n), shown(n));
    }
    for n in [1_048_575, 1_048_576, 123_456_789, (1 << 53) - 1, 1 << 53] {
        assert_eq!(formatBytes(n), shown(n));
    }
    for n in [(1u64 << 53) + 1, (1 << 60) + 12_345, u64::MAX - 1_024, u64::MAX] {
        assert_eq!(formatBytes(n), shown(n));
    }
}

#[test]
fn diffLinesAreCounted() {
    assert_eq!(diffStats("--- a\n+++ b\n@@ -1 +1 @@\n-x\n+y\n+z\n same"), (2, 1));
}

#[test]
fn wakeToolsAreKnown() {
    assert!(isWakeToolName("scheduleWakeup"));
    assert!(!isWakeToolName("bash"));
}

#[test]
fn timesAreShort() {
    assert_eq!(elapsedCompact(5), "5s");
    assert_eq!(timeUntilLabel(1_000, 2_000), "due");
}

#[test]
fn sourcesNameTheirId() {
    assert_eq!(parseWakeSourceId("delay#3 \u{00B7} Good morning"), Some(3));
    assert_eq!(parseWakeSourceId("cron#18446744073709551615"), Some(u64::MAX));
    assert_eq!(parseWakeSourceId("cron#18446744073709551616"), None);
    assert_eq!(parseWakeSourceId("cron"), None);
    assert_eq!(parseWakeSourceId("cron#x"), None);
}

#[test]
fn snippetsStandOnOneLine() {
    assert_eq!(splitWords(" a\tb\n c "), vec!["a", "b", "c"]);
    assert_eq!(snippetOneLine(" two\n words ", 96), "two words");
    assert_eq!(snippetOneLine(" two\n words ", usize::MAX), "two words");
    assert_eq!(snippetOneLine("caf\u{E9} noir", 4), "caf\u{2026}");
    assert_eq!(snippetOneLine("word word word", 9), "word word\u{2026}");
}

// ---- a turn ----

#[test]
fn contentIsRevealedInOrder() {
    let mut panel = newPanel();
    panel.pushUser("hello", 0);
    let text = "The quick brown fox jumps over the lazy dog, twice.";
    panel.appendContent(text, 0);
    let mut now = 0;
    while !panel.stream.pending.is_empty() {
        now += 16;
        panel.tickReveal(now);
        let together = format!("{}{}", panel.stream.content, panel.stream.pending);
        assert_eq!(together, text);
        assert!(now < 100_000);
    }
    assert_eq!(panel.displayContent(), text);
}

#[test]
fn charactersComeAsFastAsTheyArrived() {
    let mut panel = newPanel();
    panel.pushUser("hello", 0);
    panel.appendContent(&"x".repeat(20), 0);
    panel.stream.revealStart = Some(0);
    panel.stream.fade = 0;
    panel.stream.lastRevealTick = 912;
    panel.stream.totalChars = 20;
    assert!(panel.tickReveal(960));
    assert_eq!(panel.stream.content, "x");
    assert_eq!(panel.stream.fade, 0);
}

#[test]
fn aFinishedTurnIsQuietAgain() {
    let mut panel = newPanel();
    panel.pushUser("hello", 0);
    panel.toolStarted("bash", "ls", 1);
    panel.finishTurn();
    assert!(!panel.tools.active);
    panel.appendContent("late", 2);
    assert!(panel.stream.pending.is_empty());
    assert!(panel.stream.content.is_empty());
}

#[test]
fn cancellingKeepsSubagents() {
    let mut panel = newPanel();
    panel.pushUser("hello", 0);
    panel.subagentStarted("s1", "explore", "look around", 1);
    panel.queueMessage(UserInput { text: "later".to_string(), attachments: vec![] });
    panel.finalizeCancelled();
    assert_eq!(panel.queuedCount(), 0);
    assert_eq!(panel.subs.active.len(), 1);
    assert!(matches!(panel.entries.last(), Some(PanelEntry::Cancelled)));
}

#[test]
fn subagentsKeepTheirTabs() {
    let mut panel = newPanel();
    panel.subagentStarted("s1", "explore", "a", 1);
    panel.subagentStarted("s2", "explore", "b", 2);
    panel.subagentStarted("s3", "explore", "c", 3);
    panel.selectSubagentBySessionId("s3");
    panel.removeSubagent("s1");
    assert_eq!(panel.currentSubagent().map(|s| s.sessionId.as_str()), Some("s3"));
    assert!(panel.findSubagentIndex("s1").is_none());
    panel.cycleSubagent(1);
    assert_eq!(panel.currentSubagent().map(|s| s.sessionId.as_str()), Some("s2"));
}

#[test]
fn subagentsAreShownWithoutATurn() {
    let mut panel = newPanel();
    panel.subagentStarted("s1", "explore", "look around", 1);
    panel.subagentToolLine("s1", "grep", "needle");
    panel.subagentComplete("s1", "explore", 4, "found it");
    match panel.entries.last() {
        Some(PanelEntry::SubagentBlock { toolLines, done, turns, content, .. }) => {
            assert_eq!(toolLines, &vec![("grep".to_string(), "needle".to_string())]);
            assert!(*done);
            assert_eq!(*turns, 4);
            assert_eq!(content.as_deref(), Some("found it"));
        }
        other => panic!("expected a subagent block, got {other:?}"),
    }
}

#[test]
fn aSourceHasOneReceipt() {
    let mut panel = newPanel();
    panel.wakeRegistered(3, WakeKind::Cron, "hourly", None, Some(10), 1);
    panel.wakeFiredSource("cron#3");
    panel.wakeRegistered(3, WakeKind::Cron, "hourly", None, Some(20), 2);
    assert_eq!(panel.entries.len(), 1);
    assert!(matches!(
        panel.entries.last(),
        Some(PanelEntry::WakeSchedule {
            status: WakeScheduleStatus::Armed,
            firesSoFar: 1,
            nextFireAt: Some(20),
            ..
        })
    ));
    panel.wakeRegistered(4, WakeKind::TaskComplete, "task", None, None, 2);
    assert_eq!(panel.entries.len(), 1);
}

#[test]
fn aStageHasOneMarker() {
    let mut panel = newPanel();
    panel.pushUser("one", 0);
    panel.pushUser("two", 0);
    panel.pushCompactionMarker("s2", 1);
    panel.pushCompactionMarker("s2", 2);
    let n = panel
        .entries
        .iter()
        .filter(|e| matches!(e, PanelEntry::CompactionMarker { .. }))
        .count();
    assert_eq!(n, 1);
}

#[test]
fn scrollingUpSticksUntilTheUserSends() {
    let mut panel = newPanel();
    panel.pushUser("one", 0);
    panel.scroll.maxScroll = 50;
    panel.scrollUp(10);
    assert_eq!(panel.scroll.offset, 10);
    panel.pushNotice("something came in");
    assert_eq!(panel.scroll.offset, 10);
    panel.pushUser("two", 1);
    assert_eq!(panel.scroll.offset, 0);
}

// ---- prompts ----

fn withPrompt() -> AgentPanel {
    let mut panel = newPanel();
    panel.pushUser("go", 0);
    panel.showToolRequest(
        "bash",
        "ls -l",
        Some("ls -l".to_string()),
        vec!["ls *".to_string()],
        None,
        None,
        ShellImpact::Read,
        PermitOrigin::Top,
    );
    panel
}

#[test]
fn aBlankPatternIsNoPattern() {
    let mut panel = withPrompt();
    assert!(panel.permitVisible());
    assert_eq!(panel.selectedPattern(), Some("ls *".to_string()));
    panel.nextPattern();
    assert!(panel.isEditingCustom());
    assert_eq!(panel.selectedPattern(), Some("ls *".to_string()));
    for _ in 0..4 {
        panel.customPatternBackspace();
    }
    assert_eq!(panel.selectedPattern(), None);
    panel.customPatternInsert(' ');
    assert_eq!(panel.selectedPattern(), None);
    panel.customPatternInsert('x');
    assert_eq!(panel.selectedPattern(), Some("x".to_string()));
    panel.prevPattern();
    assert_eq!(panel.selectedPattern(), Some("ls *".to_string()));
}

#[test]
fn completionFollowsTheInput() {
    let mut panel = newPanel();
    panel.updateCompletion("/ta");
    assert!(panel.completionActive());
    assert_eq!(panel.completeSelected(), Some("/tasks ".to_string()));
    for text in ["no command", "/tasks ", " /ta", "/zz", ""] {
        panel.updateCompletion("/ta");
        panel.updateCompletion(text);
        assert!(!panel.completionActive(), "{text:?}");
    }
}

#[test]
fn attachmentsComeBackInOrder() {
    let mut panel = newPanel();
    for label in ["a", "b", "c"] {
        panel.addAttachment(Attachment {
            mimeType: "image/png".to_string(),
            data: vec![],
            label: label.to_string(),
            rgbaDimensions: None,
        });
    }
    panel.removeLastAttachment();
    let taken = panel.takeAttachments();
    assert_eq!(panel.attachmentCount(), 0);
    let labels: Vec<&str> = taken.iter().map(|a| a.label.as_str()).collect();
    assert_eq!(labels, vec!["a", "b"]);
}
