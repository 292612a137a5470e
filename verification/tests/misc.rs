use deck::app::pace::{pressesAgain, ScrollAxis, ScrollAxisLock};
use deck::app::terminal_input::{
    commandBytes, keyToBytes, normalizePaste, pasteBytes, resizedTo, startSize,
};
use deck::app::title::{titleText, writeTerminalTitle, TitleSpinner, TitleState};
use deck::auth_helper::{
    codexHeading, openAiCodexStatusLine, plainStatus, providersHeading, Action, AuthMini,
    AuthStatus, Effect, LoginOutcome, PendingLogin, Screen,
};
use deck::draw::Line;
use deck::fork_picker::{formatRelativeTime, truncate, Fork, ForkAction, ForkPicker, PickerState};
use deck::history::History;
use deck::image_util::{encodeRgbaToPng, needsScaling};
use deck::impact::{shellImpactGlyphColorForTool, terminalRunImpactGlyphColor, ShellImpact};
use deck::keys::{KeyCode, KeyEvent};
use deck::share::{shareOf, wholeShare};
use deck::text::{briefly, cutBytes, decimalInt, linesOf, trim};

fn key(code: KeyCode) -> KeyEvent {
    KeyEvent::plain(code)
}

fn lineText(l: &Line) -> String {
    l.spans.iter().map(|s| s.text.as_str()).collect()
}

// ---- texts ----

#[test]
fn textsAreCutAtCharacters() {
    assert_eq!(trim(" \u{3000}a b\n"), "a b");
    assert_eq!(cutBytes("a\u{E9}b", 2), "a");
    assert_eq!(cutBytes("a\u{E9}b", 3), "a\u{E9}");
    assert_eq!(briefly("short", 60), "short");
    assert_eq!(decimalInt(i64::MIN), "-9223372036854775808");
}

#[test]
fn linesAreThoseOfStd() {
    for t in ["", "a", "a\n", "a\r\nb", "\n", "a\n\nb\n", "a\rb"] {
        let ours = linesOf(t);
        let theirs: Vec<&str> = t.lines().collect();
        assert_eq!(ours, theirs, "{t:?}");
    }
}

// ---- shares ----

#[test]
fn sharesAreThoseOfFloats() {
    for t in (0u64..300_000).step_by(617) {
        for w in [1u64, 3, 7, 1000, 128_000, 200_000, 1_048_576] {
            let float = (t as f64 / w as f64 * 100.0).round() as u64;
            assert_eq!(wholeShare(t, w, 100), float, "{t} of {w}");
        }
    }
    assert_eq!(shareOf(1, 2, 100), 50);
    let large = [1u64 << 53, (1 << 53) + 1, 1 << 54, (1 << 60) + 129, u64::MAX / 3, u64::MAX];
    for t in large {
        for w in large.into_iter().chain([1, 3, 7, 1_000, 200_000]) {
            let float = (t as f64 / w as f64 * 100.0).round() as u64;
            assert_eq!(wholeShare(t, w, 100), float, "{t} of {w}");
            assert_eq!(wholeShare(w, t, 40), (w as f64 / t as f64 * 40.0).round() as u64);
        }
    }
}

// ---- history ----

#[test]
fn theDraftComesBack() {
    let mut h = History::new(vec!["one".to_string(), "two".to_string()]);
    assert_eq!(h.navigateUp("draft"), Some("two"));
    assert_eq!(h.navigateUp("two"), Some("one"));
    assert_eq!(h.navigateUp("one"), None);
    assert_eq!(h.navigateDown(), Some("two"));
    assert_eq!(h.navigateDown(), Some("draft"));
    assert!(!h.isNavigating());
    assert_eq!(h.navigateDown(), None);
}

#[test]
fn onlyTheLatestEntriesAreKept() {
    let mut h = History::new(vec![]);
    for i in 0..600 {
        assert!(h.push(&format!("entry {i}")));
    }
    assert_eq!(h.entries.len(), 500);
    assert_eq!(h.entries[0], "entry 100");
    assert!(!h.push("entry 599"));
    assert!(!h.push(""));
    assert_eq!(h.entries.len(), 500);
}

#[test]
fn theHistoryIsReadFromItsFile() {
    let h = History::load(Some(r#" ["one", "t\u0077o", "a\nb"] "#));
    assert_eq!(h.entries, ["one", "two", "a\nb"]);
    assert!(!h.isNavigating());
    for text in [None, Some(""), Some("{}"), Some("[1]"), Some("[\"a\"] x"), Some("[\"a\"")] {
        let mut h = History::load(text);
        assert!(h.entries.is_empty());
        assert_eq!(h.navigateUp("draft"), None);
    }
    assert_eq!(History::starting(Some(vec!["a".to_string()])).entries, ["a"]);
    assert!(History::starting(None).entries.is_empty());
}

#[test]
fn aSavedHistoryIsLoadedAgain() {
    let mut h = History::new(vec![]);
    assert_eq!(h.saved(), Some("[]".to_string()));
    for t in ["plain", "a \"quote\"", "back\\slash", "two\nlines\t\u{1}", "\u{1F600} \u{E9}", " "] {
        assert!(h.push(t));
    }
    h.navigateUp("draft");
    let text = h.saved().unwrap();
    assert!(text.starts_with(r#"["plain","a \"quote\"","back\\slash","two\nlines\t\u0001","#));
    let back = History::load(Some(&text));
    assert_eq!(back.entries, h.entries);
    assert!(!back.isNavigating());
}

// ---- forks ----

fn forks() -> Vec<Fork> {
    (0..3)
        .map(|i| Fork { id: format!("f{i}"), label: format!("fork {i}"), createdAt: 1000 * i })
        .collect()
}

#[test]
fn aFailedSwitchCanBeTriedAgain() {
    let mut p = ForkPicker::new(&forks(), 5000);
    p.handleKey(key(KeyCode::Down));
    match p.handleKey(key(KeyCode::Enter)) {
        ForkAction::Switch(id) => assert_eq!(id, "f1"),
        other => panic!("expected a switch, got {other:?}"),
    }
    assert!(matches!(p.handleKey(key(KeyCode::Enter)), ForkAction::Stay));
    p.switchFailed("gone".to_string());
    assert_eq!(p.state, PickerState::Browsing);
    assert_eq!(p.error.as_deref(), Some("gone"));
    p.handleKey(key(KeyCode::Up));
    assert_eq!(p.error, None);
    assert_eq!(p.selected, 0);
    assert!(matches!(p.handleKey(key(KeyCode::Esc)), ForkAction::Close));
}

#[test]
fn momentsAreRelative() {
    let now = 10_000_000;
    for (ago, text) in [
        (0, "just now"),
        (59, "just now"),
        (60, "1m ago"),
        (3_600, "1h ago"),
        (86_400, "yesterday"),
        (172_800, "2d ago"),
        (604_800, "1w ago"),
    ] {
        assert_eq!(formatRelativeTime(now - ago, now), text);
    }
    assert_eq!(formatRelativeTime(now + 100, now), "just now");
}

#[test]
fn labelsAreCut() {
    assert_eq!(truncate("label", 10), "label");
    assert!(truncate("a rather long label", 10).chars().count() <= 10);
}

// ---- images ----

#[test]
fn pixelsSurviveTheEncoding() {
    let rgba: Vec<u8> = (0..3 * 2 * 4).map(|i| (i * 10) as u8).collect();
    let png = encodeRgbaToPng(&rgba, 3, 2);
    let img = image::load_from_memory(&png).unwrap().into_rgba8();
    assert_eq!(img.dimensions(), (3, 2));
    assert_eq!(img.into_raw(), rgba);
}

#[test]
fn largeImagesAreScaledDown() {
    assert!(!needsScaling(2048, 2048));
    for (w, h, to) in [
        (4096u32, 2u32, (2048u32, 1u32)),
        (3000, 1000, (2048, 683)),
        (10, 5000, (4, 2048)),
        (0, 3000, (1, 2048)),
        (2049, 2049, (2048, 2048)),
    ] {
        assert!(needsScaling(w, h));
        let rgba = vec![200u8; (4 * w * h) as usize];
        let png = encodeRgbaToPng(&rgba, w, h);
        let img = image::load_from_memory(&png).unwrap();
        assert_eq!((img.width(), img.height()), to);
    }
}

#[test]
fn scaledImagesShowTheSamePicture() {
    let (w, h) = (4096u32, 4u32);
    let pixel = |x: u32| if x < w / 2 { [250u8, 10, 30, 255] } else { [20, 40, 240, 255] };
    let rgba: Vec<u8> = (0..h).flat_map(|_| (0..w).flat_map(pixel)).collect();
    let png = encodeRgbaToPng(&rgba, w, h);
    let img = image::load_from_memory(&png).unwrap().to_rgba8();
    assert_eq!((img.width(), img.height()), (2048, 2));
    for (x, y, p) in img.enumerate_pixels() {
        // The filter rings where the colours meet.
        if x < 1000 || x >= 1048 {
            assert_eq!(p.0, pixel(2 * x), "at {x}, {y}");
        }
    }
}

// ---- impact ----

#[test]
fn impactsHaveTheirGlyphs() {
    let (a, _) = shellImpactGlyphColorForTool(ShellImpact::Delete);
    let (b, _) = terminalRunImpactGlyphColor(ShellImpact::Delete.asRun());
    assert_eq!(a, b);
}

// ---- keys and pastes ----

#[test]
fn keysAreEncodedForTheTerminal() {
    assert_eq!(keyToBytes(KeyEvent::ctrl(KeyCode::Char('c'))), Some(vec![3]));
    assert_eq!(keyToBytes(key(KeyCode::Char('\u{20AC}'))), Some("\u{20AC}".as_bytes().to_vec()));
    assert_eq!(keyToBytes(key(KeyCode::Enter)), Some(b"\r".to_vec()));
    assert_eq!(keyToBytes(key(KeyCode::Delete)), Some(b"\x1b[3~".to_vec()));
    assert_eq!(keyToBytes(key(KeyCode::PageUp)), None);
}

#[test]
fn pastesHaveUnixLineEnds() {
    let t = "a\r\nb\rc\n";
    assert_eq!(normalizePaste(t), "a\nb\nc\n");
    assert_eq!(normalizePaste(&normalizePaste(t)), normalizePaste(t));
    assert_eq!(pasteBytes("x\u{1F600}", false), "x\u{1F600}".as_bytes().to_vec());
    assert_eq!(pasteBytes("x", true), b"\x1b[200~x\x1b[201~".to_vec());
    assert_eq!(commandBytes("npm i"), b"npm i\n".to_vec());
}

#[test]
fn terminalsLeaveRoomForTheFrame() {
    assert_eq!(startSize(80, 24).1, 21);
    assert_eq!(resizedTo(80, 24).1, 20);
    assert_eq!(startSize(80, 0).1, 0);
}

// ---- pace ----

#[test]
fn diagonalScrollingIsSwallowed() {
    let mut l = ScrollAxisLock::new(0);
    assert!(l.allow(ScrollAxis::Vertical, 10));
    assert!(!l.allow(ScrollAxis::Horizontal, 20));
    assert!(l.allow(ScrollAxis::Vertical, 100));
    assert!(!l.allow(ScrollAxis::Horizontal, 250));
    assert!(!l.allow(ScrollAxis::Horizontal, 251));
    assert!(l.allow(ScrollAxis::Horizontal, 402));
    assert!(!l.allow(ScrollAxis::Vertical, 403));
}

#[test]
fn twoPressesInASecondQuit() {
    assert!(!pressesAgain(None, 0));
    assert!(pressesAgain(Some(0), 999));
    assert!(!pressesAgain(Some(0), 5_000));
}

// ---- title ----

#[test]
fn titlesNameTheTopic() {
    assert_eq!(titleText("x", &None), "flatline");
    assert_eq!(titleText("x", &Some(String::new())), "flatline");
    let t = Some("Fix the bug".to_string());
    assert_eq!(titleText("x", &t), "x Fix the bug");
    assert_eq!(writeTerminalTitle("x", &t), "\x1b]2;x Fix the bug\x07");
}

#[test]
fn theSpinnerGoesRound() {
    let mut s = TitleSpinner::new(0);
    let first = s.current();
    let mut now = 0;
    let mut steps = 0;
    while steps < 24 {
        now += 10;
        if s.tick(now) {
            steps += 1;
        }
    }
    assert_eq!(s.current(), first);
}

#[test]
fn unseenWorkLeadsTheTitleUntilItIsSeen() {
    let mut t = TitleState::new(0);
    t.topic = Some("topic".to_string());
    t.windowFocused = false;
    t.unseenWork = true;
    let unseen = t.topicTitle(false);
    assert_eq!(t.topicTitle(true), unseen);
    assert!(t.focusGained(false, false).is_some());
    assert!(!t.unseenWork);
    assert_ne!(t.topicTitle(false), unseen);
}

#[test]
fn anOpenPromptStaysFlagged() {
    let mut t = TitleState::new(0);
    t.windowFocused = false;
    t.unseenPermit = true;
    t.focusGained(true, true);
    assert!(t.unseenPermit);
    t.focusGained(false, true);
    assert!(!t.unseenPermit);
}

// ---- signing in ----

fn signedIn() -> AuthStatus {
    AuthStatus {
        configured: true,
        email: None,
        accountId: Some("acct".to_string()),
        planType: Some("pro".to_string()),
        expired: true,
    }
}

fn signedOut() -> AuthStatus {
    AuthStatus { configured: false, email: None, accountId: None, planType: None, expired: false }
}

#[test]
fn statusIsToldInALine() {
    assert_eq!(openAiCodexStatusLine(&signedIn()), "acct (pro, expired)");
    assert_eq!(openAiCodexStatusLine(&signedOut()), "not signed in");
    assert!(!plainStatus(&signedIn()).is_empty());
    let rows: Vec<String> = codexHeading(&signedOut(), "/auth.json").iter().map(lineText).collect();
    assert_eq!(rows, vec!["OpenAI Codex OAuth", "Status: not signed in", "Store: /auth.json"]);
    assert_eq!(lineText(&providersHeading()), "OAuth setup  Choose a provider to sign in.");
}

#[test]
fn theCursorGoesRound() {
    let mut a = AuthMini::new();
    a.handleKey(KeyCode::Up, false);
    assert_eq!(a.selected, 2);
    a.handleKey(KeyCode::Down, false);
    assert_eq!(a.selected, 0);
}

#[test]
fn signingInWaitsForTheBrowser() {
    let mut a = AuthMini::new();
    assert_eq!(a.handleKey(KeyCode::Enter, false), Effect::Stay);
    assert_eq!(a.screen, Screen::OpenAiCodex);
    assert_eq!(a.actions(false), vec![Action::SignIn, Action::Back]);
    assert_eq!(a.handleKey(KeyCode::Enter, false), Effect::StartLogin);
    a.loginStarted(PendingLogin {
        verificationUrl: "https://example.invalid/device".to_string(),
        userCode: "ABCD".to_string(),
    });
    assert_eq!(a.screen, Screen::WaitingForBrowser);
    assert!(a.waitingRows().iter().any(|l| lineText(l).contains("ABCD")));
    a.loginFinished(LoginOutcome::SignedIn {
        email: None,
        accountId: None,
        planType: Some("pro".to_string()),
    });
    assert_eq!(a.notice.as_deref(), Some("Signed in as OpenAI account (pro)."));
}

#[test]
fn failedSignInsSayWhy() {
    let mut a = AuthMini::new();
    let pending = || PendingLogin { verificationUrl: String::new(), userCode: String::new() };
    a.loginFinished(LoginOutcome::Refused("late".to_string()));
    assert_eq!(a.notice, None);
    a.loginStarted(pending());
    a.loginFinished(LoginOutcome::Refused("denied".to_string()));
    assert_eq!(a.notice.as_deref(), Some("Sign-in failed: denied"));
    a.loginStarted(pending());
    a.loginFinished(LoginOutcome::TaskEnded("panic".to_string()));
    assert_eq!(a.notice.as_deref(), Some("Sign-in task ended: panic"));
}
