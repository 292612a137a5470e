//! The sign-in helper: a small menu with a provider list, a provider screen and
//! a screen that waits for the browser.

use vstd::prelude::*;
use vstd::string::*;
use crate::draw::{
    Color, Line, Rect, SpanV, Style, addLine, colored, lineOf, lineOf2, line_views, min, span,
    spanOf, sv,
};
use crate::keys::KeyCode;
use crate::text::{cat2, has_prefix, opt_text, padRight, pad_right};

verus! {

/// Rows of the inline panel.
pub const INLINE_HEIGHT: u16 = 14;

/// Columns of the panel.
pub const PANEL_WIDTH: u16 = 74;

/// A sign-in provider.
#[derive(Clone, Copy, Debug, PartialEq, Eq, Structural)]
pub enum Provider {
    OpenAiCodex,
    Future,
}

/// What is known of the stored credentials.
#[derive(Clone, Debug)]
pub struct AuthStatus {
    pub configured: bool,
    pub email: Option<String>,
    pub accountId: Option<String>,
    pub planType: Option<String>,
    pub expired: bool,
}

/// The screen that is shown.
#[derive(Clone, Copy, Debug, PartialEq, Eq, Structural)]
pub enum Screen {
    Providers,
    OpenAiCodex,
    WaitingForBrowser,
}

/// A menu entry.
#[derive(Clone, Copy, Debug, PartialEq, Eq, Structural)]
pub enum Action {
    Provider(Provider),
    SignIn,
    Logout,
    Back,
    Quit,
}

/// What the caller has to do after an event.
#[derive(Clone, Copy, Debug, PartialEq, Eq, Structural)]
pub enum Effect {
    /// Nothing.
    Stay,
    /// Leave the helper.
    Quit,
    /// Stop waiting for the sign-in.
    AbortLogin,
    /// Request a device code, and report with [`AuthMini::loginStarted`] or
    /// [`AuthMini::loginRefused`].
    StartLogin,
    /// Remove the stored credentials, then call [`AuthMini::loggedOut`].
    ClearCredentials,
}

/// A sign-in that waits for the browser.
#[derive(Clone, Debug)]
pub struct PendingLogin {
    pub verificationUrl: String,
    pub userCode: String,
}

/// How a sign-in ended.
#[derive(Debug)]
pub enum LoginOutcome {
    SignedIn { email: Option<String>, accountId: Option<String>, planType: Option<String> },
    Refused(String),
    TaskEnded(String),
}

/// The state of the helper.
pub struct AuthMini {
    pub screen: Screen,
    pub selected: usize,
    pub notice: Option<String>,
    pub pendingLogin: Option<PendingLogin>,
}

// ---- texts ----

/// The first of two optional texts that is there, else `other`.
pub open spec fn first_of(a: Option<String>, b: Option<String>, other: Seq<char>) -> Seq<char> {
    match a {
        Some(s) => s@,
        None => match b {
            Some(s) => s@,
            None => other,
        },
    }
}

fn firstOf(a: &Option<String>, b: &Option<String>, other: &str) -> (r: String)
    ensures
        r@ == first_of(*a, *b, other@),
{
    match a {
        Some(s) => s.clone(),
        None => match b {
            Some(s) => s.clone(),
            None => String::from_str(other),
        },
    }
}

/// The status of the stored credentials in a line.
pub open spec fn status_line(s: AuthStatus) -> Seq<char> {
    if !s.configured {
        "not signed in"@
    } else {
        let who = first_of(s.email, s.accountId, "signed in"@);
        let token = if s.expired {
            "expired"@
        } else {
            "valid"@
        };
        match s.planType {
            Some(plan) => who + " ("@ + plan@ + ", "@ + token + ")"@,
            None => who + " ("@ + token + ")"@,
        }
    }
}

/// The status of the stored credentials in a line.
pub fn openAiCodexStatusLine(s: &AuthStatus) -> (r: String)
    ensures
        r@ == status_line(*s),
{
    if !s.configured {
        return String::from_str("not signed in");
    }
    let mut out = firstOf(&s.email, &s.accountId, "signed in");
    let token = if s.expired {
        "expired"
    } else {
        "valid"
    };
    out.append(" (");
    match &s.planType {
        Some(plan) => {
            out.append(plan.as_str());
            out.append(", ");
        },
        None => {},
    }
    out.append(token);
    out.append(")");
    out
}

/// The line that is printed where there is no terminal.
pub fn plainStatus(s: &AuthStatus) -> (r: String)
    ensures
        r@ == "openai-codex: "@ + status_line(*s),
{
    let mut out = String::from_str("openai-codex: ");
    out.append(openAiCodexStatusLine(s).as_str());
    out
}

impl Provider {
    /// The providers, in the order of the menu.
    pub fn all() -> (r: Vec<Provider>)
        ensures
            r@ == seq![Provider::OpenAiCodex, Provider::Future],
    {
        let mut v: Vec<Provider> = Vec::new();
        v.push(Provider::OpenAiCodex);
        v.push(Provider::Future);
        proof {
            assert(v@ =~= seq![Provider::OpenAiCodex, Provider::Future]);
        }
        v
    }

    /// The name of the provider in the menu.
    pub open spec fn name(self) -> Seq<char> {
        match self {
            Provider::OpenAiCodex => "OpenAI Codex"@,
            Provider::Future => "More OAuth providers"@,
        }
    }

    pub fn label(self) -> (r: &'static str)
        ensures
            r@ == self.name(),
    {
        match self {
            Provider::OpenAiCodex => "OpenAI Codex",
            Provider::Future => "More OAuth providers",
        }
    }

    /// The status text of the provider, given the stored credentials.
    pub open spec fn state(self, s: AuthStatus) -> Seq<char> {
        match self {
            Provider::OpenAiCodex => status_line(s),
            Provider::Future => "not configured yet"@,
        }
    }

    pub fn status(self, s: &AuthStatus) -> (r: String)
        ensures
            r@ == self.state(*s),
    {
        match self {
            Provider::OpenAiCodex => openAiCodexStatusLine(s),
            Provider::Future => String::from_str("not configured yet"),
        }
    }
}

/// The label of a menu entry.
pub open spec fn action_label(a: Action) -> Seq<char> {
    match a {
        Action::Provider(p) => p.name(),
        Action::SignIn => "Sign in with browser"@,
        Action::Logout => "Remove stored credentials"@,
        Action::Back => "Back"@,
        Action::Quit => "Quit"@,
    }
}

pub fn actionLabel(action: Action) -> (r: &'static str)
    ensures
        r@ == action_label(action),
{
    match action {
        Action::Provider(p) => p.label(),
        Action::SignIn => "Sign in with browser",
        Action::Logout => "Remove stored credentials",
        Action::Back => "Back",
        Action::Quit => "Quit",
    }
}

/// The notice after a sign-in ended.
pub open spec fn outcome_notice(o: LoginOutcome) -> Seq<char> {
    match o {
        LoginOutcome::SignedIn { email, accountId, planType } => "Signed in as "@ + first_of(
            email,
            accountId,
            "OpenAI account"@,
        ) + (match planType {
            Some(plan) => " ("@ + plan@ + ")"@,
            None => Seq::empty(),
        }) + "."@,
        LoginOutcome::Refused(e) => "Sign-in failed: "@ + e@,
        LoginOutcome::TaskEnded(e) => "Sign-in task ended: "@ + e@,
    }
}

fn outcomeNotice(o: &LoginOutcome) -> (r: String)
    ensures
        r@ == outcome_notice(*o),
{
    match o {
        LoginOutcome::SignedIn { email, accountId, planType } => {
            let mut s = String::from_str("Signed in as ");
            s.append(firstOf(email, accountId, "OpenAI account").as_str());
            let mut suffix = String::new();
            match planType {
                Some(plan) => {
                    suffix = String::from_str(" (");
                    suffix.append(plan.as_str());
                    suffix.append(")");
                },
                None => {},
            }
            s.append(suffix.as_str());
            s.append(".");
            s
        },
        LoginOutcome::Refused(e) => {
            let mut s = String::from_str("Sign-in failed: ");
            s.append(e.as_str());
            s
        },
        LoginOutcome::TaskEnded(e) => {
            let mut s = String::from_str("Sign-in task ended: ");
            s.append(e.as_str());
            s
        },
    }
}

// ---- the menu ----

/// A step on from `n`, round the end of `len`, is one from where `n` lies in it.
proof fn lemma_step_down(n: int, len: int)
    requires
        n >= 0,
        len > 0,
    ensures
        (n + 1) % len == (if n % len + 1 < len {
            n % len + 1
        } else {
            0
        }),
{
    assert((n + 1) % len == (n % len + 1) % len) by (nonlinear_arith)
        requires
            n >= 0,
            len > 0,
    ;
    let k = n % len + 1;
    if k < len {
        vstd::arithmetic::div_mod::lemma_small_mod(k as nat, len as nat);
    } else {
        vstd::arithmetic::div_mod::lemma_mod_self_0(len);
    }
}

/// The menu of a screen.
pub open spec fn menu(screen: Screen, configured: bool) -> Seq<Action> {
    match screen {
        Screen::Providers => seq![
            Action::Provider(Provider::OpenAiCodex),
            Action::Provider(Provider::Future),
            Action::Quit,
        ],
        Screen::OpenAiCodex => if configured {
            seq![Action::SignIn, Action::Logout, Action::Back]
        } else {
            seq![Action::SignIn, Action::Back]
        },
        Screen::WaitingForBrowser => Seq::empty(),
    }
}

impl AuthMini {
    /// The entry under the cursor stands in the menu, or the menu is empty.
    pub open spec fn wf(self, configured: bool) -> bool {
        self.selected == 0 || self.selected < menu(self.screen, configured).len()
    }

    pub fn new() -> (r: Self)
        ensures
            r.screen is Providers,
            r.selected == 0,
            r.notice is None,
            r.pendingLogin is None,
    {
        AuthMini { screen: Screen::Providers, selected: 0, notice: None, pendingLogin: None }
    }

    /// The menu of the current screen. `configured` says whether credentials
    /// are stored.
    pub fn actions(&self, configured: bool) -> (r: Vec<Action>)
        ensures
            r@ == menu(self.screen, configured),
    {
        let mut v: Vec<Action> = Vec::new();
        match self.screen {
            Screen::Providers => {
                v.push(Action::Provider(Provider::OpenAiCodex));
                v.push(Action::Provider(Provider::Future));
                v.push(Action::Quit);
            },
            Screen::OpenAiCodex => {
                v.push(Action::SignIn);
                if configured {
                    v.push(Action::Logout);
                }
                v.push(Action::Back);
            },
            Screen::WaitingForBrowser => {},
        }
        proof {
            assert(v@ =~= menu(self.screen, configured));
        }
        v
    }

    /// The helper with the cursor moved one entry on, up or down, around the ends.
    pub open spec fn moved(self, configured: bool, down: bool) -> AuthMini {
        let len = menu(self.screen, configured).len() as int;
        if len == 0 {
            self
        } else {
            let at = if down {
                (self.selected + 1) % len
            } else if self.selected > 0 {
                (self.selected - 1) % len
            } else {
                len - 1
            };
            AuthMini { selected: at as usize, ..self }
        }
    }

    fn moveSelection(&mut self, configured: bool, down: bool)
        ensures
            *final(self) == old(self).moved(configured, down),
    {
        let len: usize = self.actions(configured).len();
        if len == 0 {
            return;
        }
        if down {
            let at: usize = self.selected % len + 1;
            proof {
                lemma_step_down(self.selected as int, len as int);
            }
            self.selected = if at < len {
                at
            } else {
                0
            };
        } else {
            self.selected = if self.selected > 0 {
                (self.selected - 1) % len
            } else {
                len - 1
            };
        }
    }

    /// What choosing a menu entry changes, and what it asks for.
    pub open spec fn chosen(self, action: Action) -> (AuthMini, Effect) {
        match action {
            Action::Provider(Provider::OpenAiCodex) => (
                AuthMini { screen: Screen::OpenAiCodex, selected: 0, notice: None, ..self },
                Effect::Stay,
            ),
            Action::Back => (
                AuthMini { screen: Screen::Providers, selected: 0, notice: None, ..self },
                Effect::Stay,
            ),
            Action::Logout => (self, Effect::ClearCredentials),
            Action::Quit => (self, Effect::Quit),
            _ => (self, Effect::Stay),
        }
    }

    /// Whether choosing a menu entry leads to `after` and asks for `r`.
    pub open spec fn picks(self, action: Action, after: AuthMini, r: Effect) -> bool {
        match action {
            Action::Provider(Provider::Future) => {
                &&& r == Effect::Stay
                &&& opt_text(after.notice) == Some(
                    "Future OAuth providers will appear here when supported."@,
                )
                &&& after == (AuthMini { notice: after.notice, ..self })
            },
            Action::SignIn => {
                &&& r == Effect::StartLogin
                &&& opt_text(after.notice) == Some("Requesting OpenAI device code..."@)
                &&& after == (AuthMini {
                    screen: Screen::WaitingForBrowser,
                    notice: after.notice,
                    ..self
                })
            },
            _ => (after, r) == self.chosen(action),
        }
    }

    /// Whether choosing the entry under the cursor leads to `after` and asks for `r`.
    pub open spec fn picks_selected(self, configured: bool, after: AuthMini, r: Effect) -> bool {
        let m = menu(self.screen, configured);
        if self.selected < m.len() {
            self.picks(m[self.selected as int], after, r)
        } else {
            after == self && r == Effect::Stay
        }
    }

    /// Handles the choice of a menu entry.
    pub fn handleAction(&mut self, action: Action) -> (r: Effect)
        ensures
            old(self).picks(action, *final(self), r),
    {
        match action {
            Action::Provider(Provider::OpenAiCodex) => {
                self.screen = Screen::OpenAiCodex;
                self.selected = 0;
                self.notice = None;
                Effect::Stay
            },
            Action::Provider(Provider::Future) => {
                self.notice = Some(
                    String::from_str("Future OAuth providers will appear here when supported."),
                );
                Effect::Stay
            },
            Action::SignIn => {
                self.screen = Screen::WaitingForBrowser;
                self.notice = Some(String::from_str("Requesting OpenAI device code..."));
                Effect::StartLogin
            },
            Action::Logout => Effect::ClearCredentials,
            Action::Back => {
                self.screen = Screen::Providers;
                self.selected = 0;
                self.notice = None;
                Effect::Stay
            },
            Action::Quit => Effect::Quit,
        }
    }

    /// Whether a key goes back a screen, or leaves from the first.
    pub open spec fn is_back(key: KeyCode) -> bool {
        key == KeyCode::Esc || key == KeyCode::Char('q')
    }

    /// Whether a key chooses the entry under the cursor.
    pub open spec fn is_choose(key: KeyCode) -> bool {
        key == KeyCode::Enter || key == KeyCode::Char(' ')
    }

    /// Handles a key. Esc and `q` go back to the provider list, and leave from
    /// there; the arrows, `k` and `j` move the cursor; Enter and Space choose.
    pub fn handleKey(&mut self, key: KeyCode, configured: bool) -> (r: Effect)
        ensures
            Self::is_back(key) && old(self).screen is Providers ==> *final(self) == *old(self) && r
                == Effect::Quit,
            Self::is_back(key) && old(self).screen is OpenAiCodex ==> *final(self) == (AuthMini {
                screen: Screen::Providers,
                selected: 0,
                ..*old(self)
            }) && r == Effect::Stay,
            Self::is_back(key) && old(self).screen is WaitingForBrowser ==> {
                &&& final(self).screen is Providers
                &&& final(self).selected == 0
                &&& final(self).pendingLogin is None
                &&& opt_text(final(self).notice) == Some("Sign-in cancelled."@)
                &&& r == (if old(self).pendingLogin is Some {
                    Effect::AbortLogin
                } else {
                    Effect::Stay
                })
            },
            key == KeyCode::Up || key == KeyCode::Char('k') ==> *final(self) == old(self).moved(
                configured,
                false,
            ) && r == Effect::Stay,
            key == KeyCode::Down || key == KeyCode::Char('j') ==> *final(self) == old(self).moved(
                configured,
                true,
            ) && r == Effect::Stay,
            Self::is_choose(key) ==> old(self).picks_selected(configured, *final(self), r),
            !Self::is_back(key) && !Self::is_choose(key) && key != KeyCode::Up && key
                != KeyCode::Down && key != KeyCode::Char('k') && key != KeyCode::Char('j')
                ==> *final(self) == *old(self) && r == Effect::Stay,
    {
        match key {
            KeyCode::Esc => self.goBack(),
            KeyCode::Up => {
                self.moveSelection(configured, false);
                Effect::Stay
            },
            KeyCode::Down => {
                self.moveSelection(configured, true);
                Effect::Stay
            },
            KeyCode::Enter => self.pickEntry(configured),
            KeyCode::Char(c) => {
                if c == 'q' {
                    self.goBack()
                } else if c == 'k' {
                    self.moveSelection(configured, false);
                    Effect::Stay
                } else if c == 'j' {
                    self.moveSelection(configured, true);
                    Effect::Stay
                } else if c == ' ' {
                    self.pickEntry(configured)
                } else {
                    Effect::Stay
                }
            },
            _ => Effect::Stay,
        }
    }

    fn pickEntry(&mut self, configured: bool) -> (r: Effect)
        ensures
            old(self).picks_selected(configured, *final(self), r),
    {
        let m = self.actions(configured);
        if self.selected < m.len() {
            let a = m[self.selected];
            self.handleAction(a)
        } else {
            Effect::Stay
        }
    }

    fn goBack(&mut self) -> (r: Effect)
        ensures
            old(self).screen is Providers ==> *final(self) == *old(self) && r == Effect::Quit,
            old(self).screen is OpenAiCodex ==> *final(self) == (AuthMini {
                screen: Screen::Providers,
                selected: 0,
                ..*old(self)
            }) && r == Effect::Stay,
            old(self).screen is WaitingForBrowser ==> {
                &&& final(self).screen is Providers
                &&& final(self).selected == 0
                &&& final(self).pendingLogin is None
                &&& opt_text(final(self).notice) == Some("Sign-in cancelled."@)
                &&& r == (if old(self).pendingLogin is Some {
                    Effect::AbortLogin
                } else {
                    Effect::Stay
                })
            },
    {
        match self.screen {
            Screen::Providers => {
                return Effect::Quit;
            },
            _ => {},
        }
        let mut effect = Effect::Stay;
        match self.screen {
            Screen::WaitingForBrowser => {
                if self.pendingLogin.is_some() {
                    effect = Effect::AbortLogin;
                }
                self.pendingLogin = None;
                self.notice = Some(String::from_str("Sign-in cancelled."));
            },
            _ => {},
        }
        self.screen = Screen::Providers;
        self.selected = 0;
        effect
    }

    /// The device code arrived: the browser step can begin.
    pub fn loginStarted(&mut self, pending: PendingLogin)
        ensures
            *final(self) == (AuthMini { pendingLogin: Some(pending), notice: None, ..*old(self) }),
    {
        self.pendingLogin = Some(pending);
        self.notice = None;
    }

    /// The request for a device code failed.
    pub fn loginRefused(&mut self, error: &str)
        ensures
            final(self).screen is OpenAiCodex,
            opt_text(final(self).notice) == Some("Sign-in failed: "@ + error@),
            final(self).selected == old(self).selected,
            final(self).pendingLogin == old(self).pendingLogin,
    {
        self.screen = Screen::OpenAiCodex;
        let mut s = String::from_str("Sign-in failed: ");
        s.append(error);
        self.notice = Some(s);
    }

    /// The credentials were removed.
    pub fn loggedOut(&mut self)
        ensures
            opt_text(final(self).notice) == Some("Removed OpenAI Codex credentials."@),
            *final(self) == (AuthMini { notice: final(self).notice, ..*old(self) }),
    {
        self.notice = Some(String::from_str("Removed OpenAI Codex credentials."));
    }

    /// The pending sign-in ended. Where none is pending, nothing happens.
    pub fn loginFinished(&mut self, outcome: LoginOutcome)
        ensures
            old(self).pendingLogin is None ==> *final(self) == *old(self),
            old(self).pendingLogin is Some ==> {
                &&& final(self).screen is OpenAiCodex
                &&& final(self).selected == 0
                &&& final(self).pendingLogin is None
                &&& opt_text(final(self).notice) == Some(outcome_notice(outcome))
            },
    {
        if self.pendingLogin.is_none() {
            return;
        }
        self.pendingLogin = None;
        self.notice = Some(outcomeNotice(&outcome));
        self.screen = Screen::OpenAiCodex;
        self.selected = 0;
    }
}

// ---- what is shown ----

/// The panel in the area: at most 74 columns, centered.
pub open spec fn centered_panel(area: Rect) -> Rect {
    let w = min(PANEL_WIDTH as int, area.width as int);
    Rect { x: (area.x + (area.width - w) / 2) as u16, width: w as u16, ..area }
}

pub fn centeredPanel(area: Rect) -> (r: Rect)
    requires
        area.wf(),
    ensures
        r == centered_panel(area),
        r.wf(),
{
    let w: u16 = if PANEL_WIDTH < area.width {
        PANEL_WIDTH
    } else {
        area.width
    };
    Rect { x: area.x + (area.width - w) / 2, y: area.y, width: w, height: area.height }
}

/// The rows of a heading.
pub open spec fn heading(s: Seq<char>) -> Seq<SpanV> {
    seq![sv(s, colored(Color::White).bold())]
}

/// A row of plain text.
pub open spec fn plain_row(s: Seq<char>) -> Seq<SpanV> {
    seq![sv(s, Style::plain())]
}

/// The items of the provider list.
pub open spec fn provider_rows(s: AuthStatus) -> Seq<Seq<SpanV>> {
    seq![
        seq![
            sv(pad_right("OpenAI Codex"@, 22), Style::plain()),
            sv(status_line(s), colored(Color::Gray)),
        ],
        seq![
            sv(pad_right("More OAuth providers"@, 22), Style::plain()),
            sv("not configured yet"@, colored(Color::Gray)),
        ],
        plain_row("Quit"@),
    ]
}

/// The items of the provider list.
pub fn providerRows(s: &AuthStatus) -> (r: Vec<Line>)
    ensures
        line_views(r@) == provider_rows(*s),
{
    let mut out: Vec<Line> = Vec::new();
    let a = Provider::OpenAiCodex;
    let b = Provider::Future;
    addLine(
        &mut out,
        lineOf2(
            spanOf(padRight(a.label(), 22), Style::plain()),
            spanOf(a.status(s), colored(Color::Gray)),
        ),
    );
    addLine(
        &mut out,
        lineOf2(
            spanOf(padRight(b.label(), 22), Style::plain()),
            spanOf(b.status(s), colored(Color::Gray)),
        ),
    );
    addLine(&mut out, lineOf(span("Quit", Style::plain())));
    proof {
        assert(line_views(out@) =~= provider_rows(*s));
    }
    out
}

/// The text above the provider list.
pub fn providersHeading() -> (r: Line)
    ensures
        r@ == heading("OAuth setup"@) + plain_row("  Choose a provider to sign in."@),
{
    let r = lineOf2(
        span("OAuth setup", colored(Color::White).bold()),
        span("  Choose a provider to sign in.", Style::plain()),
    );
    proof {
        assert(r@ =~= heading("OAuth setup"@) + plain_row("  Choose a provider to sign in."@));
    }
    r
}

/// The text above the actions of the provider.
pub fn codexHeading(s: &AuthStatus, store: &str) -> (r: Vec<Line>)
    ensures
        line_views(r@) == seq![
            heading("OpenAI Codex OAuth"@),
            plain_row("Status: "@ + status_line(*s)),
            plain_row("Store: "@ + store@),
        ],
{
    let mut out: Vec<Line> = Vec::new();
    let status = openAiCodexStatusLine(s);
    addLine(&mut out, lineOf(span("OpenAI Codex OAuth", colored(Color::White).bold())));
    addLine(&mut out, lineOf(spanOf(cat2("Status: ", status.as_str()), Style::plain())));
    addLine(&mut out, lineOf(spanOf(cat2("Store: ", store), Style::plain())));
    proof {
        assert(line_views(out@) =~= seq![
            heading("OpenAI Codex OAuth"@),
            plain_row("Status: "@ + status_line(*s)),
            plain_row("Store: "@ + store@),
        ]);
    }
    out
}

/// The text of the waiting screen.
pub open spec fn waiting_rows(a: AuthMini) -> Seq<Seq<SpanV>> {
    match a.pendingLogin {
        Some(p) => seq![
            heading("OpenAI Codex sign-in"@),
            plain_row("1. Open this URL:"@),
            seq![sv("   "@ + p.verificationUrl@, colored(Color::Cyan))],
            plain_row("2. Enter this code:"@),
            seq![sv("   "@ + p.userCode@, colored(Color::Yellow).bold())],
            plain_row("3. Finish in the browser. Flatline is waiting here."@),
            plain_row(""@),
            plain_row("Esc cancels waiting."@),
        ],
        None => seq![
            heading("OpenAI Codex sign-in"@),
            plain_row(
                match a.notice {
                    Some(n) => n@,
                    None => "Requesting OpenAI device code..."@,
                },
            ),
        ],
    }
}

impl AuthMini {
    /// The text of the waiting screen.
    pub fn waitingRows(&self) -> (r: Vec<Line>)
        ensures
            line_views(r@) == waiting_rows(*self),
    {
        let mut out: Vec<Line> = Vec::new();
        let bold = colored(Color::White).bold();
        addLine(&mut out, lineOf(span("OpenAI Codex sign-in", bold)));
        match &self.pendingLogin {
            Some(p) => {
                let mut url = String::from_str("   ");
                url.append(p.verificationUrl.as_str());
                let mut code = String::from_str("   ");
                code.append(p.userCode.as_str());
                addLine(&mut out, lineOf(span("1. Open this URL:", Style::plain())));
                addLine(&mut out, lineOf(spanOf(url, colored(Color::Cyan))));
                addLine(&mut out, lineOf(span("2. Enter this code:", Style::plain())));
                addLine(&mut out, lineOf(spanOf(code, colored(Color::Yellow).bold())));
                addLine(
                    &mut out,
                    lineOf(
                        span("3. Finish in the browser. Flatline is waiting here.", Style::plain()),
                    ),
                );
                addLine(&mut out, lineOf(span("", Style::plain())));
                addLine(&mut out, lineOf(span("Esc cancels waiting.", Style::plain())));
            },
            None => {
                match &self.notice {
                    Some(n) => {
                        addLine(&mut out, lineOf(span(n.as_str(), Style::plain())));
                    },
                    None => {
                        addLine(
                            &mut out,
                            lineOf(span("Requesting OpenAI device code...", Style::plain())),
                        );
                    },
                }
            },
        }
        proof {
            assert(line_views(out@) =~= waiting_rows(*self));
        }
        out
    }

    /// The help line: the notice, or the keys.
    pub fn helpText(&self) -> (r: String)
        ensures
            r@ == (match self.notice {
                Some(n) => n@,
                None => "up/down select  enter open  esc back  q quit"@,
            }),
    {
        match &self.notice {
            Some(n) => n.clone(),
            None => String::from_str("up/down select  enter open  esc back  q quit"),
        }
    }
}

// ---- laws ----

/// The cursor goes round: one step down and one up, or the other way, ends
/// where it began.
pub proof fn law_cursor_steps_undo_each_other(a: AuthMini, configured: bool, down: bool)
    requires
        a.wf(configured),
    ensures
        a.moved(configured, down).moved(configured, !down) == a,
        a.moved(configured, down).wf(configured),
{
    let len = menu(a.screen, configured).len() as int;
    if len > 0 {
        let n = a.selected as int;
        lemma_step_down(n, len);
        vstd::arithmetic::div_mod::lemma_small_mod(n as nat, len as nat);
        if n > 0 {
            vstd::arithmetic::div_mod::lemma_small_mod((n - 1) as nat, len as nat);
        }
        vstd::arithmetic::div_mod::lemma_small_mod((len - 1) as nat, len as nat);
        lemma_step_down(a.moved(configured, down).selected as int, len);
    }
}

/// Who is signed in is told by the mail address, else by the account; that nobody is, is
/// told too, and whether the login still holds.
pub proof fn law_the_status_tells_who_is_signed_in(s: AuthStatus)
    ensures
        !s.configured ==> status_line(s) == "not signed in"@,
        s.configured && s.email is Some ==> has_prefix(status_line(s), s.email->0@),
        s.configured && s.email is None && s.accountId is Some ==> has_prefix(
            status_line(s),
            s.accountId->0@,
        ),
        s.configured && s.planType is None && s.email is Some ==> status_line(s) == s.email->0@ + (
        if s.expired {
            " (expired)"@
        } else {
            " (valid)"@
        }),
        s.configured && s.planType is Some && s.email is Some ==> status_line(s) == s.email->0@
            + " ("@ + s.planType->0@ + (if s.expired {
            ", expired)"@
        } else {
            ", valid)"@
        }),
{
    reveal_strlit(" (");
    reveal_strlit(")");
    reveal_strlit(", ");
    reveal_strlit("expired");
    reveal_strlit("valid");
    reveal_strlit(" (expired)");
    reveal_strlit(" (valid)");
    reveal_strlit(", expired)");
    reveal_strlit(", valid)");
    let t = status_line(s);
    if s.configured && s.email is Some {
        assert(t.take(s.email->0@.len() as int) =~= s.email->0@);
        if s.planType is None {
            assert(t =~= s.email->0@ + (if s.expired {
                " (expired)"@
            } else {
                " (valid)"@
            }));
        } else {
            assert(t =~= s.email->0@ + " ("@ + s.planType->0@ + (if s.expired {
                ", expired)"@
            } else {
                ", valid)"@
            }));
        }
    }
    if s.configured && s.email is None && s.accountId is Some {
        assert(t.take(s.accountId->0@.len() as int) =~= s.accountId->0@);
    }
}

/// Credentials are removed only by the choice that says so, a login is started only by
/// its own, and the helper is left only by its own.
pub proof fn law_each_choice_does_what_it_says(a: AuthMini, action: Action, b: AuthMini, r: Effect)
    requires
        a.picks(action, b, r),
    ensures
        r == Effect::ClearCredentials <==> action is Logout,
        r == Effect::StartLogin <==> action is SignIn,
        r == Effect::Quit <==> action is Quit,
        r != Effect::AbortLogin,
        action is SignIn ==> b.screen is WaitingForBrowser,
        action is Back ==> b.screen is Providers && b.selected == 0,
        action == Action::Provider(Provider::OpenAiCodex) ==> b.screen is OpenAiCodex && b.selected
            == 0,
        action == Action::Provider(Provider::Future) ==> b.screen == a.screen,
        b.pendingLogin == a.pendingLogin,
{
}

/// The menus: credentials can be removed only where there are some, and a way back or
/// out is always the last choice.
pub proof fn law_the_menus_offer_what_can_be_done(screen: Screen, configured: bool)
    ensures
        menu(screen, configured).contains(Action::Logout) ==> configured && screen is OpenAiCodex,
        screen is OpenAiCodex ==> menu(screen, configured)[0] is SignIn && menu(
            screen,
            configured,
        ).last() is Back,
        screen is OpenAiCodex && configured ==> menu(screen, configured)[1] is Logout,
        screen is Providers ==> menu(screen, configured).last() is Quit && menu(
            screen,
            configured,
        )[0] == Action::Provider(Provider::OpenAiCodex),
        screen is WaitingForBrowser ==> menu(screen, configured).len() == 0,
{
}

/// How a login ended is told: who is signed in, or why it failed.
pub proof fn law_the_end_of_a_login_is_told(email: String, reason: String)
    ensures
        outcome_notice(
            LoginOutcome::SignedIn { email: Some(email), accountId: None, planType: None },
        ) == "Signed in as "@ + email@ + "."@,
        outcome_notice(LoginOutcome::Refused(reason)) == "Sign-in failed: "@ + reason@,
        outcome_notice(LoginOutcome::TaskEnded(reason)) == "Sign-in task ended: "@ + reason@,
{
    assert("Signed in as "@ + email@ + Seq::<char>::empty() + "."@ =~= "Signed in as "@ + email@
        + "."@);
}

/// While a login waits, where to go and what to enter is shown.
pub proof fn law_a_waiting_login_shows_its_code(a: AuthMini)
    requires
        a.pendingLogin is Some,
    ensures
        waiting_rows(a).len() == 8,
        waiting_rows(a)[2][0].text == "   "@ + (a.pendingLogin->0).verificationUrl@,
        waiting_rows(a)[4][0].text == "   "@ + (a.pendingLogin->0).userCode@,
{
}

/// The choice that is marked is the one that is made; where there is none, nothing is.
pub proof fn law_the_marked_choice_is_made(
    a: AuthMini,
    configured: bool,
    b: AuthMini,
    r: Effect,
)
    requires
        a.picks_selected(configured, b, r),
    ensures
        a.screen is Providers && a.selected == 0 ==> b.screen is OpenAiCodex && r == Effect::Stay,
        a.screen is Providers && a.selected == 2 ==> r == Effect::Quit,
        a.screen is OpenAiCodex && a.selected == 0 ==> r == Effect::StartLogin,
        a.screen is OpenAiCodex && a.selected == 1 && configured ==> r == Effect::ClearCredentials,
        a.screen is OpenAiCodex && a.selected == 1 && !configured ==> r == Effect::Stay && b.screen
            is Providers,
        a.screen is WaitingForBrowser ==> b == a && r == Effect::Stay,
{
}

/// The list of providers shows who is signed in.
pub proof fn law_the_list_shows_who_is_signed_in(s: AuthStatus)
    ensures
        provider_rows(s).len() == 3,
        provider_rows(s)[0][1].text == status_line(s),
        has_prefix(provider_rows(s)[0][0].text, "OpenAI Codex"@),
        AuthMini::is_back(KeyCode::Esc),
        !AuthMini::is_choose(KeyCode::Esc),
        AuthMini::is_choose(KeyCode::Enter),
        !AuthMini::is_back(KeyCode::Enter),
{
    assert(pad_right("OpenAI Codex"@, 22).take("OpenAI Codex"@.len() as int) =~= "OpenAI Codex"@);
}

/// How a login went is shown, and one that ended waits no more; one that was not asked for
/// changes nothing.
pub proof fn law_logins_are_reported(error: &str, o: LoginOutcome, p: PendingLogin)
    ensures
        forall|a: &mut AuthMini| #[trigger]
            call_ensures(AuthMini::loginStarted, (a, p), ()) ==> final(a).pendingLogin == Some(p),
        forall|a: &mut AuthMini| #[trigger]
            call_ensures(AuthMini::loginRefused, (a, error), ()) ==> opt_text(final(a).notice)
                == Some("Sign-in failed: "@ + error@) && final(a).screen is OpenAiCodex,
        forall|a: &mut AuthMini|
            a.pendingLogin is Some && #[trigger] call_ensures(AuthMini::loginFinished, (a, o), ())
                ==> final(a).pendingLogin is None && final(a).screen is OpenAiCodex && opt_text(
                final(a).notice,
            ) == Some(outcome_notice(o)),
        forall|a: &mut AuthMini|
            a.pendingLogin is None && #[trigger] call_ensures(AuthMini::loginFinished, (a, o), ())
                ==> *final(a) == *a,
        forall|a: &mut AuthMini, configured: bool, r: Effect|
            a.screen is WaitingForBrowser && a.pendingLogin is Some && #[trigger] call_ensures(
                AuthMini::handleKey,
                (a, KeyCode::Esc, configured),
                r,
            ) ==> r == Effect::AbortLogin && final(a).pendingLogin is None,
        forall|a: &mut AuthMini, configured: bool, r: Effect|
            a.screen is Providers && #[trigger] call_ensures(
                AuthMini::handleKey,
                (a, KeyCode::Esc, configured),
                r,
            ) ==> r == Effect::Quit,
{
}

} // verus!
