//! Slash commands, intercepted before the input reaches the agent.
//!
//! Parses `/command args` input and returns either output for the conversation
//! panel or an action for the caller to carry out. The command registry also
//! serves tab completion.

use vstd::prelude::*;
use vstd::string::*;
use crate::text::{
    all_white, charsOf, fromRange, has_prefix, isWhite, is_white,
    law_a_trimmed_text_stands_in_its_text, law_trimming_leaves_what_stands_between,
    law_white_text_is_trimmed_away, occurs_at, opt_text, startsWith, strEq, trim, trimmed,
};

verus! {

/// Command metadata for completion and help.
#[derive(Debug)]
pub struct CommandDef {
    pub name: &'static str,
    pub aliases: Vec<&'static str>,
    pub description: &'static str,
}

/// A command as a value.
pub ghost struct CommandV {
    pub name: Seq<char>,
    pub aliases: Seq<Seq<char>>,
    pub description: Seq<char>,
}

impl View for CommandDef {
    type V = CommandV;

    open spec fn view(&self) -> CommandV {
        CommandV {
            name: self.name@,
            aliases: Seq::new(self.aliases@.len(), |i: int| self.aliases@[i]@),
            description: self.description@,
        }
    }
}

/// The commands of `v` as values.
pub open spec fn command_views(v: Seq<CommandDef>) -> Seq<CommandV> {
    Seq::new(v.len(), |i: int| v[i]@)
}

/// A command without aliases.
pub open spec fn cmd0(name: Seq<char>, description: Seq<char>) -> CommandV {
    CommandV { name, aliases: Seq::empty(), description }
}

/// A command with one alias.
pub open spec fn cmd1(name: Seq<char>, alias: Seq<char>, description: Seq<char>) -> CommandV {
    CommandV { name, aliases: seq![alias], description }
}

/// A command with two aliases.
pub open spec fn cmd2(
    name: Seq<char>,
    a: Seq<char>,
    b: Seq<char>,
    description: Seq<char>,
) -> CommandV {
    CommandV { name, aliases: seq![a, b], description }
}

/// All registered commands.
pub open spec fn registry() -> Seq<CommandV> {
    seq![
        cmd2("help"@, "h"@, "?"@, "Show help"@),
        cmd1("context"@, "ctx"@, "Show context usage and compaction state"@),
        cmd0("undo"@, "Restore project to before last tool execution"@),
        cmd0("rewind"@, "Rewind conversation; pass a turnId to skip the picker"@),
        cmd0("resume"@, "List or resume a previous session"@),
        cmd2("clear"@, "cls"@, "new"@, "Clear display and start a fresh session"@),
        cmd0("forks"@, "List saved forks or switch to one"@),
        cmd0("mcp"@, "Show MCP server status and tool counts"@),
        cmd0("lsp"@, "Show LSP server status and install hints"@),
        cmd1("permissions"@, "perms"@, "View and manage permission rules"@),
        cmd1("model"@, "models"@, "View and switch model profiles"@),
        cmd0("cost"@, "Show session and rolling cost breakdown"@),
        cmd1("tasks"@, "jobs"@, "Show background jobs, monitors, and wake schedules"@),
        cmd1("logs"@, "log"@, "Show developer log history"@),
        cmd0("layout"@, "Open layout controls"@),
    ]
}

fn def0(name: &'static str, description: &'static str) -> (r: CommandDef)
    ensures
        r@ == cmd0(name@, description@),
{
    let r = CommandDef { name, aliases: Vec::new(), description };
    proof {
        assert(r@.aliases =~= Seq::empty());
    }
    r
}

fn def1(name: &'static str, alias: &'static str, description: &'static str) -> (r: CommandDef)
    ensures
        r@ == cmd1(name@, alias@, description@),
{
    let mut aliases: Vec<&'static str> = Vec::new();
    aliases.push(alias);
    let r = CommandDef { name, aliases, description };
    proof {
        assert(r@.aliases =~= seq![alias@]);
    }
    r
}

fn def2(
    name: &'static str,
    a: &'static str,
    b: &'static str,
    description: &'static str,
) -> (r: CommandDef)
    ensures
        r@ == cmd2(name@, a@, b@, description@),
{
    let mut aliases: Vec<&'static str> = Vec::new();
    aliases.push(a);
    aliases.push(b);
    let r = CommandDef { name, aliases, description };
    proof {
        assert(r@.aliases =~= seq![a@, b@]);
    }
    r
}

/// All registered commands.
pub fn commands() -> (r: Vec<CommandDef>)
    ensures
        command_views(r@) == registry(),
        r@.len() == 15,
{
    let mut v: Vec<CommandDef> = Vec::new();
    v.push(def2("help", "h", "?", "Show help"));
    v.push(def1("context", "ctx", "Show context usage and compaction state"));
    v.push(def0("undo", "Restore project to before last tool execution"));
    v.push(def0("rewind", "Rewind conversation; pass a turnId to skip the picker"));
    v.push(def0("resume", "List or resume a previous session"));
    v.push(def2("clear", "cls", "new", "Clear display and start a fresh session"));
    v.push(def0("forks", "List saved forks or switch to one"));
    v.push(def0("mcp", "Show MCP server status and tool counts"));
    v.push(def0("lsp", "Show LSP server status and install hints"));
    v.push(def1("permissions", "perms", "View and manage permission rules"));
    v.push(def1("model", "models", "View and switch model profiles"));
    v.push(def0("cost", "Show session and rolling cost breakdown"));
    v.push(def1("tasks", "jobs", "Show background jobs, monitors, and wake schedules"));
    v.push(def1("logs", "log", "Show developer log history"));
    v.push(def0("layout", "Open layout controls"));
    proof {
        assert(command_views(v@) =~= registry());
    }
    v
}

// ---- completion ----

/// Whether the name or an alias of `c` begins with `prefix`.
pub open spec fn completes(c: CommandV, prefix: Seq<char>) -> bool {
    has_prefix(c.name, prefix) || exists|i: int|
        0 <= i < c.aliases.len() && has_prefix(#[trigger] c.aliases[i], prefix)
}

/// The commands among the first `n` that complete `prefix`, in order.
pub open spec fn completing(prefix: Seq<char>, n: int) -> Seq<CommandV>
    decreases n,
{
    if n <= 0 {
        Seq::empty()
    } else {
        let r = completing(prefix, n - 1);
        if completes(registry()[n - 1], prefix) {
            r.push(registry()[n - 1])
        } else {
            r
        }
    }
}

impl CommandDef {
    fn completesPrefix(&self, prefix: &str) -> (r: bool)
        ensures
            r == completes(self@, prefix@),
    {
        if startsWith(self.name, prefix) {
            return true;
        }
        let mut i: usize = 0;
        while i < self.aliases.len()
            invariant
                i <= self.aliases.len(),
                !has_prefix(self@.name, prefix@),
                forall|j: int|
                    0 <= j < i ==> !has_prefix(#[trigger] self@.aliases[j], prefix@),
            decreases self.aliases.len() - i,
        {
            if startsWith(self.aliases[i], prefix) {
                proof {
                    assert(has_prefix(self@.aliases[i as int], prefix@));
                }
                return true;
            }
            i = i + 1;
        }
        false
    }

    fn copy(&self) -> (r: CommandDef)
        ensures
            r@ == self@,
    {
        let mut aliases: Vec<&'static str> = Vec::new();
        let mut i: usize = 0;
        while i < self.aliases.len()
            invariant
                i <= self.aliases.len(),
                aliases@ == self.aliases@.take(i as int),
            decreases self.aliases.len() - i,
        {
            aliases.push(self.aliases[i]);
            i = i + 1;
            proof {
                assert(aliases@ =~= self.aliases@.take(i as int));
            }
        }
        let r = CommandDef { name: self.name, aliases, description: self.description };
        proof {
            assert(r@.aliases =~= self@.aliases);
        }
        r
    }

    fn isNamed(&self, name: &str) -> (r: bool)
        ensures
            r == (self@.name == name@ || self@.aliases.contains(name@)),
    {
        if strEq(self.name, name) {
            return true;
        }
        let mut i: usize = 0;
        while i < self.aliases.len()
            invariant
                i <= self.aliases.len(),
                self@.name != name@,
                forall|j: int| 0 <= j < i ==> self@.aliases[j] != name@,
            decreases self.aliases.len() - i,
        {
            if strEq(self.aliases[i], name) {
                proof {
                    assert(self@.aliases[i as int] == name@);
                }
                return true;
            }
            i = i + 1;
        }
        false
    }
}

/// Returns the commands whose name or aliases start with the given prefix.
pub fn completions(prefix: &str) -> (r: Vec<CommandDef>)
    ensures
        command_views(r@) == completing(prefix@, 15),
{
    let all = commands();
    let mut out: Vec<CommandDef> = Vec::new();
    let mut i: usize = 0;
    proof {
        assert(command_views(out@) =~= completing(prefix@, 0));
    }
    while i < 15
        invariant
            i <= 15,
            all@.len() == 15,
            command_views(all@) == registry(),
            command_views(out@) == completing(prefix@, i as int),
        decreases 15 - i,
    {
        proof {
            assert(command_views(all@)[i as int] == all@[i as int]@);
        }
        let ghost before = command_views(out@);
        if all[i].completesPrefix(prefix) {
            let c = all[i].copy();
            out.push(c);
            proof {
                assert(command_views(out@) =~= before.push(c@));
            }
        }
        i = i + 1;
    }
    out
}

// ---- commands ----

/// Actions that the caller has to carry out.
#[derive(Debug)]
pub enum CommandAction {
    /// Show context usage stats.
    ShowContext,
    /// Restore the project to before the last file-modifying tool.
    Undo,
    /// Rewind the conversation. An empty `target` opens the picker.
    Rewind { target: String },
    /// List saved forks or switch to one by ID.
    Forks { forkId: Option<String> },
    /// List available sessions or resume a specific one.
    Resume { sessionId: Option<String> },
    /// Clear the display and start a fresh session.
    Clear,
    /// Show MCP server status.
    Mcp,
    /// Show LSP server status.
    Lsp,
    /// Show the permissions panel.
    Permissions,
    /// Show the model profile panel.
    Model,
    /// Show the cost breakdown.
    ShowCost,
    /// Open the background jobs panel.
    Tasks,
    /// Open the developer log history panel.
    Logs,
    /// Open the layout controls.
    ShowLayout,
}

/// How command output should be rendered.
#[derive(Debug)]
pub enum CommandOutput {
    /// Display inline in the conversation panel as a system-style entry.
    Inline(String),
    /// The caller must dispatch this.
    Action(CommandAction),
}

/// An action as a value.
pub ghost enum ActionV {
    ShowContext,
    Undo,
    Rewind(Seq<char>),
    Forks(Option<Seq<char>>),
    Resume(Option<Seq<char>>),
    Clear,
    Mcp,
    Lsp,
    Permissions,
    Model,
    ShowCost,
    Tasks,
    Logs,
    ShowLayout,
}

/// An output as a value.
pub ghost enum OutputV {
    Inline(Seq<char>),
    Action(ActionV),
}

impl View for CommandAction {
    type V = ActionV;

    open spec fn view(&self) -> ActionV {
        match *self {
            CommandAction::ShowContext => ActionV::ShowContext,
            CommandAction::Undo => ActionV::Undo,
            CommandAction::Rewind { target } => ActionV::Rewind(target@),
            CommandAction::Forks { forkId } => ActionV::Forks(opt_text(forkId)),
            CommandAction::Resume { sessionId } => ActionV::Resume(opt_text(sessionId)),
            CommandAction::Clear => ActionV::Clear,
            CommandAction::Mcp => ActionV::Mcp,
            CommandAction::Lsp => ActionV::Lsp,
            CommandAction::Permissions => ActionV::Permissions,
            CommandAction::Model => ActionV::Model,
            CommandAction::ShowCost => ActionV::ShowCost,
            CommandAction::Tasks => ActionV::Tasks,
            CommandAction::Logs => ActionV::Logs,
            CommandAction::ShowLayout => ActionV::ShowLayout,
        }
    }
}

impl View for CommandOutput {
    type V = OutputV;

    open spec fn view(&self) -> OutputV {
        match *self {
            CommandOutput::Inline(s) => OutputV::Inline(s@),
            CommandOutput::Action(a) => OutputV::Action(a@),
        }
    }
}

/// The place of the first white space in `s`, or its length.
pub open spec fn word_end(s: Seq<char>) -> int
    decreases s.len(),
{
    if s.len() == 0 || is_white(s[0]) {
        0
    } else {
        1 + word_end(s.skip(1))
    }
}

/// The name of the command in the trimmed input `t`, which begins with a slash.
pub open spec fn command_name(t: Seq<char>) -> Seq<char> {
    t.skip(1).take(word_end(t.skip(1)))
}

/// The arguments of the command in the trimmed input `t`.
pub open spec fn command_args(t: Seq<char>) -> Seq<char> {
    let k = word_end(t.skip(1));
    if k < t.len() - 1 {
        trimmed(t.skip(k + 2))
    } else {
        Seq::empty()
    }
}

/// Whether `name` is the name or an alias of `c`.
pub open spec fn is_named(c: CommandV, name: Seq<char>) -> bool {
    c.name == name || c.aliases.contains(name)
}

/// The canonical name of the first command from `n` on that `name` stands for.
pub open spec fn canonical_from(name: Seq<char>, n: int) -> Option<Seq<char>>
    decreases 15 - n,
{
    if n >= 15 {
        None
    } else if is_named(registry()[n], name) {
        Some(registry()[n].name)
    } else {
        canonical_from(name, n + 1)
    }
}

/// The canonical name of the command that `name` stands for.
pub open spec fn canonical(name: Seq<char>) -> Option<Seq<char>> {
    canonical_from(name, 0)
}

/// An argument, or none where it is empty.
pub open spec fn optional(args: Seq<char>) -> Option<Seq<char>> {
    if args.len() == 0 {
        None
    } else {
        Some(args)
    }
}

/// The help text with the first `n` commands.
pub open spec fn help_text(n: int) -> Seq<char>
    decreases n,
{
    if n <= 0 {
        "**Commands**\n"@
    } else {
        help_text(n - 1) + "`/"@ + registry()[n - 1].name + "` \u{2014} "@
            + registry()[n - 1].description + "\n"@
    }
}

/// What `/help` shows.
pub open spec fn help_output(args: Seq<char>) -> OutputV {
    if args.len() == 0 {
        OutputV::Inline(help_text(15))
    } else {
        OutputV::Inline(
            "No help topic: \""@ + args + "\". Type /help for available commands."@,
        )
    }
}

/// What the command with the canonical name `name` gives.
pub open spec fn dispatched(name: Seq<char>, args: Seq<char>) -> OutputV {
    if name == "help"@ {
        help_output(args)
    } else if name == "context"@ {
        OutputV::Action(ActionV::ShowContext)
    } else if name == "undo"@ {
        OutputV::Action(ActionV::Undo)
    } else if name == "rewind"@ {
        OutputV::Action(ActionV::Rewind(args))
    } else if name == "resume"@ {
        OutputV::Action(ActionV::Resume(optional(args)))
    } else if name == "forks"@ {
        OutputV::Action(ActionV::Forks(optional(args)))
    } else if name == "clear"@ {
        OutputV::Action(ActionV::Clear)
    } else if name == "mcp"@ {
        OutputV::Action(ActionV::Mcp)
    } else if name == "lsp"@ {
        OutputV::Action(ActionV::Lsp)
    } else if name == "permissions"@ {
        OutputV::Action(ActionV::Permissions)
    } else if name == "model"@ {
        OutputV::Action(ActionV::Model)
    } else if name == "cost"@ {
        OutputV::Action(ActionV::ShowCost)
    } else if name == "tasks"@ {
        OutputV::Action(ActionV::Tasks)
    } else if name == "logs"@ {
        OutputV::Action(ActionV::Logs)
    } else if name == "layout"@ {
        OutputV::Action(ActionV::ShowLayout)
    } else {
        OutputV::Inline("/"@ + name + " is not yet implemented."@)
    }
}

/// What an input gives, or none where it is no slash command.
pub open spec fn handled(input: Seq<char>) -> Option<OutputV> {
    let t = trimmed(input);
    if t.len() == 0 || t[0] != '/' {
        None
    } else {
        match canonical(command_name(t)) {
            Some(name) => Some(dispatched(name, command_args(t))),
            None => Some(
                OutputV::Inline(
                    "Unknown command: /"@ + command_name(t)
                        + ". Type /help for available commands."@,
                ),
            ),
        }
    }
}

fn optionalArg(args: &str) -> (r: Option<String>)
    ensures
        opt_text(r) == optional(args@),
{
    if args.unicode_len() == 0 {
        None
    } else {
        Some(String::from_str(args))
    }
}

fn executeHelp(args: &str) -> (r: CommandOutput)
    ensures
        r@ == help_output(args@),
{
    if args.unicode_len() == 0 {
        let all = commands();
        let mut text = String::from_str("**Commands**\n");
        let mut i: usize = 0;
        while i < 15
            invariant
                i <= 15,
                all@.len() == 15,
                command_views(all@) == registry(),
                text@ == help_text(i as int),
            decreases 15 - i,
        {
            proof {
                assert(command_views(all@)[i as int] == all@[i as int]@);
            }
            text.append("`/");
            text.append(all[i].name);
            text.append("` \u{2014} ");
            text.append(all[i].description);
            text.append("\n");
            i = i + 1;
        }
        CommandOutput::Inline(text)
    } else {
        let mut text = String::from_str("No help topic: \"");
        text.append(args);
        text.append("\". Type /help for available commands.");
        CommandOutput::Inline(text)
    }
}

/// Dispatches to the handler for a canonical command name.
fn dispatch(name: &str, args: &str) -> (r: CommandOutput)
    ensures
        r@ == dispatched(name@, args@),
{
    if strEq(name, "help") {
        executeHelp(args)
    } else if strEq(name, "context") {
        CommandOutput::Action(CommandAction::ShowContext)
    } else if strEq(name, "undo") {
        CommandOutput::Action(CommandAction::Undo)
    } else if strEq(name, "rewind") {
        CommandOutput::Action(CommandAction::Rewind { target: String::from_str(args) })
    } else if strEq(name, "resume") {
        CommandOutput::Action(CommandAction::Resume { sessionId: optionalArg(args) })
    } else if strEq(name, "forks") {
        CommandOutput::Action(CommandAction::Forks { forkId: optionalArg(args) })
    } else if strEq(name, "clear") {
        CommandOutput::Action(CommandAction::Clear)
    } else if strEq(name, "mcp") {
        CommandOutput::Action(CommandAction::Mcp)
    } else if strEq(name, "lsp") {
        CommandOutput::Action(CommandAction::Lsp)
    } else if strEq(name, "permissions") {
        CommandOutput::Action(CommandAction::Permissions)
    } else if strEq(name, "model") {
        CommandOutput::Action(CommandAction::Model)
    } else if strEq(name, "cost") {
        CommandOutput::Action(CommandAction::ShowCost)
    } else if strEq(name, "tasks") {
        CommandOutput::Action(CommandAction::Tasks)
    } else if strEq(name, "logs") {
        CommandOutput::Action(CommandAction::Logs)
    } else if strEq(name, "layout") {
        CommandOutput::Action(CommandAction::ShowLayout)
    } else {
        let mut text = String::from_str("/");
        text.append(name);
        text.append(" is not yet implemented.");
        CommandOutput::Inline(text)
    }
}

fn findCommand(name: &str) -> (r: Option<&'static str>)
    ensures
        match r {
            Some(n) => canonical(name@) == Some(n@),
            None => canonical(name@) is None,
        },
{
    let all = commands();
    let mut i: usize = 0;
    while i < 15
        invariant
            i <= 15,
            all@.len() == 15,
            command_views(all@) == registry(),
            canonical(name@) == canonical_from(name@, i as int),
        decreases 15 - i,
    {
        proof {
            assert(command_views(all@)[i as int] == all@[i as int]@);
        }
        if all[i].isNamed(name) {
            return Some(all[i].name);
        }
        i = i + 1;
    }
    None
}

/// Tries to handle input as a slash command.
///
/// Returns `None` if the input is not a slash command, and an output for any
/// input that begins with a slash.
pub fn tryHandle(input: &str) -> (r: Option<CommandOutput>)
    ensures
        match r {
            Some(o) => handled(input@) == Some(o@),
            None => handled(input@) is None,
        },
{
    let t = trim(input);
    let v = charsOf(t.as_str());
    if v.len() == 0 || v[0] != '/' {
        return None;
    }
    let ghost body = t@.skip(1);
    let mut k: usize = 0;
    proof {
        assert(body.skip(0) =~= body);
    }
    while k + 1 < v.len() && !isWhite(v[k + 1])
        invariant
            v@ == t@,
            body == t@.skip(1),
            k + 1 <= v.len(),
            word_end(body) == k + word_end(body.skip(k as int)),
        decreases v.len() - k,
    {
        proof {
            assert(body.skip(k as int)[0] == v@[k + 1]);
            assert(body.skip(k as int).skip(1) =~= body.skip(k + 1));
        }
        k = k + 1;
    }
    proof {
        if k + 1 < v.len() {
            assert(body.skip(k as int)[0] == v@[k + 1]);
        }
        assert(word_end(body) == k);
        assert(v@.subrange(1, k + 1) =~= command_name(t@));
    }
    let name = fromRange(&v, 1, k + 1);
    let args = if k + 1 < v.len() {
        proof {
            assert(v@.subrange(k + 2, v@.len() as int) =~= t@.skip(k + 2));
        }
        let rest = fromRange(&v, k + 2, v.len());
        trim(rest.as_str())
    } else {
        String::new()
    };
    match findCommand(name.as_str()) {
        Some(n) => Some(dispatch(n, args.as_str())),
        None => {
            let mut text = String::from_str("Unknown command: /");
            text.append(name.as_str());
            text.append(". Type /help for available commands.");
            Some(CommandOutput::Inline(text))
        },
    }
}

// ---- laws ----

/// Input is handled here exactly when it begins with a slash, white space aside.
pub proof fn law_slash_input_is_always_handled(input: Seq<char>)
    ensures
        handled(input) is Some <==> trimmed(input).len() > 0 && trimmed(input)[0] == '/',
{
}

proof fn lemma_words()
    ensures
        "help"@ == seq!['h', 'e', 'l', 'p'],
        "h"@ == seq!['h'],
        "?"@ == seq!['?'],
        "context"@ == seq!['c', 'o', 'n', 't', 'e', 'x', 't'],
        "ctx"@ == seq!['c', 't', 'x'],
        "undo"@ == seq!['u', 'n', 'd', 'o'],
        "rewind"@ == seq!['r', 'e', 'w', 'i', 'n', 'd'],
        "resume"@ == seq!['r', 'e', 's', 'u', 'm', 'e'],
        "clear"@ == seq!['c', 'l', 'e', 'a', 'r'],
        "cls"@ == seq!['c', 'l', 's'],
        "new"@ == seq!['n', 'e', 'w'],
        "forks"@ == seq!['f', 'o', 'r', 'k', 's'],
        "mcp"@ == seq!['m', 'c', 'p'],
        "lsp"@ == seq!['l', 's', 'p'],
        "permissions"@ == seq!['p', 'e', 'r', 'm', 'i', 's', 's', 'i', 'o', 'n', 's'],
        "perms"@ == seq!['p', 'e', 'r', 'm', 's'],
        "model"@ == seq!['m', 'o', 'd', 'e', 'l'],
        "models"@ == seq!['m', 'o', 'd', 'e', 'l', 's'],
        "cost"@ == seq!['c', 'o', 's', 't'],
        "tasks"@ == seq!['t', 'a', 's', 'k', 's'],
        "jobs"@ == seq!['j', 'o', 'b', 's'],
        "logs"@ == seq!['l', 'o', 'g', 's'],
        "log"@ == seq!['l', 'o', 'g'],
        "layout"@ == seq!['l', 'a', 'y', 'o', 'u', 't'],
{
    reveal_strlit("help");
    reveal_strlit("h");
    reveal_strlit("?");
    reveal_strlit("context");
    reveal_strlit("ctx");
    reveal_strlit("undo");
    reveal_strlit("rewind");
    reveal_strlit("resume");
    reveal_strlit("clear");
    reveal_strlit("cls");
    reveal_strlit("new");
    reveal_strlit("forks");
    reveal_strlit("mcp");
    reveal_strlit("lsp");
    reveal_strlit("permissions");
    reveal_strlit("perms");
    reveal_strlit("model");
    reveal_strlit("models");
    reveal_strlit("cost");
    reveal_strlit("tasks");
    reveal_strlit("jobs");
    reveal_strlit("logs");
    reveal_strlit("log");
    reveal_strlit("layout");
}

/// A name or an alias of a command stands for that command: what is typed under
/// an alias is handled as under the command's own name.
#[verifier::rlimit(60)]
pub proof fn law_alias_stands_for_its_command(i: int, n: Seq<char>)
    requires
        0 <= i < 15,
        is_named(registry()[i], n),
    ensures
        canonical(n) == Some(registry()[i].name),
        canonical(registry()[i].name) == Some(registry()[i].name),
{
    lemma_words();
    lemma_owner(i, n);
    lemma_owner(i, registry()[i].name);
    lemma_found(i, n, 0);
    lemma_found(i, registry()[i].name, 0);
}

proof fn lemma_found(i: int, n: Seq<char>, from: int)
    requires
        0 <= from <= i < 15,
        is_named(registry()[i], n),
        forall|j: int| 0 <= j < i ==> !is_named(#[trigger] registry()[j], n),
    ensures
        canonical_from(n, from) == Some(registry()[i].name),
    decreases i - from,
{
    if from < i {
        assert(!is_named(registry()[from], n));
        lemma_found(i, n, from + 1);
    }
}

#[verifier::rlimit(60)]
proof fn lemma_owner(i: int, n: Seq<char>)
    requires
        0 <= i < 15,
        is_named(registry()[i], n),
    ensures
        forall|j: int| 0 <= j < i ==> !is_named(#[trigger] registry()[j], n),
{
    lemma_words();
    let c = registry()[i];
    if c.name != n {
        let k = choose|k: int| 0 <= k < c.aliases.len() && c.aliases[k] == n;
        assert(c.aliases[k] == n);
    }
    assert forall|j: int| 0 <= j < i implies !is_named(#[trigger] registry()[j], n) by {
        let d = registry()[j];
        if d.aliases.contains(n) {
            let q = choose|q: int| 0 <= q < d.aliases.len() && d.aliases[q] == n;
            assert(d.aliases[q] == n);
        }
    }
}

/// The completions of a prefix are commands of the registry, in its order, and a
/// command's own name completes any prefix of it.
pub proof fn law_completions_hold_every_match(prefix: Seq<char>, i: int)
    requires
        0 <= i < 15,
        completes(registry()[i], prefix),
    ensures
        completing(prefix, 15).contains(registry()[i]),
{
    lemma_completing(prefix, 15, i);
}

proof fn lemma_completing(prefix: Seq<char>, n: int, i: int)
    requires
        0 <= i < n <= 15,
        completes(registry()[i], prefix),
    ensures
        completing(prefix, n).contains(registry()[i]),
    decreases n,
{
    let r = completing(prefix, n);
    if i == n - 1 {
        assert(r[r.len() - 1] == registry()[i]);
    } else {
        lemma_completing(prefix, n - 1, i);
        let q = completing(prefix, n - 1);
        let k = choose|k: int| 0 <= k < q.len() && q[k] == registry()[i];
        assert(r[k] == registry()[i]);
    }
}

/// Whether `w` is one word: there is no white space in it.
pub open spec fn is_word(w: Seq<char>) -> bool {
    forall|i: int| 0 <= i < w.len() ==> !is_white(#[trigger] w[i])
}

/// What is typed: a slash and a word, with white space before it, and behind it what
/// white space parts from it.
pub open spec fn typed(before: Seq<char>, word: Seq<char>, rest: Seq<char>) -> Seq<char> {
    before + seq!['/'] + word + rest
}

/// Whether `before` and `rest` can stand around a command's word.
pub open spec fn around(before: Seq<char>, rest: Seq<char>) -> bool {
    all_white(before) && (rest.len() == 0 || is_white(rest[0]))
}

proof fn lemma_word_end(w: Seq<char>, x: Seq<char>)
    requires
        is_word(w),
        x.len() == 0 || is_white(x[0]),
    ensures
        word_end(w + x) == w.len(),
    decreases w.len(),
{
    if w.len() > 0 {
        assert(!is_white(w[0]));
        assert((w + x).skip(1) =~= w.skip(1) + x);
        assert forall|i: int| 0 <= i < w.skip(1).len() implies !is_white(
            #[trigger] w.skip(1)[i],
        ) by {
            assert(!is_white(w[i + 1]));
        }
        lemma_word_end(w.skip(1), x);
    } else {
        assert(w + x =~= x);
    }
}

/// Only what is white is cut off the end of `rest`, and of the white space in front of
/// it the first character.
proof fn lemma_rest(rest: Seq<char>, k: int)
    requires
        0 < k <= rest.len(),
        is_white(rest[0]),
        !is_white(rest[k - 1]),
        all_white(rest.skip(k)),
    ensures
        trimmed(rest.take(k).skip(1)) == trimmed(rest),
{
    let at = law_a_trimmed_text_stands_in_its_text(rest);
    let m = trimmed(rest);
    let end = at + m.len();
    if m.len() == 0 {
        if k - 1 < at {
            assert(is_white(rest.take(at)[k - 1]));
        } else {
            assert(is_white(rest.skip(at)[k - 1 - at]));
        }
    }
    assert(m.last() == rest[end - 1]);
    if end < k {
        assert(is_white(rest.skip(end)[k - 1 - end]));
    }
    if end > k {
        assert(is_white(rest.skip(k)[end - 1 - k]));
    }
    assert(at > 0) by {
        if at == 0 {
            assert(m[0] == rest[0]);
        }
    }
    let a = rest.subrange(1, at);
    assert forall|i: int| 0 <= i < a.len() implies is_white(#[trigger] a[i]) by {
        assert(is_white(rest.take(at)[i + 1]));
    }
    assert(rest.take(k).skip(1) =~= a + m + Seq::<char>::empty());
    law_trimming_leaves_what_stands_between(a, m, Seq::empty());
}

proof fn lemma_typed(before: Seq<char>, word: Seq<char>, rest: Seq<char>)
    requires
        around(before, rest),
        is_word(word),
    ensures
        ({
            let t = trimmed(typed(before, word, rest));
            &&& t.len() > 0
            &&& t[0] == '/'
            &&& command_name(t) == word
            &&& command_args(t) == trimmed(rest)
        }),
{
    let at = law_a_trimmed_text_stands_in_its_text(rest);
    let k = if trimmed(rest).len() > 0 {
        at + trimmed(rest).len()
    } else {
        0
    };
    let x = rest.take(k);
    let b = rest.skip(k);
    assert(all_white(b)) by {
        if k == 0 {
            assert forall|i: int| 0 <= i < b.len() implies is_white(#[trigger] b[i]) by {
                if i < at {
                    assert(is_white(rest.take(at)[i]));
                } else {
                    assert(is_white(rest.skip(at)[i - at]));
                }
            }
        }
    }
    let m = seq!['/'] + word + x;
    assert(typed(before, word, rest) =~= before + m + b);
    assert(!is_white(m.last())) by {
        if k > 0 {
            assert(m.last() == rest[k - 1]);
            assert(trimmed(rest).last() == rest[k - 1]);
        } else if word.len() > 0 {
            assert(m.last() == word[word.len() - 1]);
        }
    }
    law_trimming_leaves_what_stands_between(before, m, b);
    assert(m.skip(1) =~= word + x);
    lemma_word_end(word, x);
    assert(m.skip(1).take(word.len() as int) =~= word);
    if k > 0 {
        assert(m.skip(word.len() as int + 2) =~= x.skip(1));
        assert(trimmed(rest).last() == rest[k - 1]);
        lemma_rest(rest, k);
    } else {
        assert(trimmed(rest) =~= Seq::<char>::empty());
    }
}

/// Each command is carried out under its name and its aliases, whatever white space
/// stands around, and gets what is typed behind it as its argument.
#[verifier::rlimit(60)]
pub proof fn law_each_command_does_its_own(before: Seq<char>, word: Seq<char>, rest: Seq<char>)
    requires
        around(before, rest),
    ensures
        ({
            let r = handled(typed(before, word, rest));
            let arg = trimmed(rest);
            &&& word == "context"@ || word == "ctx"@ ==> r == Some(
                OutputV::Action(ActionV::ShowContext),
            )
            &&& word == "undo"@ ==> r == Some(OutputV::Action(ActionV::Undo))
            &&& word == "rewind"@ ==> r == Some(OutputV::Action(ActionV::Rewind(arg)))
            &&& word == "resume"@ && arg.len() == 0 ==> r == Some(
                OutputV::Action(ActionV::Resume(None)),
            )
            &&& word == "resume"@ && arg.len() > 0 ==> r == Some(
                OutputV::Action(ActionV::Resume(Some(arg))),
            )
            &&& word == "clear"@ || word == "cls"@ || word == "new"@ ==> r == Some(
                OutputV::Action(ActionV::Clear),
            )
            &&& word == "forks"@ && arg.len() == 0 ==> r == Some(
                OutputV::Action(ActionV::Forks(None)),
            )
            &&& word == "forks"@ && arg.len() > 0 ==> r == Some(
                OutputV::Action(ActionV::Forks(Some(arg))),
            )
            &&& word == "mcp"@ ==> r == Some(OutputV::Action(ActionV::Mcp))
            &&& word == "lsp"@ ==> r == Some(OutputV::Action(ActionV::Lsp))
            &&& word == "permissions"@ || word == "perms"@ ==> r == Some(
                OutputV::Action(ActionV::Permissions),
            )
            &&& word == "model"@ || word == "models"@ ==> r == Some(
                OutputV::Action(ActionV::Model),
            )
            &&& word == "cost"@ ==> r == Some(OutputV::Action(ActionV::ShowCost))
            &&& word == "tasks"@ || word == "jobs"@ ==> r == Some(OutputV::Action(ActionV::Tasks))
            &&& word == "logs"@ || word == "log"@ ==> r == Some(OutputV::Action(ActionV::Logs))
            &&& word == "layout"@ ==> r == Some(OutputV::Action(ActionV::ShowLayout))
            &&& word == "help"@ || word == "h"@ || word == "?"@ ==> r is Some && r->0 is Inline
        }),
{
    let i = place_of(word);
    if i < 15 {
        lemma_place(word);
        lemma_is_word(word);
        lemma_typed(before, word, rest);
        law_alias_stands_for_its_command(i, word);
    }
    lemma_words();
}

/// The place of the command with the name or alias `word`, 15 where there is none.
spec fn place_of(word: Seq<char>) -> int {
    if word == "help"@ || word == "h"@ || word == "?"@ {
        0
    } else if word == "context"@ || word == "ctx"@ {
        1
    } else if word == "undo"@ {
        2
    } else if word == "rewind"@ {
        3
    } else if word == "resume"@ {
        4
    } else if word == "clear"@ || word == "cls"@ || word == "new"@ {
        5
    } else if word == "forks"@ {
        6
    } else if word == "mcp"@ {
        7
    } else if word == "lsp"@ {
        8
    } else if word == "permissions"@ || word == "perms"@ {
        9
    } else if word == "model"@ || word == "models"@ {
        10
    } else if word == "cost"@ {
        11
    } else if word == "tasks"@ || word == "jobs"@ {
        12
    } else if word == "logs"@ || word == "log"@ {
        13
    } else if word == "layout"@ {
        14
    } else {
        15
    }
}

proof fn lemma_place(word: Seq<char>)
    requires
        place_of(word) < 15,
    ensures
        is_named(registry()[place_of(word)], word),
{
    lemma_words();
    let c = registry()[place_of(word)];
    if c.name != word {
        if word == "?"@ || word == "new"@ {
            assert(c.aliases[1] == word);
        } else {
            assert(c.aliases[0] == word);
        }
    }
}

#[verifier::rlimit(60)]
proof fn lemma_is_word(word: Seq<char>)
    requires
        place_of(word) < 15,
    ensures
        is_word(word),
{
    lemma_words();
}

/// A word that names no command is answered by a line that repeats it, and nothing is
/// carried out.
pub proof fn law_unknown_words_do_nothing(before: Seq<char>, word: Seq<char>, rest: Seq<char>)
    requires
        around(before, rest),
        is_word(word),
        forall|i: int| 0 <= i < 15 ==> !is_named(#[trigger] registry()[i], word),
    ensures
        handled(typed(before, word, rest)) matches Some(OutputV::Inline(t)) && t
            == "Unknown command: /"@ + word + ". Type /help for available commands."@,
{
    lemma_typed(before, word, rest);
    lemma_none_named(word, 0);
}

proof fn lemma_none_named(word: Seq<char>, n: int)
    requires
        0 <= n <= 15,
        forall|i: int| 0 <= i < 15 ==> !is_named(#[trigger] registry()[i], word),
    ensures
        canonical_from(word, n) is None,
    decreases 15 - n,
{
    if n < 15 {
        assert(!is_named(registry()[n], word));
        lemma_none_named(word, n + 1);
    }
}

/// Whether `p` stands somewhere in `s`.
pub open spec fn holds_text(s: Seq<char>, p: Seq<char>) -> bool {
    exists|i: int| occurs_at(s, p, i)
}

/// `/help` names every command and says what it does.
pub proof fn law_help_names_every_command(before: Seq<char>, rest: Seq<char>, i: int)
    requires
        all_white(before),
        all_white(rest),
        0 <= i < 15,
    ensures
        handled(typed(before, "help"@, rest)) matches Some(OutputV::Inline(t)) && holds_text(
            t,
            "`/"@ + registry()[i].name + "` \u{2014} "@ + registry()[i].description,
        ),
{
    lemma_is_word("help"@);
    lemma_place("help"@);
    if rest.len() > 0 {
        assert(is_white(rest[0]));
    }
    lemma_typed(before, "help"@, rest);
    law_alias_stands_for_its_command(0, "help"@);
    law_white_text_is_trimmed_away(rest);
    lemma_help_holds(15, i);
}

proof fn lemma_help_holds(n: int, i: int)
    requires
        0 <= i < n <= 15,
    ensures
        holds_text(
            help_text(n),
            "`/"@ + registry()[i].name + "` \u{2014} "@ + registry()[i].description,
        ),
    decreases n,
{
    let p = "`/"@ + registry()[i].name + "` \u{2014} "@ + registry()[i].description;
    let a = help_text(n - 1);
    let s = help_text(n);
    if i == n - 1 {
        let k = a.len() as int;
        assert(s.subrange(k, k + p.len()) =~= p);
        assert(occurs_at(s, p, k));
    } else {
        lemma_help_holds(n - 1, i);
        let k = choose|k: int| occurs_at(a, p, k);
        assert(s.subrange(k, k + p.len()) =~= a.subrange(k, k + p.len()));
        assert(occurs_at(s, p, k));
    }
}

/// Commands do not share what they do: two of them that are typed alone give the same
/// only where they are the same command.
#[verifier::rlimit(60)]
pub proof fn law_commands_differ(i: int, j: int)
    requires
        0 <= i < 15,
        0 <= j < 15,
        handled(seq!['/'] + registry()[i].name) == handled(seq!['/'] + registry()[j].name),
    ensures
        i == j,
{
    lemma_words();
    let none = Seq::<char>::empty();
    let (a, b) = (registry()[i].name, registry()[j].name);
    assert(typed(none, a, none) =~= seq!['/'] + a);
    assert(typed(none, b, none) =~= seq!['/'] + b);
    law_each_command_does_its_own(none, a, none);
    law_each_command_does_its_own(none, b, none);
}

/// What is offered for a prefix are commands whose name or one of whose aliases begins
/// with it, in the order of the registry.
pub proof fn law_only_matches_are_offered(prefix: Seq<char>, n: int, k: int) -> (at: int)
    requires
        0 <= n <= 15,
        0 <= k < completing(prefix, n).len(),
    ensures
        k <= at < n,
        completing(prefix, n)[k] == registry()[at],
        has_prefix(registry()[at].name, prefix) || exists|a: int|
            0 <= a < registry()[at].aliases.len() && has_prefix(
                #[trigger] registry()[at].aliases[a],
                prefix,
            ),
    decreases n,
{
    if n <= 0 {
        0
    } else if completes(registry()[n - 1], prefix) && k == completing(prefix, n).len() - 1 {
        lemma_completing_len(prefix, n - 1);
        n - 1
    } else {
        law_only_matches_are_offered(prefix, n - 1, k)
    }
}

proof fn lemma_completing_len(prefix: Seq<char>, n: int)
    requires
        0 <= n,
    ensures
        completing(prefix, n).len() <= n,
    decreases n,
{
    if n > 0 {
        lemma_completing_len(prefix, n - 1);
    }
}

/// What is typed is carried out as the command that it names.
pub proof fn law_typed_commands_are_carried_out(
    before: Seq<char>,
    word: Seq<char>,
    rest: Seq<char>,
    input: &str,
    r: Option<CommandOutput>,
)
    requires
        around(before, rest),
        input@ == typed(before, word, rest),
        call_ensures(tryHandle, (input,), r),
    ensures
        word == "clear"@ || word == "cls"@ || word == "new"@ ==> r matches Some(
            CommandOutput::Action(CommandAction::Clear),
        ),
        word == "undo"@ ==> r matches Some(CommandOutput::Action(CommandAction::Undo)),
        word == "context"@ || word == "ctx"@ ==> r matches Some(
            CommandOutput::Action(CommandAction::ShowContext),
        ),
        word == "cost"@ ==> r matches Some(CommandOutput::Action(CommandAction::ShowCost)),
        word == "mcp"@ ==> r matches Some(CommandOutput::Action(CommandAction::Mcp)),
        word == "lsp"@ ==> r matches Some(CommandOutput::Action(CommandAction::Lsp)),
        word == "permissions"@ || word == "perms"@ ==> r matches Some(
            CommandOutput::Action(CommandAction::Permissions),
        ),
        word == "model"@ || word == "models"@ ==> r matches Some(
            CommandOutput::Action(CommandAction::Model),
        ),
        word == "tasks"@ || word == "jobs"@ ==> r matches Some(
            CommandOutput::Action(CommandAction::Tasks),
        ),
        word == "logs"@ || word == "log"@ ==> r matches Some(
            CommandOutput::Action(CommandAction::Logs),
        ),
        word == "layout"@ ==> r matches Some(CommandOutput::Action(CommandAction::ShowLayout)),
        word == "rewind"@ ==> (r matches Some(
            CommandOutput::Action(CommandAction::Rewind { target }),
        ) && target@ == trimmed(rest)),
        word == "resume"@ ==> (r matches Some(
            CommandOutput::Action(CommandAction::Resume { sessionId }),
        ) && opt_text(sessionId) == optional(trimmed(rest))),
        word == "forks"@ ==> (r matches Some(
            CommandOutput::Action(CommandAction::Forks { forkId }),
        ) && opt_text(forkId) == optional(trimmed(rest))),
        word == "help"@ ==> r matches Some(CommandOutput::Inline(_)),
{
    law_each_command_does_its_own(before, word, rest);
}

/// Only what begins with a slash is taken as a command.
pub proof fn law_messages_are_no_commands(input: &str, r: Option<CommandOutput>)
    requires
        call_ensures(tryHandle, (input,), r),
    ensures
        r is Some <==> trimmed(input@).len() > 0 && trimmed(input@)[0] == '/',
{
}

} // verus!
