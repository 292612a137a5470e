//! How the impact of a shell command is shown.

use vstd::prelude::*;
use crate::draw::Color;

verus! {

/// What a command does to the files it touches.
#[derive(Clone, Copy, Debug, PartialEq, Eq, Structural)]
pub enum TerminalRunImpact {
    Delete,
    MajorMod,
    MinorMod,
    Read,
}

/// The glyph and the color of an impact.
pub open spec fn impact_look(impact: TerminalRunImpact) -> (Seq<char>, Color) {
    match impact {
        TerminalRunImpact::Delete => ("\u{2620}\u{FE0E}"@, Color::Red),
        TerminalRunImpact::MajorMod => ("\u{26A0}\u{FE0E}"@, Color::Rgb(200, 140, 40)),
        TerminalRunImpact::MinorMod => ("\u{2691}\u{FE0E}"@, Color::Rgb(180, 160, 80)),
        TerminalRunImpact::Read => ("\u{2315}"@, Color::Rgb(80, 160, 200)),
    }
}

/// The glyph and the color of an impact.
pub fn terminalRunImpactGlyphColor(impact: TerminalRunImpact) -> (r: (&'static str, Color))
    ensures
        (r.0@, r.1) == impact_look(impact),
{
    match impact {
        TerminalRunImpact::Delete => ("\u{2620}\u{FE0E}", Color::Red),
        TerminalRunImpact::MajorMod => ("\u{26A0}\u{FE0E}", Color::Rgb(200, 140, 40)),
        TerminalRunImpact::MinorMod => ("\u{2691}\u{FE0E}", Color::Rgb(180, 160, 80)),
        TerminalRunImpact::Read => ("\u{2315}", Color::Rgb(80, 160, 200)),
    }
}

/// The impact of a shell command that a tool call asks for.
#[derive(Clone, Copy, Debug, PartialEq, Eq, Structural)]
pub enum ShellImpact {
    Delete,
    MajorMod,
    MinorMod,
    Read,
}

impl ShellImpact {
    /// The same impact of a command that ran.
    #[verifier::allow_in_spec]
    pub fn asRun(self) -> TerminalRunImpact
        returns
            (match self {
                ShellImpact::Delete => TerminalRunImpact::Delete,
                ShellImpact::MajorMod => TerminalRunImpact::MajorMod,
                ShellImpact::MinorMod => TerminalRunImpact::MinorMod,
                ShellImpact::Read => TerminalRunImpact::Read,
            }),
    {
        match self {
            ShellImpact::Delete => TerminalRunImpact::Delete,
            ShellImpact::MajorMod => TerminalRunImpact::MajorMod,
            ShellImpact::MinorMod => TerminalRunImpact::MinorMod,
            ShellImpact::Read => TerminalRunImpact::Read,
        }
    }
}

/// The glyph and the color of the impact that a tool call asks for.
pub fn shellImpactGlyphColorForTool(impact: ShellImpact) -> (r: (&'static str, Color))
    ensures
        (r.0@, r.1) == impact_look(impact.asRun()),
{
    terminalRunImpactGlyphColor(impact.asRun())
}

} // verus!
