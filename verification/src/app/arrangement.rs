//! The layout of the session and the panel that changes it.

use vstd::prelude::*;
use vstd::string::*;
use crate::app::effect::{Effect, EffectV, LogLevel, NoteV, effects, logged, pushOperationalLog};
use crate::keys::KeyEvent;
use crate::layout::control_panel::{
    ActionV, ControlPanel, PanelAction, matchPresetName, preset_at, preset_name,
};
use crate::layout::discovery::DiscoveredLayout;
use crate::layout::{Layout, LayoutV, default_phase1};
use crate::text::{cat3, opt_text};

verus! {

/// The layout of the session, the file it comes from, the preset that it is, and
/// the panel that changes it.
pub struct Arrangement {
    pub layout: Layout,
    pub path: Option<String>,
    pub preset: Option<String>,
    pub panel: Option<ControlPanel>,
}

/// What is left to do outside after a key.
#[derive(Clone, Copy, Debug, PartialEq, Eq, Structural)]
pub enum LayoutWork {
    Nothing,
    /// Write the layout to its file and say how that went.
    Write,
    /// Find the layout on disk again.
    Discover,
}

fn copyName(o: &Option<String>) -> (r: Option<String>)
    ensures
        opt_text(r) == opt_text(*o),
{
    match o {
        Some(s) => Some(s.clone()),
        None => None,
    }
}

/// The layout that was found, or the default one where there is none or it cannot
/// be used.
pub open spec fn found_layout(d: Option<DiscoveredLayout>) -> LayoutV {
    match d {
        Some(d) => match d.result {
            Ok(l) => l@,
            Err(_) => default_phase1(),
        },
        None => default_phase1(),
    }
}

/// The file that was found, whether it can be used or not.
pub open spec fn found_path(d: Option<DiscoveredLayout>) -> Option<Seq<char>> {
    match d {
        Some(d) => Some(d.path@),
        None => None,
    }
}

/// What is said of a file that was found and cannot be used.
pub open spec fn ignored_file(d: Option<DiscoveredLayout>, logOpen: bool) -> Seq<EffectV> {
    match d {
        Some(d) => match d.result {
            Ok(_) => Seq::empty(),
            Err(m) => logged(
                logOpen,
                NoteV {
                    level: LogLevel::Warning,
                    source: "layout"@,
                    title: "layout file ignored"@,
                    detail: Some(d.path@ + ": "@ + m@),
                },
                true,
            ),
        },
        None => Seq::empty(),
    }
}

impl Arrangement {
    /// The panel is in a state that it can be in.
    pub open spec fn wf(self) -> bool {
        self.panel matches Some(p) ==> p.wf()
    }

    /// Whether the panel was just opened on the layout of the session.
    pub open spec fn just_opened(self) -> bool {
        &&& self.panel is Some
        &&& self.panel->0.wf()
        &&& self.panel->0.working@ == self.layout@
        &&& opt_text(self.panel->0.appliedName) == opt_text(self.preset)
        &&& !self.panel->0.dirty
        &&& self.panel->0.confirm is Hidden
        &&& self.panel->0.selected == (match preset_at(opt_text(self.preset)) {
            Some(i) => i,
            None => 0,
        })
    }

    /// Whether nothing but the panel differs from `other`.
    pub open spec fn same_but_panel(self, other: Arrangement) -> bool {
        self.layout == other.layout && self.path == other.path && self.preset == other.preset
    }

    /// The layout that the session starts with.
    pub fn start(d: Option<DiscoveredLayout>, logOpen: bool, out: &mut Vec<Effect>) -> (r: Self)
        ensures
            r.layout@ == found_layout(d),
            opt_text(r.path) == found_path(d),
            opt_text(r.preset) == preset_name(found_layout(d)),
            r.panel is None,
            effects(final(out)@) == effects(old(out)@) + ignored_file(d, logOpen),
    {
        let mut path: Option<String> = None;
        let ghost before = effects(out@);
        proof {
            assert(before + Seq::<EffectV>::empty() =~= before);
        }
        let layout = match d {
            Some(d) => {
                let l = match d.result {
                    Ok(l) => l,
                    Err(m) => {
                        pushOperationalLog(
                            out,
                            logOpen,
                            LogLevel::Warning,
                            "layout",
                            String::from_str("layout file ignored"),
                            Some(cat3(d.path.as_str(), ": ", m.as_str())),
                            true,
                        );
                        Layout::defaultPhase1()
                    },
                };
                path = Some(d.path);
                l
            },
            None => Layout::defaultPhase1(),
        };
        let preset = matchPresetName(&layout);
        Arrangement { layout, path, preset, panel: None }
    }

    /// Opens the panel on the layout of the session.
    pub fn open(&mut self)
        ensures
            final(self).same_but_panel(*old(self)),
            final(self).just_opened(),
    {
        self.panel = Some(ControlPanel::new(self.layout.copy(), copyName(&self.preset)));
    }

    /// Opens the panel, or closes it without asking where it is open.
    pub fn toggle(&mut self)
        ensures
            final(self).same_but_panel(*old(self)),
            old(self).panel is Some ==> final(self).panel is None,
            old(self).panel is None ==> final(self).just_opened(),
    {
        if self.panel.is_some() {
            self.panel = None;
        } else {
            self.open();
        }
    }

    /// What a key makes of the open panel: a preset is applied at once, closing
    /// drops the panel.
    pub open spec fn keyed(self, key: KeyEvent, after: Arrangement, work: LayoutWork) -> bool {
        let (p, a) = self.panel->0.on_key(key.code);
        match a {
            ActionV::Stay => {
                &&& after == (Arrangement { panel: Some(p), ..self })
                &&& work is Nothing
            },
            ActionV::Close => {
                &&& after == (Arrangement { panel: None, ..self })
                &&& work is Nothing
            },
            ActionV::ApplyPreset { name, layout } => {
                &&& after.layout@ == layout
                &&& after.path == self.path
                &&& opt_text(after.preset) == Some(name)
                &&& after.panel is Some
                &&& after.panel->0.working@ == layout
                &&& opt_text(after.panel->0.appliedName) == Some(name)
                &&& after.panel->0.dirty
                &&& after.panel->0.selected == p.selected
                &&& after.panel->0.confirm == p.confirm
                &&& work is Nothing
            },
            ActionV::Save => {
                &&& after == (Arrangement { panel: Some(p), ..self })
                &&& work is Write
            },
            ActionV::Reset => {
                &&& after == (Arrangement { panel: Some(p), ..self })
                &&& work is Discover
            },
        }
    }

    /// Hands a key to the open panel.
    pub fn handleKey(&mut self, key: KeyEvent) -> (r: LayoutWork)
        requires
            old(self).wf(),
            old(self).panel is Some,
        ensures
            old(self).keyed(key, *final(self), r),
            final(self).wf(),
    {
        let mut work = LayoutWork::Nothing;
        let mut close = false;
        match &mut self.panel {
            Some(p) => match p.handleKey(key) {
                PanelAction::Stay => {},
                PanelAction::Close => {
                    close = true;
                },
                PanelAction::ApplyPreset { name, layout } => {
                    self.layout = layout.copy();
                    self.preset = Some(name.clone());
                    p.confirmApplied(name, layout);
                },
                PanelAction::Save => {
                    work = LayoutWork::Write;
                },
                PanelAction::Reset => {
                    work = LayoutWork::Discover;
                },
            },
            None => {},
        }
        if close {
            self.panel = None;
        }
        work
    }

    /// The file to write the layout to: the one that it came from, else `fallback`.
    pub fn savePath(&self, fallback: String) -> (r: String)
        ensures
            r@ == (match self.path {
                Some(p) => p@,
                None => fallback@,
            }),
    {
        match &self.path {
            Some(p) => p.clone(),
            None => fallback,
        }
    }

    /// The layout was written to `path`, or could not be. Only a layout that was
    /// written is no longer dirty.
    pub fn saved(
        &mut self,
        path: String,
        error: Option<String>,
        logOpen: bool,
        out: &mut Vec<Effect>,
    )
        ensures
            match error {
                None => {
                    &&& final(self).layout == old(self).layout
                    &&& final(self).preset == old(self).preset
                    &&& opt_text(final(self).path) == Some(path@)
                    &&& final(self).panel == (match old(self).panel {
                        Some(p) => Some(ControlPanel { dirty: false, ..p }),
                        None => None,
                    })
                },
                Some(_) => *final(self) == *old(self),
            },
            effects(final(out)@) == effects(old(out)@) + logged(
                logOpen,
                NoteV {
                    level: if error is None {
                        LogLevel::Success
                    } else {
                        LogLevel::Error
                    },
                    source: "layout"@,
                    title: if error is None {
                        "layout saved"@
                    } else {
                        "layout save failed"@
                    },
                    detail: Some(
                        match error {
                            None => path@,
                            Some(e) => e@,
                        },
                    ),
                },
                true,
            ),
    {
        match error {
            None => {
                self.path = Some(path.clone());
                match &mut self.panel {
                    Some(p) => {
                        p.confirmSaved();
                    },
                    None => {},
                }
                pushOperationalLog(
                    out,
                    logOpen,
                    LogLevel::Success,
                    "layout",
                    String::from_str("layout saved"),
                    Some(path),
                    true,
                );
            },
            Some(e) => {
                pushOperationalLog(
                    out,
                    logOpen,
                    LogLevel::Error,
                    "layout",
                    String::from_str("layout save failed"),
                    Some(e),
                    true,
                );
            },
        }
    }

    /// The layout on disk was looked for again: the session goes back to it.
    pub fn reset(&mut self, d: Option<DiscoveredLayout>)
        requires
            old(self).wf(),
        ensures
            final(self).layout@ == found_layout(d),
            opt_text(final(self).path) == found_path(d),
            opt_text(final(self).preset) == preset_name(found_layout(d)),
            final(self).panel is Some <==> old(self).panel is Some,
            final(self).panel matches Some(p) ==> {
                &&& p.working@ == found_layout(d)
                &&& opt_text(p.appliedName) == preset_name(found_layout(d))
                &&& !p.dirty
            },
            final(self).wf(),
    {
        let mut path: Option<String> = None;
        let layout = match d {
            Some(d) => {
                path = Some(d.path);
                match d.result {
                    Ok(l) => l,
                    Err(_) => Layout::defaultPhase1(),
                }
            },
            None => Layout::defaultPhase1(),
        };
        let name = matchPresetName(&layout);
        self.layout = layout.copy();
        self.path = path;
        self.preset = copyName(&name);
        match &mut self.panel {
            Some(p) => {
                p.resetTo(layout, name);
            },
            None => {},
        }
    }
}

} // verus!
