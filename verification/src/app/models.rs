//! What the panel of models shows.

use vstd::prelude::*;
use vstd::string::*;
use crate::text::{opt_text, strEq, texts};

verus! {

/// A profile of the settings. `reasoningEfforts` are the efforts that are known of
/// its model.
#[derive(Debug)]
pub struct ModelProfile {
    pub name: String,
    pub provider: String,
    pub model: String,
    pub key: String,
    pub contextWindow: usize,
    pub maxContextWindow: Option<usize>,
    pub promptThinking: bool,
    pub reasoningEffort: Option<String>,
    pub reasoningSummary: Option<String>,
    pub reasoningEfforts: Vec<String>,
}

/// What is shown of a profile.
#[derive(Debug)]
pub struct ModelProfileStatus {
    pub name: String,
    pub provider: String,
    pub model: String,
    pub contextWindow: usize,
    pub maxContextWindow: Option<usize>,
    pub promptThinking: bool,
    pub reasoningEffort: Option<String>,
    pub reasoningEfforts: Vec<String>,
    pub reasoningSummary: Option<String>,
    pub configured: bool,
}

/// A scope of the settings, with the file that it is kept in, where it has one.
#[derive(Debug)]
pub struct ModelScope {
    pub label: String,
    pub path: Option<String>,
}

/// What is shown of a scope.
#[derive(Debug)]
pub struct ModelScopeStatus {
    pub label: String,
    pub path: String,
}

/// What the panel of models shows.
#[derive(Debug)]
pub struct ModelStatus {
    pub heavyProfile: String,
    pub lightProfile: String,
    pub utilityProfile: String,
    pub profiles: Vec<ModelProfileStatus>,
    pub scopes: Vec<ModelScopeStatus>,
    pub configPath: String,
}

/// The names of the profiles that are used.
#[derive(Debug)]
pub struct UsedProfiles {
    pub heavy: String,
    pub light: String,
    pub utility: String,
}

/// The provider whose profiles are configured by signing in.
pub const CODEX_PROVIDER: &'static str = "openai-codex";

/// Whether a profile can be used: it has a key, or its provider is signed in to.
pub open spec fn is_configured(p: ModelProfile, codex: bool) -> bool {
    if p.provider@ == CODEX_PROVIDER@ {
        codex
    } else {
        p.key@.len() > 0
    }
}

/// Whether `s` is what is shown of the profile `p`.
pub open spec fn shows_profile(s: ModelProfileStatus, p: ModelProfile, codex: bool) -> bool {
    &&& s.name@ == p.name@
    &&& s.provider@ == p.provider@
    &&& s.model@ == p.model@
    &&& s.contextWindow == p.contextWindow
    &&& s.maxContextWindow == p.maxContextWindow
    &&& s.promptThinking == p.promptThinking
    &&& opt_text(s.reasoningEffort) == opt_text(p.reasoningEffort)
    &&& opt_text(s.reasoningSummary) == opt_text(p.reasoningSummary)
    &&& texts(s.reasoningEfforts@) == texts(p.reasoningEfforts@)
    &&& s.configured == is_configured(p, codex)
}

fn copyOpt(o: &Option<String>) -> (r: Option<String>)
    ensures
        opt_text(r) == opt_text(*o),
{
    match o {
        Some(s) => Some(s.clone()),
        None => None,
    }
}

fn copyTexts(v: &Vec<String>) -> (r: Vec<String>)
    ensures
        texts(r@) == texts(v@),
{
    let mut r: Vec<String> = Vec::new();
    let mut i: usize = 0;
    while i < v.len()
        invariant
            i <= v@.len(),
            r@.len() == i,
            forall|k: int| 0 <= k < i ==> (#[trigger] r@[k])@ == v@[k]@,
        decreases v@.len() - i,
    {
        r.push(v[i].clone());
        i = i + 1;
    }
    proof {
        assert(texts(r@) =~= texts(v@));
    }
    r
}

/// What is shown of a profile.
pub fn profileStatus(p: &ModelProfile, codex: bool) -> (r: ModelProfileStatus)
    ensures
        shows_profile(r, *p, codex),
{
    let configured = if strEq(p.provider.as_str(), CODEX_PROVIDER) {
        codex
    } else {
        p.key.as_str().unicode_len() > 0
    };
    ModelProfileStatus {
        name: p.name.clone(),
        provider: p.provider.clone(),
        model: p.model.clone(),
        contextWindow: p.contextWindow,
        maxContextWindow: p.maxContextWindow,
        promptThinking: p.promptThinking,
        reasoningEffort: copyOpt(&p.reasoningEffort),
        reasoningEfforts: copyTexts(&p.reasoningEfforts),
        reasoningSummary: copyOpt(&p.reasoningSummary),
        configured,
    }
}

/// The scopes that are kept in a file.
pub open spec fn kept_scopes(s: Seq<ModelScope>) -> Seq<(Seq<char>, Seq<char>)>
    decreases s.len(),
{
    if s.len() == 0 {
        Seq::empty()
    } else {
        let r = kept_scopes(s.drop_last());
        match s.last().path {
            Some(p) => r.push((s.last().label@, p@)),
            None => r,
        }
    }
}

/// What is shown of scopes, as values.
pub open spec fn scope_views(s: Seq<ModelScopeStatus>) -> Seq<(Seq<char>, Seq<char>)> {
    Seq::new(s.len(), |i: int| (s[i].label@, s[i].path@))
}

fn scopeStatuses(s: &Vec<ModelScope>) -> (r: Vec<ModelScopeStatus>)
    ensures
        scope_views(r@) == kept_scopes(s@),
{
    let mut r: Vec<ModelScopeStatus> = Vec::new();
    let mut i: usize = 0;
    proof {
        assert(s@.take(0) =~= Seq::<ModelScope>::empty());
        assert(scope_views(r@) =~= kept_scopes(s@.take(0)));
    }
    while i < s.len()
        invariant
            i <= s@.len(),
            scope_views(r@) == kept_scopes(s@.take(i as int)),
        decreases s@.len() - i,
    {
        let ghost before = scope_views(r@);
        proof {
            assert(s@.take(i + 1).drop_last() =~= s@.take(i as int));
            assert(s@.take(i + 1).last() == s@[i as int]);
        }
        match &s[i].path {
            Some(p) => {
                r.push(ModelScopeStatus { label: s[i].label.clone(), path: p.clone() });
                proof {
                    assert(scope_views(r@) =~= before.push((s@[i as int].label@, p@)));
                }
            },
            None => {},
        }
        i = i + 1;
    }
    proof {
        assert(s@.take(s@.len() as int) =~= s@);
    }
    r
}

/// What the panel of models shows. The settings are kept in the file of the scope
/// that they are saved in, or in `fallback` where that has none.
pub fn buildModelStatus(
    used: UsedProfiles,
    profiles: &Vec<ModelProfile>,
    scopes: &Vec<ModelScope>,
    savePath: Option<String>,
    fallback: String,
    codexConfigured: bool,
) -> (r: ModelStatus)
    ensures
        r.heavyProfile == used.heavy,
        r.lightProfile == used.light,
        r.utilityProfile == used.utility,
        r.profiles@.len() == profiles@.len(),
        forall|i: int|
            0 <= i < profiles@.len() ==> shows_profile(
                #[trigger] r.profiles@[i],
                profiles@[i],
                codexConfigured,
            ),
        scope_views(r.scopes@) == kept_scopes(scopes@),
        r.configPath == (match savePath {
            Some(p) => p,
            None => fallback,
        }),
{
    let mut shown: Vec<ModelProfileStatus> = Vec::new();
    let mut i: usize = 0;
    while i < profiles.len()
        invariant
            i <= profiles@.len(),
            shown@.len() == i,
            forall|k: int|
                0 <= k < i ==> shows_profile(
                    #[trigger] shown@[k],
                    profiles@[k],
                    codexConfigured,
                ),
        decreases profiles@.len() - i,
    {
        shown.push(profileStatus(&profiles[i], codexConfigured));
        i = i + 1;
    }
    let configPath = match savePath {
        Some(p) => p,
        None => fallback,
    };
    ModelStatus {
        heavyProfile: used.heavy,
        lightProfile: used.light,
        utilityProfile: used.utility,
        profiles: shown,
        scopes: scopeStatuses(scopes),
        configPath,
    }
}

} // verus!
