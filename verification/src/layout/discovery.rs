//! Layout discovery.
//!
//! The working directory's ancestors are looked through, closest first, for
//! `.flatline/layout.toml`; the user's config directory is the fallback. A file
//! that was found but cannot be used is reported as an error, so that the
//! caller can fall back to the default and say why.

use vstd::prelude::*;
use vstd::string::*;
use crate::layout::{Layout, is_canonical};
use crate::text::opt_text;

verus! {

/// File name we look for during walk-up discovery.
pub const LAYOUT_FILENAME: &'static str = "layout.toml";

/// Per-project marker directory.
pub const PROJECT_DIR: &'static str = ".flatline";

/// Directory of the fallback below the user's config directory.
pub const CONFIG_SUBDIR: &'static str = "flatline";

/// A file that may hold a layout, and whether it exists.
#[derive(Clone, Debug)]
pub struct Candidate {
    pub path: String,
    pub exists: bool,
}

/// Result of a discovery walk. `result` is `Err` when a file was located but
/// cannot be used.
#[derive(Debug)]
pub struct DiscoveredLayout {
    pub path: String,
    pub result: Result<Layout, String>,
}

/// What came of reading a file.
#[derive(Debug)]
pub enum Loaded {
    /// The file could not be read.
    ReadFailed(String),
    /// The file does not hold a layout.
    ParseFailed(String),
    /// The file holds this layout.
    Parsed(Layout),
}

/// The first candidate that exists.
pub open spec fn first_hit(c: Seq<Candidate>) -> Option<Seq<char>>
    decreases c.len(),
{
    if c.len() == 0 {
        None
    } else if c[0].exists {
        Some(c[0].path@)
    } else {
        first_hit(c.skip(1))
    }
}

/// The closest candidate that exists. `candidates` holds one per ancestor of the
/// working directory, the closest first.
pub fn walkUp(candidates: &Vec<Candidate>) -> (r: Option<String>)
    ensures
        opt_text(r) == first_hit(candidates@),
{
    let mut i: usize = 0;
    proof {
        assert(candidates@.skip(0) =~= candidates@);
    }
    while i < candidates.len()
        invariant
            i <= candidates.len(),
            first_hit(candidates@) == first_hit(candidates@.skip(i as int)),
        decreases candidates.len() - i,
    {
        if candidates[i].exists {
            return Some(candidates[i].path.clone());
        }
        proof {
            assert(candidates@.skip(i as int).skip(1) =~= candidates@.skip(i + 1));
        }
        i = i + 1;
    }
    None
}

/// The file that discovery settles on: the closest ancestor's, else the
/// fallback where that exists, else none.
pub open spec fn chosen(candidates: Seq<Candidate>, fallback: Option<Candidate>) -> Option<
    Seq<char>,
> {
    if first_hit(candidates) is Some {
        first_hit(candidates)
    } else {
        match fallback {
            Some(f) => if f.exists {
                Some(f.path@)
            } else {
                None
            },
            None => None,
        }
    }
}

/// Picks the file to load.
pub fn choosePath(candidates: &Vec<Candidate>, fallback: &Option<Candidate>) -> (r: Option<String>)
    ensures
        opt_text(r) == chosen(candidates@, *fallback),
{
    match walkUp(candidates) {
        Some(p) => Some(p),
        None => match fallback {
            Some(f) => if f.exists {
                Some(f.path.clone())
            } else {
                None
            },
            None => None,
        },
    }
}

/// Judges what was read at `path`: a layout is accepted where it can be rendered.
pub fn loadAt(path: String, loaded: Loaded) -> (r: DiscoveredLayout)
    ensures
        r.path == path,
        match loaded {
            Loaded::ReadFailed(e) => r.result is Err && r.result->Err_0@ == "read failed: "@ + e@,
            Loaded::ParseFailed(e) => r.result is Err && r.result->Err_0@ == "parse failed: "@ + e@,
            Loaded::Parsed(l) => if is_canonical(l@) {
                r.result == Ok::<Layout, String>(l)
            } else {
                r.result is Err && r.result->Err_0@
                    == "unsupported shape: expected horizontal Split of terminal Tabs and AgentPanel"@
            },
        },
{
    let result: Result<Layout, String> = match loaded {
        Loaded::ReadFailed(e) => {
            let mut s = String::from_str("read failed: ");
            s.append(e.as_str());
            Err(s)
        },
        Loaded::ParseFailed(e) => {
            let mut s = String::from_str("parse failed: ");
            s.append(e.as_str());
            Err(s)
        },
        Loaded::Parsed(l) => {
            if l.isCanonicalPhase1() {
                Ok(l)
            } else {
                Err(
                    String::from_str(
                        "unsupported shape: expected horizontal Split of terminal Tabs and AgentPanel",
                    ),
                )
            }
        },
    };
    DiscoveredLayout { path, result }
}

// ---- laws ----

/// A layout closer to the working directory wins over one further away, and
/// any of them wins over the fallback.
pub proof fn law_closest_layout_wins(
    candidates: Seq<Candidate>,
    fallback: Option<Candidate>,
    i: int,
)
    requires
        0 <= i < candidates.len(),
        candidates[i].exists,
        forall|j: int| 0 <= j < i ==> !(#[trigger] candidates[j]).exists,
    ensures
        chosen(candidates, fallback) == Some(candidates[i].path@),
    decreases i,
{
    if i > 0 {
        assert(!candidates[0].exists);
        law_closest_layout_wins(candidates.skip(1), fallback, i - 1);
    }
}

/// Where no file exists, nothing is discovered.
pub proof fn law_nothing_is_discovered_where_nothing_exists(
    candidates: Seq<Candidate>,
    fallback: Option<Candidate>,
)
    requires
        forall|j: int| 0 <= j < candidates.len() ==> !(#[trigger] candidates[j]).exists,
        fallback matches Some(f) ==> !f.exists,
    ensures
        chosen(candidates, fallback) is None,
    decreases candidates.len(),
{
    if candidates.len() > 0 {
        assert(!candidates[0].exists);
        law_nothing_is_discovered_where_nothing_exists(candidates.skip(1), fallback);
    }
}

} // verus!
