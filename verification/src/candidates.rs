//! The data the library ranks and resolves: discovered installations of the
//! tool, and descriptors for the runtime it needs.

use vstd::prelude::*;
use vstd::string::StringExecFns;
use crate::strutil::spec_starts_with;

verus! {

/// How an installation came to be on the machine.
#[derive(Clone, Copy, Debug, PartialEq, Eq, Structural)]
pub enum InstallationType {
    /// Installed system-wide and found by scanning.
    System,
    /// A path the user supplied directly.
    Custom,
    /// Shipped inside the application's own data directory.
    Bundled,
}

/// A discovered installation of the tool, not yet ranked.
#[derive(Clone, Debug)]
pub struct ToolInstallation {
    /// Full path to the binary, or the bare command name when it was only
    /// found through the search path.
    pub path: String,
    /// Version reported by the binary, when one could be read.
    pub version: Option<String>,
    /// Which discovery strategy produced this candidate.
    pub source: String,
    /// Kind of installation.
    pub installation_type: InstallationType,
}

/// The mathematical image of a `ToolInstallation`.
pub ghost struct CandidateModel {
    pub path: Seq<char>,
    pub version: Option<Seq<char>>,
    pub source: Seq<char>,
    pub installation_type: InstallationType,
}

impl View for ToolInstallation {
    type V = CandidateModel;

    open spec fn view(&self) -> CandidateModel {
        CandidateModel {
            path: self.path@,
            version: match self.version {
                Some(v) => Some(v@),
                None => None,
            },
            source: self.source@,
            installation_type: self.installation_type,
        }
    }
}

/// The outcome of runtime resolution: where the runtime binary is and how it
/// was obtained.
#[derive(Clone, Debug)]
pub struct NodeRuntime {
    /// Path to the runtime binary.
    pub path: String,
    /// Version reported by the binary, when one could be read.
    pub version: Option<String>,
    /// Which tier produced it: `"system"`, an entry of the version manager,
    /// `"bundled"`, or `"downloaded"`.
    pub source: String,
    /// True exactly when the runtime lives in the application's own data
    /// directory (the bundled and downloaded tiers).
    pub is_bundled: bool,
}

/// The mathematical image of a `NodeRuntime`.
pub ghost struct RuntimeModel {
    pub path: Seq<char>,
    pub version: Option<Seq<char>>,
    pub source: Seq<char>,
    pub is_bundled: bool,
}

impl View for NodeRuntime {
    type V = RuntimeModel;

    open spec fn view(&self) -> RuntimeModel {
        RuntimeModel {
            path: self.path@,
            version: match self.version {
                Some(v) => Some(v@),
                None => None,
            },
            source: self.source@,
            is_bundled: self.is_bundled,
        }
    }
}

/// The fixed preference table over discovery sources: lower ranks are
/// preferred when versions cannot break a tie.  Unknown sources rank last.
pub open spec fn spec_source_preference(source: Seq<char>) -> u8 {
    if source == "which"@ {
        1
    } else if source == "homebrew"@ {
        2
    } else if source == "system"@ {
        3
    } else if spec_starts_with(source, "nvm"@) {
        4
    } else if source == "local-bin"@ {
        5
    } else if source == "acli-local"@ {
        6
    } else if source == "npm-global"@ {
        7
    } else if source == "yarn"@ || source == "yarn-global"@ {
        8
    } else if source == "bun"@ {
        9
    } else if source == "node-modules"@ {
        10
    } else if source == "home-bin"@ {
        11
    } else if source == "PATH"@ {
        12
    } else {
        13
    }
}

/// Preference rank of an installation's source (lower is better).
pub fn source_preference(installation: &ToolInstallation) -> (r: u8)
    ensures
        r == spec_source_preference(installation.source@),
{
    let s = installation.source.as_str();
    if crate::strutil::str_eq(s, "which") {
        1
    } else if crate::strutil::str_eq(s, "homebrew") {
        2
    } else if crate::strutil::str_eq(s, "system") {
        3
    } else if crate::strutil::starts_with_str(s, "nvm") {
        4
    } else if crate::strutil::str_eq(s, "local-bin") {
        5
    } else if crate::strutil::str_eq(s, "acli-local") {
        6
    } else if crate::strutil::str_eq(s, "npm-global") {
        7
    } else if crate::strutil::str_eq(s, "yarn") || crate::strutil::str_eq(s, "yarn-global") {
        8
    } else if crate::strutil::str_eq(s, "bun") {
        9
    } else if crate::strutil::str_eq(s, "node-modules") {
        10
    } else if crate::strutil::str_eq(s, "home-bin") {
        11
    } else if crate::strutil::str_eq(s, "PATH") {
        12
    } else {
        13
    }
}

} // verus!
