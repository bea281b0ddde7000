//! The top-level resolution decisions: the persisted hint's short-circuit,
//! the choice among discovered installations, and the fallback search for a
//! globally installed tool once a runtime is secured.

use vstd::prelude::*;
use vstd::string::StringExecFns;
use crate::candidates::ToolInstallation;
use crate::ranking::{select_spec, select_best_installation};
use crate::resolver::{first_true_from, string_views};
use crate::strutil;

verus! {

/// The persisted hint short-circuits discovery exactly when its stored
/// path still names a regular file; a stale hint is ignored.
pub fn use_stored_hint(stored: Option<String>, exists_is_file: bool) -> (r: Option<String>)
    ensures
        r == (if exists_is_file {
            stored
        } else {
            None::<String>
        }),
{
    if exists_is_file {
        stored
    } else {
        None
    }
}

/// The short list of conventional global install locations searched for
/// the tool once a bundled runtime is secured.
pub open spec fn global_tool_paths_spec(home: Seq<char>) -> Seq<Seq<char>> {
    seq![
        home + "/.npm-global/bin/acli"@,
        home + "/.yarn/bin/acli"@,
        home + "/.local/bin/acli"@,
        "/usr/local/bin/acli"@,
        "/opt/homebrew/bin/acli"@,
    ]
}

/// The conventional global install locations to probe for the tool.
pub fn global_tool_paths(home: &str) -> (r: Vec<String>)
    ensures
        string_views(r@) == global_tool_paths_spec(home@),
{
    let mut r: Vec<String> = Vec::new();
    r.push(strutil::concat2(home, "/.npm-global/bin/acli"));
    r.push(strutil::concat2(home, "/.yarn/bin/acli"));
    r.push(strutil::concat2(home, "/.local/bin/acli"));
    r.push(String::from_str("/usr/local/bin/acli"));
    r.push(String::from_str("/opt/homebrew/bin/acli"));
    proof {
        assert(string_views(r@) =~= global_tool_paths_spec(home@));
    }
    r
}

/// Picks the first existing global install location, given the existence
/// probe of each entry of `global_tool_paths` in order; the tool is not
/// invoked, only its presence counts.  Without a home directory, or with
/// no existing location, resolution reports that nothing can be paired
/// with the bundled runtime.
pub fn find_global_tool_with_bundled_node(home: Option<&str>, exists_flags: &Vec<bool>) -> (r:
    Result<String, String>)
    requires
        (match home {
            Some(h) => exists_flags@.len() == global_tool_paths_spec(h@).len(),
            None => true,
        }),
    ensures
        match home {
            Some(h) => {
                if first_true_from(exists_flags@, 0) >= 0 {
                    r matches Ok(p) && p@ == global_tool_paths_spec(h@)[first_true_from(
                        exists_flags@,
                        0,
                    )]
                } else {
                    r matches Err(e) && e@
                        == "No global Agent CLI installation found to pair with bundled Node.js"@
                }
            },
            None => r matches Err(e) && e@
                == "No global Agent CLI installation found to pair with bundled Node.js"@,
        },
{
    match home {
        Some(h) => {
            let paths = global_tool_paths(h);
            let n = paths.len();
            let mut i: usize = 0;
            while i < n
                invariant
                    home == Some(h),
                    i <= n,
                    n == paths@.len(),
                    n == exists_flags@.len(),
                    string_views(paths@) == global_tool_paths_spec(h@),
                    first_true_from(exists_flags@, 0) == first_true_from(
                        exists_flags@,
                        i as int,
                    ),
                decreases n - i,
            {
                if exists_flags[i] {
                    assert(first_true_from(exists_flags@, i as int) == i);
                    assert(string_views(paths@)[i as int] == paths@[i as int]@);
                    return Ok(paths[i].clone());
                }
                i += 1;
            }
            assert(first_true_from(exists_flags@, n as int) == -1);
            Err(String::from_str("No global Agent CLI installation found to pair with bundled Node.js"))
        },
        None => Err(
            String::from_str("No global Agent CLI installation found to pair with bundled Node.js"),
        ),
    }
}

/// The final choice of the tool's path once discovery has run: the best
/// discovered installation's path; with nothing discovered, the global
/// candidate found alongside an available runtime; failing both, the
/// not-found failure with its remediation text.
pub fn choose_tool_binary(
    installations: Vec<ToolInstallation>,
    runtime_available: bool,
    global_candidate: Option<String>,
) -> (r: Result<String, String>)
    ensures
        installations@.len() > 0 ==> (r matches Ok(p) && (match select_spec(installations@) {
            Some(best) => p@ == best.path@,
            None => false,
        })),
        installations@.len() == 0 && runtime_available && global_candidate is Some ==> (
        r matches Ok(p) && p == global_candidate->0),
        installations@.len() == 0 && !(runtime_available && global_candidate is Some) ==> (
        r matches Err(e) && e@ == crate::messages::format_error_spec("Agent CLI not found"@)),
{
    let n = installations.len();
    if n == 0 {
        if runtime_available {
            match global_candidate {
                Some(p) => {
                    return Ok(p);
                },
                None => {},
            }
        }
        Err(crate::messages::format_error_with_suggestion("Agent CLI not found"))
    } else {
        match select_best_installation(installations) {
            Some(best) => Ok(best.path),
            None => {
                proof {
                    assert(false);
                }
                Err(String::new())
            },
        }
    }
}

} // verus!
