//! Turning raw probe output into candidates: version extraction from
//! `--version` output, parsing of `which` output (including its alias
//! report), the fixed discovery-path tables, and first-seen-wins
//! deduplication by path.
//!
//! The probes themselves (spawning processes, listing directories, checking
//! that files exist) are I/O and live outside the library; their raw results
//! come in as plain values.

use vstd::prelude::*;
use vstd::string::StrSliceExecFns;
use vstd::string::StringExecFns;
use crate::candidates::{ToolInstallation, CandidateModel, InstallationType};
use crate::strutil::{
    self,
    matches_at,
    spec_contains,
    spec_starts_with,
    trim_spec,
    find_sub_spec,
    lemma_find_sub_spec_at,
    lemma_find_sub_spec_none,
};

verus! {

/// The first substring of `s` shaped like a semantic version
/// (`digits.digits.digits`, optionally followed by a pre-release or build
/// suffix), or nothing when `s` holds none.  Named only: it is computed by a
/// regular-expression engine and depends on `s` alone.
pub uninterp spec fn semver_match_of(s: Seq<char>) -> Option<Seq<char>>;

/// Relies on `regex::Regex::find` with the fixed pattern
/// `\d+\.\d+\.\d+(?:-[a-zA-Z0-9.-]+)?(?:\+[a-zA-Z0-9.-]+)?`: the leftmost
/// match is a function of the searched text alone.
#[verifier::external_body]
fn semver_search(s: &str) -> (r: Option<String>)
    ensures
        r is Some <==> semver_match_of(s@) is Some,
        r is Some ==> r->0@ == semver_match_of(s@)->0,
{
    let pattern = r"\d+\.\d+\.\d+(?:-[a-zA-Z0-9.-]+)?(?:\+[a-zA-Z0-9.-]+)?";
    match regex::Regex::new(pattern) {
        Ok(re) => re.find(s).map(|m| m.as_str().to_string()),
        Err(_) => None,
    }
}

/// The version a candidate reports, read out of its `--version` output:
/// the first semantic-version-shaped substring, or nothing.
pub fn extract_version_from_output(stdout: &str) -> (r: Option<String>)
    ensures
        r is Some <==> semver_match_of(stdout@) is Some,
        r is Some ==> r->0@ == semver_match_of(stdout@)->0,
{
    semver_search(stdout)
}

/// The version recorded for a probe of `<path> --version`: read from the
/// output only when the invocation succeeded, and absent otherwise.  A
/// failed probe never aborts a scan.
pub fn version_from_probe(success: bool, stdout: &str) -> (r: Option<String>)
    ensures
        success ==> (r is Some <==> semver_match_of(stdout@) is Some),
        success && r is Some ==> r->0@ == semver_match_of(stdout@)->0,
        !success ==> r is None,
{
    if success {
        extract_version_from_output(stdout)
    } else {
        None
    }
}

/// What `which` reported, reduced to a path: the trimmed output, except that
/// an alias report (`acli: ... aliased to <target> ...`) yields the
/// trimmed text between the first `aliased to` and the next one (or the
/// end), and an empty output yields nothing.
pub open spec fn which_parse_spec(raw: Seq<char>) -> Option<Seq<char>> {
    let t = trim_spec(raw);
    if t.len() == 0 {
        None
    } else if spec_starts_with(t, "acli:"@) && spec_contains(t, "aliased to"@) {
        let i = find_sub_spec(t, "aliased to"@);
        let rest = t.skip(i + "aliased to"@.len());
        let j = find_sub_spec(rest, "aliased to"@);
        let seg = if j < 0 {
            rest
        } else {
            rest.take(j)
        };
        Some(trim_spec(seg))
    } else {
        Some(t)
    }
}

/// Parses the output of the `which` lookup into the path it names.
pub fn parse_which_output(raw: &str) -> (r: Option<String>)
    ensures
        match r {
            Some(path) => which_parse_spec(raw@) == Some(path@),
            None => which_parse_spec(raw@) is None,
        },
{
    let t = strutil::trim_str(raw);
    let n = t.unicode_len();
    if n == 0 {
        return None;
    }
    if strutil::starts_with_str(t, "acli:") && strutil::contains_sub(t, "aliased to") {
        let marker = "aliased to";
        let mlen = marker.unicode_len();
        let i = match strutil::find_sub_from(t, marker, 0) {
            Some(i) => i,
            None => {
                proof {
                    assert(forall|m: int| matches_at(t@, marker@, m) ==> m >= 0);
                    assert(false);
                }
                0
            },
        };
        proof {
            lemma_find_sub_spec_at(t@, marker@, i as int);
        }
        let rest = t.substring_char(i + mlen, n);
        proof {
            assert(rest@ =~= t@.skip(i as int + marker@.len()));
        }
        let seg = match strutil::find_sub_from(rest, marker, 0) {
            Some(j) => {
                proof {
                    lemma_find_sub_spec_at(rest@, marker@, j as int);
                }
                rest.substring_char(0, j)
            },
            None => {
                proof {
                    lemma_find_sub_spec_none(rest@, marker@);
                }
                rest
            },
        };
        proof {
            if find_sub_spec(rest@, marker@) >= 0 {
                assert(seg@ =~= rest@.take(find_sub_spec(rest@, marker@)));
            }
        }
        let out = strutil::trim_str(seg);
        Some(out.to_owned())
    } else {
        Some(t.to_owned())
    }
}

/// A candidate as the probes saw it, before version extraction: where it
/// is, which strategy found it, and the raw `--version` output when that
/// probe succeeded.
pub struct RawCandidate {
    /// Path of the binary (or the bare command name for the search-path
    /// strategy).
    pub path: String,
    /// Label of the discovery strategy.
    pub source: String,
    /// Standard output of `<path> --version`, when that invocation ran and
    /// exited successfully.
    pub version_stdout: Option<String>,
}

/// The mathematical image of a `RawCandidate`.
pub ghost struct RawCandidateModel {
    pub path: Seq<char>,
    pub source: Seq<char>,
    pub version_stdout: Option<Seq<char>>,
}

impl View for RawCandidate {
    type V = RawCandidateModel;

    open spec fn view(&self) -> RawCandidateModel {
        RawCandidateModel {
            path: self.path@,
            source: self.source@,
            version_stdout: match self.version_stdout {
                Some(s) => Some(s@),
                None => None,
            },
        }
    }
}

/// The installation a raw candidate becomes: same path and source, the
/// version read from the recorded probe output, always a system
/// installation.
pub open spec fn built_candidate(r: RawCandidateModel) -> CandidateModel {
    CandidateModel {
        path: r.path,
        version: match r.version_stdout {
            Some(s) => semver_match_of(s),
            None => None,
        },
        source: r.source,
        installation_type: InstallationType::System,
    }
}

/// The models of a candidate list.
pub open spec fn models_of(s: Seq<ToolInstallation>) -> Seq<CandidateModel> {
    s.map_values(|c: ToolInstallation| c@)
}

/// The models that a list of raw candidates builds into.
pub open spec fn built_models(s: Seq<RawCandidate>) -> Seq<CandidateModel> {
    s.map_values(|rc: RawCandidate| built_candidate(rc@))
}

/// True when some candidate in `s` has path `p`.
pub open spec fn has_path(s: Seq<CandidateModel>, p: Seq<char>) -> bool {
    exists|i: int| 0 <= i < s.len() && #[trigger] s[i].path == p
}

/// First-seen-wins deduplication by path: a candidate is kept exactly when
/// no earlier candidate has the same path.
pub open spec fn dedup_models(s: Seq<CandidateModel>) -> Seq<CandidateModel>
    decreases s.len(),
{
    if s.len() == 0 {
        s
    } else {
        let front = dedup_models(s.drop_last());
        if has_path(s.drop_last(), s.last().path) {
            front
        } else {
            front.push(s.last())
        }
    }
}

proof fn lemma_dedup_same_paths(s: Seq<CandidateModel>, p: Seq<char>)
    ensures
        has_path(dedup_models(s), p) == has_path(s, p),
    decreases s.len(),
{
    if s.len() > 0 {
        lemma_dedup_same_paths(s.drop_last(), p);
        let front = dedup_models(s.drop_last());
        if has_path(s.drop_last(), s.last().path) {
            if has_path(s, p) {
                let i = choose|i: int| 0 <= i < s.len() && s[i].path == p;
                if i == s.len() - 1 {
                    assert(has_path(s.drop_last(), p));
                } else {
                    assert(s.drop_last()[i].path == p);
                }
            }
            if has_path(s.drop_last(), p) {
                let i = choose|i: int| 0 <= i < s.drop_last().len() && s.drop_last()[i].path == p;
                assert(s[i].path == p);
            }
        } else {
            if has_path(s, p) {
                let i = choose|i: int| 0 <= i < s.len() && s[i].path == p;
                if i == s.len() - 1 {
                    assert(front.push(s.last())[front.len() as int].path == p);
                } else {
                    assert(s.drop_last()[i].path == p);
                    let k = choose|k: int| 0 <= k < front.len() && front[k].path == p;
                    assert(front.push(s.last())[k].path == p);
                }
            }
            if has_path(front.push(s.last()), p) {
                let i = choose|i: int| 0 <= i < front.len() + 1 && front.push(s.last())[i].path
                    == p;
                if i == front.len() {
                    assert(s[s.len() - 1].path == p);
                } else {
                    assert(front[i].path == p);
                    let k = choose|k: int| 0 <= k < s.drop_last().len() && s.drop_last()[k].path
                        == p;
                    assert(s[k].path == p);
                }
            }
        }
    }
}

/// Decides whether any candidate in `v` has path `p`.
fn contains_path(v: &Vec<ToolInstallation>, p: &str) -> (r: bool)
    ensures
        r == has_path(models_of(v@), p@),
{
    let n = v.len();
    let mut i: usize = 0;
    while i < n
        invariant
            i <= n,
            n == v@.len(),
            forall|m: int| 0 <= m < i ==> #[trigger] models_of(v@)[m].path != p@,
        decreases n - i,
    {
        if strutil::str_eq(v[i].path.as_str(), p) {
            assert(models_of(v@)[i as int].path == p@);
            return true;
        }
        i += 1;
    }
    false
}

/// Builds the discovered installations out of the raw probe results: each
/// candidate gets its version read from its recorded `--version` output,
/// and of several candidates with the same path only the first survives.
pub fn discover_system_installations(raw: Vec<RawCandidate>) -> (r: Vec<ToolInstallation>)
    ensures
        models_of(r@) == dedup_models(built_models(raw@)),
{
    let ghost orig = built_models(raw@);
    let total: usize = raw.len();
    let mut src = raw;
    let mut out: Vec<ToolInstallation> = Vec::new();
    let mut taken: usize = 0;
    proof {
        assert(orig.take(0) =~= Seq::<CandidateModel>::empty());
        assert(models_of(out@) =~= Seq::<CandidateModel>::empty());
    }
    while src.len() > 0
        invariant
            taken <= total,
            total == orig.len(),
            built_models(src@) == orig.skip(taken as int),
            models_of(out@) == dedup_models(orig.take(taken as int)),
        decreases src@.len(),
    {
        let ghost src0 = src@;
        let rc = src.remove(0);
        proof {
            assert(built_models(src0).len() == src0.len());
            assert(orig.skip(taken as int).len() == orig.len() - taken);
            assert(taken < orig.len());
            assert(built_models(src0)[0] == built_candidate(rc@));
            assert(orig.skip(taken as int)[0] == orig[taken as int + 0]);
            assert(built_candidate(rc@) == orig[taken as int]);
            assert(src@ =~= src0.drop_first());
            assert forall|m: int| 0 <= m < src@.len() implies built_models(src@)[m] == orig[taken as int + 1 + m] by {
                assert(built_models(src@)[m] == built_candidate(src@[m]@));
                assert(src@[m] == src0[m + 1]);
                assert(built_models(src0)[m + 1] == built_candidate(src0[m + 1]@));
                assert(orig.skip(taken as int)[m + 1] == orig[taken as int + (m + 1)]);
            }
            assert(built_models(src@) =~= orig.skip(taken as int + 1));
        }
        let version = match &rc.version_stdout {
            Some(s) => extract_version_from_output(s.as_str()),
            None => None,
        };
        let cand = ToolInstallation {
            path: rc.path,
            version,
            source: rc.source,
            installation_type: InstallationType::System,
        };
        proof {
            assert(cand@ == orig[taken as int]);
            assert(orig.take(taken as int + 1).drop_last() =~= orig.take(taken as int));
            assert(orig.take(taken as int + 1).last() == orig[taken as int]);
            lemma_dedup_same_paths(orig.take(taken as int), cand@.path);
        }
        let dup = contains_path(&out, cand.path.as_str());
        if !dup {
            out.push(cand);
            proof {
                assert(models_of(out@) =~= dedup_models(orig.take(taken as int)).push(
                    orig[taken as int],
                ));
            }
        }
        taken += 1;
    }
    proof {
        assert(orig.take(taken as int) =~= orig);
        assert(built_models(src@).len() == src@.len());
    }
    out
}

/// The first candidate in `s` whose path is `p`.
pub open spec fn first_with_path(s: Seq<CandidateModel>, p: Seq<char>) -> CandidateModel
    decreases s.len(),
    when s.len() > 0
{
    if s[0].path == p || s.len() == 1 {
        s[0]
    } else {
        first_with_path(s.drop_first(), p)
    }
}

proof fn lemma_first_with_path_extend(s: Seq<CandidateModel>, x: CandidateModel, p: Seq<char>)
    requires
        has_path(s, p),
    ensures
        first_with_path(s.push(x), p) == first_with_path(s, p),
    decreases s.len(),
{
    if s[0].path == p || s.len() == 1 {
        assert(s.push(x)[0] == s[0]);
        assert(s.push(x).len() > 1);
    } else {
        assert(has_path(s.drop_first(), p)) by {
            let i = choose|i: int| 0 <= i < s.len() && s[i].path == p;
            assert(s.drop_first()[i - 1].path == p);
        }
        lemma_first_with_path_extend(s.drop_first(), x, p);
        assert(s.push(x).drop_first() =~= s.drop_first().push(x));
    }
}

proof fn lemma_first_with_path_new(s: Seq<CandidateModel>, x: CandidateModel)
    requires
        !has_path(s, x.path),
    ensures
        first_with_path(s.push(x), x.path) == x,
    decreases s.len(),
{
    if s.len() == 0 {
        assert(s.push(x)[0] == x);
    } else {
        assert(s[0].path != x.path);
        assert(s.push(x)[0] == s[0]);
        assert(has_path(s, s[0].path));
        assert(s.push(x).len() > 1);
        assert(!has_path(s.drop_first(), x.path)) by {
            if has_path(s.drop_first(), x.path) {
                let i = choose|i: int| 0 <= i < s.drop_first().len() && s.drop_first()[i].path
                    == x.path;
                assert(s[i + 1].path == x.path);
            }
        }
        lemma_first_with_path_new(s.drop_first(), x);
        assert(s.push(x).drop_first() =~= s.drop_first().push(x));
    }
}

/// Deduplication keeps, for each path, exactly the first candidate that was
/// seen with it: the result's paths are pairwise distinct, a path occurs in
/// the result exactly when some candidate had it, and each surviving
/// candidate is the first one of its path.
pub proof fn lemma_dedup_first_seen_wins(s: Seq<CandidateModel>)
    ensures
        forall|i: int, j: int|
            0 <= i < j < dedup_models(s).len() ==> #[trigger] dedup_models(s)[i].path
                != #[trigger] dedup_models(s)[j].path,
        forall|p: Seq<char>| has_path(dedup_models(s), p) == has_path(s, p),
        forall|i: int|
            0 <= i < dedup_models(s).len() ==> #[trigger] dedup_models(s)[i] == first_with_path(
                s,
                dedup_models(s)[i].path,
            ),
    decreases s.len(),
{
    assert forall|p: Seq<char>| has_path(dedup_models(s), p) == has_path(s, p) by {
        lemma_dedup_same_paths(s, p);
    }
    if s.len() > 0 {
        lemma_dedup_first_seen_wins(s.drop_last());
        let front = dedup_models(s.drop_last());
        let x = s.last();
        assert(s =~= s.drop_last().push(x));
        if has_path(s.drop_last(), x.path) {
            assert forall|i: int| 0 <= i < dedup_models(s).len() implies #[trigger] dedup_models(
                s,
            )[i] == first_with_path(s, dedup_models(s)[i].path) by {
                assert(dedup_models(s)[i] == front[i]);
                assert(has_path(s.drop_last(), front[i].path)) by {
                    lemma_dedup_same_paths(s.drop_last(), front[i].path);
                    assert(front[i].path == front[i].path);
                }
                lemma_first_with_path_extend(s.drop_last(), x, front[i].path);
            }
        } else {
            assert forall|i: int, j: int|
                0 <= i < j < dedup_models(s).len() implies #[trigger] dedup_models(s)[i].path
                != #[trigger] dedup_models(s)[j].path by {
                if j < front.len() {
                } else {
                    assert(dedup_models(s)[j] == x);
                    assert(dedup_models(s)[i] == front[i]);
                    if front[i].path == x.path {
                        lemma_dedup_same_paths(s.drop_last(), x.path);
                    }
                }
            }
            assert forall|i: int| 0 <= i < dedup_models(s).len() implies #[trigger] dedup_models(
                s,
            )[i] == first_with_path(s, dedup_models(s)[i].path) by {
                if i < front.len() {
                    assert(dedup_models(s)[i] == front[i]);
                    assert(has_path(s.drop_last(), front[i].path)) by {
                        lemma_dedup_same_paths(s.drop_last(), front[i].path);
                    }
                    lemma_first_with_path_extend(s.drop_last(), x, front[i].path);
                } else {
                    assert(dedup_models(s)[i] == x);
                    lemma_first_with_path_new(s.drop_last(), x);
                }
            }
        }
    }
}

/// The views of a list of `(path, source)` pairs.
pub open spec fn pair_views(s: Seq<(String, String)>) -> Seq<(Seq<char>, Seq<char>)> {
    s.map_values(|p: (String, String)| (p.0@, p.1@))
}

/// The fixed table of conventional install locations for the tool, paired
/// with their source labels; the home-relative ones are present only when a
/// home directory is known.
pub open spec fn standard_paths_spec(home: Option<Seq<char>>) -> Seq<(Seq<char>, Seq<char>)> {
    let base = seq![
        ("/usr/local/bin/acli"@, "system"@),
        ("/opt/homebrew/bin/acli"@, "homebrew"@),
        ("/usr/bin/acli"@, "system"@),
        ("/bin/acli"@, "system"@),
    ];
    match home {
        None => base,
        Some(h) => base + seq![
            (h + "/.acli/local/acli"@, "acli-local"@),
            (h + "/.local/bin/acli"@, "local-bin"@),
            (h + "/.npm-global/bin/acli"@, "npm-global"@),
            (h + "/.yarn/bin/acli"@, "yarn"@),
            (h + "/.bun/bin/acli"@, "bun"@),
            (h + "/bin/acli"@, "home-bin"@),
            (h + "/node_modules/.bin/acli"@, "node-modules"@),
            (h + "/.config/yarn/global/node_modules/.bin/acli"@, "yarn-global"@),
        ],
    }
}

/// The conventional install locations to probe for the tool, with their
/// source labels, in the order the scan considers them.
pub fn standard_tool_paths(home: Option<&str>) -> (r: Vec<(String, String)>)
    ensures
        pair_views(r@) == standard_paths_spec(
            match home {
                Some(h) => Some(h@),
                None => None,
            },
        ),
{
    let mut r: Vec<(String, String)> = Vec::new();
    r.push((String::from_str("/usr/local/bin/acli"), String::from_str("system")));
    r.push((String::from_str("/opt/homebrew/bin/acli"), String::from_str("homebrew")));
    r.push((String::from_str("/usr/bin/acli"), String::from_str("system")));
    r.push((String::from_str("/bin/acli"), String::from_str("system")));
    match home {
        None => {
            proof {
                assert(pair_views(r@) =~= standard_paths_spec(None));
            }
            r
        },
        Some(h) => {
            r.push((strutil::concat2(h, "/.acli/local/acli"), String::from_str(
                "acli-local",
            )));
            r.push((strutil::concat2(h, "/.local/bin/acli"), String::from_str("local-bin")));
            r.push((strutil::concat2(h, "/.npm-global/bin/acli"), String::from_str(
                "npm-global",
            )));
            r.push((strutil::concat2(h, "/.yarn/bin/acli"), String::from_str("yarn")));
            r.push((strutil::concat2(h, "/.bun/bin/acli"), String::from_str("bun")));
            r.push((strutil::concat2(h, "/bin/acli"), String::from_str("home-bin")));
            r.push((strutil::concat2(h, "/node_modules/.bin/acli"), String::from_str(
                "node-modules",
            )));
            r.push((strutil::concat2(h, "/.config/yarn/global/node_modules/.bin/acli"),
                String::from_str("yarn-global")));
            proof {
                assert(pair_views(r@) =~= standard_paths_spec(Some(h@)));
            }
            r
        },
    }
}

/// The root under which the version manager keeps one directory per runtime
/// version.
pub fn nvm_versions_dir(home: &str) -> (r: String)
    ensures
        r@ == home@ + "/.nvm/versions/node"@,
{
    strutil::concat2(home, "/.nvm/versions/node")
}

/// Where the tool would live inside one version directory of the version
/// manager.
pub fn nvm_tool_path(home: &str, version_dir: &str) -> (r: String)
    ensures
        r@ == home@ + "/.nvm/versions/node/"@ + version_dir@ + "/bin/acli"@,
{
    let a = strutil::concat3(home, "/.nvm/versions/node/", version_dir);
    let r = strutil::concat2(a.as_str(), "/bin/acli");
    proof {
        assert(r@ =~= home@ + "/.nvm/versions/node/"@ + version_dir@ + "/bin/acli"@);
    }
    r
}

/// The source label of a candidate found through the version manager.
pub fn nvm_source_label(version_dir: &str) -> (r: String)
    ensures
        r@ == "nvm ("@ + version_dir@ + ")"@,
{
    strutil::concat3("nvm (", version_dir, ")")
}

} // verus!
