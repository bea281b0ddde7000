//! Resolution of the runtime through three ordered tiers: a system
//! installation, a previously bundled binary, and a fresh download.  The
//! decisions are all here; the probes, downloads and filesystem writes are
//! performed outside and their outcomes handed back in.

use vstd::prelude::*;
use vstd::string::StrSliceExecFns;
use vstd::string::StringExecFns;
use core::cmp::Ordering;
use crate::candidates::NodeRuntime;
use crate::strutil::{self, trim_spec};
use crate::version::flip;

verus! {

/// The three tiers, in the order they are tried.
#[derive(Clone, Copy, Debug, PartialEq, Eq, Structural)]
pub enum Tier {
    /// A runtime already installed on the machine.
    System,
    /// A runtime previously placed in the application's data directory.
    Bundled,
    /// A runtime to be downloaded and installed now.
    Download,
}

/// The state of one resolution run.
pub enum ResolverState {
    /// The named tier's probe is to be run next.
    Probing(Tier),
    /// A runtime was secured; no further tier is tried.
    Done(NodeRuntime),
    /// Every tier failed; the message is the download tier's, the most
    /// specific one.
    Failed(String),
}

/// What a tier's probe reported back.
pub enum TierOutcome {
    /// The tier produced a runtime.
    Success(NodeRuntime),
    /// The tier failed with the given message.
    Failure(String),
}

/// The transition of the tier machine: success ends the run at once (and
/// pins `is_bundled`: false for the system tier, true otherwise); failure
/// moves to the next tier, and failure of the download tier ends the run
/// with that tier's message.
pub open spec fn step_spec(t: Tier, outcome: TierOutcome) -> ResolverState {
    match outcome {
        TierOutcome::Success(rt) => ResolverState::Done(
            NodeRuntime {
                path: rt.path,
                version: rt.version,
                source: rt.source,
                is_bundled: t != Tier::System,
            },
        ),
        TierOutcome::Failure(m) => match t {
            Tier::System => ResolverState::Probing(Tier::Bundled),
            Tier::Bundled => ResolverState::Probing(Tier::Download),
            Tier::Download => ResolverState::Failed(m),
        },
    }
}

/// The probe a state asks for, if any; `Done` and `Failed` ask for none.
pub open spec fn probe_of(s: ResolverState) -> Option<Tier> {
    match s {
        ResolverState::Probing(t) => Some(t),
        ResolverState::Done(_) => None,
        ResolverState::Failed(_) => None,
    }
}

/// The state a resolution run starts in: about to probe the system tier.
pub fn resolver_start() -> (r: ResolverState)
    ensures
        r == ResolverState::Probing(Tier::System),
{
    ResolverState::Probing(Tier::System)
}

/// Which probe to run next; a run is over when this is `None`.
pub fn requested_probe(state: &ResolverState) -> (r: Option<Tier>)
    ensures
        r == probe_of(*state),
{
    match state {
        ResolverState::Probing(t) => Some(*t),
        ResolverState::Done(_) => None,
        ResolverState::Failed(_) => None,
    }
}

/// Feeds one probe's outcome into the machine.
pub fn resolver_step(state: ResolverState, outcome: TierOutcome) -> (r: ResolverState)
    requires
        state is Probing,
    ensures
        state matches ResolverState::Probing(t) ==> r == step_spec(t, outcome),
{
    let t = match &state {
        ResolverState::Probing(t) => *t,
        _ => Tier::System,
    };
    match outcome {
        TierOutcome::Success(rt) => ResolverState::Done(
            NodeRuntime {
                path: rt.path,
                version: rt.version,
                source: rt.source,
                is_bundled: match t {
                    Tier::System => false,
                    _ => true,
                },
            },
        ),
        TierOutcome::Failure(m) => match t {
            Tier::System => ResolverState::Probing(Tier::Bundled),
            Tier::Bundled => ResolverState::Probing(Tier::Download),
            Tier::Download => ResolverState::Failed(m),
        },
    }
}

/// When the system tier succeeds, the run is complete at once: the machine
/// is `Done`, asks for no further probe (so the bundled and download tiers
/// are never tried), and the runtime is marked as not bundled.
pub proof fn lemma_system_success_short_circuits(rt: NodeRuntime)
    ensures
        step_spec(Tier::System, TierOutcome::Success(rt)) is Done,
        probe_of(step_spec(Tier::System, TierOutcome::Success(rt))) is None,
        step_spec(
            Tier::System,
            TierOutcome::Success(rt),
        ) matches ResolverState::Done(d) && d@.is_bundled == false,
{
}

/// A secured runtime is marked bundled exactly when it did not come from
/// the system tier.
pub proof fn lemma_bundled_flag_matches_tier(t: Tier, rt: NodeRuntime)
    ensures
        step_spec(t, TierOutcome::Success(rt)) matches ResolverState::Done(d) && d@.is_bundled == (
        t != Tier::System),
{
}

/// Lexicographic comparison of two character sequences.
pub open spec fn str_cmp_spec(a: Seq<char>, b: Seq<char>) -> Ordering
    decreases a.len() + b.len(),
{
    if a.len() == 0 && b.len() == 0 {
        Ordering::Equal
    } else if a.len() == 0 {
        Ordering::Less
    } else if b.len() == 0 {
        Ordering::Greater
    } else if a[0] < b[0] {
        Ordering::Less
    } else if a[0] > b[0] {
        Ordering::Greater
    } else {
        str_cmp_spec(a.drop_first(), b.drop_first())
    }
}

/// Reversing the operands of the lexicographic order gives the opposite
/// answer.
pub proof fn lemma_str_cmp_antisym(a: Seq<char>, b: Seq<char>)
    ensures
        str_cmp_spec(b, a) == flip(str_cmp_spec(a, b)),
    decreases a.len() + b.len(),
{
    if a.len() > 0 && b.len() > 0 && a[0] == b[0] {
        lemma_str_cmp_antisym(a.drop_first(), b.drop_first());
    }
}

/// The lexicographic order is transitive, strictly so when either step is
/// strict.
pub proof fn lemma_str_cmp_trans(a: Seq<char>, b: Seq<char>, c: Seq<char>)
    requires
        str_cmp_spec(a, b) != Ordering::Greater,
        str_cmp_spec(b, c) != Ordering::Greater,
    ensures
        str_cmp_spec(a, c) != Ordering::Greater,
        str_cmp_spec(a, b) == Ordering::Less || str_cmp_spec(b, c) == Ordering::Less
            ==> str_cmp_spec(a, c) == Ordering::Less,
    decreases a.len() + b.len() + c.len(),
{
    if a.len() > 0 && b.len() > 0 && c.len() > 0 && a[0] == b[0] && b[0] == c[0] {
        lemma_str_cmp_trans(a.drop_first(), b.drop_first(), c.drop_first());
    }
}

/// Sequences the lexicographic order cannot part are equal.
pub proof fn lemma_str_cmp_equal(a: Seq<char>, b: Seq<char>)
    requires
        str_cmp_spec(a, b) == Ordering::Equal,
    ensures
        a == b,
    decreases a.len() + b.len(),
{
    if a.len() > 0 && b.len() > 0 && a[0] == b[0] {
        lemma_str_cmp_equal(a.drop_first(), b.drop_first());
        assert forall|m: int| 0 <= m < a.len() implies a[m] == b[m] by {
            if m > 0 {
                assert(a.drop_first()[m - 1] == a[m]);
                assert(b.drop_first()[m - 1] == b[m]);
            }
        }
        assert(a =~= b);
    }
}

/// Compares two strings lexicographically by character.
pub fn str_compare(a: &str, b: &str) -> (r: Ordering)
    ensures
        r == str_cmp_spec(a@, b@),
{
    let na: usize = a.unicode_len();
    let nb: usize = b.unicode_len();
    let mut i: usize = 0;
    proof {
        assert(a@.skip(0) =~= a@);
        assert(b@.skip(0) =~= b@);
    }
    while i < na && i < nb
        invariant
            i <= na,
            i <= nb,
            na == a@.len(),
            nb == b@.len(),
            str_cmp_spec(a@, b@) == str_cmp_spec(a@.skip(i as int), b@.skip(i as int)),
        decreases na - i,
    {
        let ca = a.get_char(i);
        let cb = b.get_char(i);
        proof {
            assert(a@.skip(i as int)[0] == a@[i as int]);
            assert(b@.skip(i as int)[0] == b@[i as int]);
            assert(a@.skip(i as int).drop_first() =~= a@.skip(i as int + 1));
            assert(b@.skip(i as int).drop_first() =~= b@.skip(i as int + 1));
        }
        if ca < cb {
            return Ordering::Less;
        } else if ca > cb {
            return Ordering::Greater;
        }
        i += 1;
    }
    proof {
        assert(a@.skip(i as int).len() == na - i);
        assert(b@.skip(i as int).len() == nb - i);
        if i < na {
            assert(a@.skip(i as int).len() > 0);
        }
        if i < nb {
            assert(b@.skip(i as int).len() > 0);
        }
    }
    if i < na {
        Ordering::Greater
    } else if i < nb {
        Ordering::Less
    } else {
        Ordering::Equal
    }
}

/// One directory entry under the version manager's root, as listed.
pub struct NodeNvmEntry {
    /// The entry's name (conventionally a version, `v20.11.0`).
    pub name: String,
    /// Whether the entry is a directory.
    pub is_dir: bool,
    /// Whether `bin/node` exists under it.
    pub has_node: bool,
}

/// The mathematical image of a `NodeNvmEntry`.
pub ghost struct NvmEntryModel {
    pub name: Seq<char>,
    pub is_dir: bool,
    pub has_node: bool,
}

impl View for NodeNvmEntry {
    type V = NvmEntryModel;

    open spec fn view(&self) -> NvmEntryModel {
        NvmEntryModel { name: self.name@, is_dir: self.is_dir, has_node: self.has_node }
    }
}

/// An entry can supply the runtime when it is a directory holding
/// `bin/node`.
pub open spec fn nvm_qualifies(e: NvmEntryModel) -> bool {
    e.is_dir && e.has_node
}

/// The index of the version-manager entry the resolver uses, or `-1` when
/// none qualifies: scanning in listed order, a qualifying entry replaces
/// the running choice only when its name is strictly larger, so the choice
/// is the qualifying entry with the lexicographically largest name, and of
/// several with that name, the one listed first.
pub open spec fn best_nvm_index(s: Seq<NodeNvmEntry>) -> int
    decreases s.len(),
{
    if s.len() == 0 {
        -1
    } else {
        let prev = best_nvm_index(s.drop_last());
        if !nvm_qualifies(s.last()@) {
            prev
        } else if prev < 0 {
            s.len() - 1
        } else if str_cmp_spec(s[prev]@.name, s.last()@.name) == Ordering::Less {
            s.len() - 1
        } else {
            prev
        }
    }
}

/// The choice really is the qualifying entry with the largest name, and
/// the first-listed one among equals; when no entry qualifies, there is no
/// choice.
pub proof fn lemma_best_nvm_index_props(s: Seq<NodeNvmEntry>)
    ensures
        best_nvm_index(s) >= 0 ==> {
            let b = best_nvm_index(s);
            &&& b < s.len()
            &&& nvm_qualifies(s[b]@)
            &&& forall|j: int|
                0 <= j < s.len() && nvm_qualifies(#[trigger] s[j]@) ==> str_cmp_spec(
                    s[b]@.name,
                    s[j]@.name,
                ) != Ordering::Less
            &&& forall|j: int|
                0 <= j < b && nvm_qualifies(#[trigger] s[j]@) ==> str_cmp_spec(
                    s[j]@.name,
                    s[b]@.name,
                ) == Ordering::Less
        },
        best_nvm_index(s) < 0 ==> forall|j: int|
            0 <= j < s.len() ==> !nvm_qualifies(#[trigger] s[j]@),
    decreases s.len(),
{
    if s.len() > 0 {
        lemma_best_nvm_index_props(s.drop_last());
        let front = s.drop_last();
        let prev = best_nvm_index(front);
        let b = best_nvm_index(s);
        let last = s.len() - 1;
        assert(front.len() == last);
        assert(forall|j: int| 0 <= j < last ==> s[j] == front[j]);
        assert(forall|j: int| 0 <= j < last ==> (#[trigger] s[j]@) == front[j]@);
        assert(forall|j: int|
            0 <= j < last ==> (nvm_qualifies(#[trigger] s[j]@) == nvm_qualifies(front[j]@)));
        assert(s.last() == s[last]);
        if !nvm_qualifies(s[last]@) {
        } else if prev < 0 {
            assert(b == last);
            lemma_str_cmp_antisym(s[last]@.name, s[last]@.name);
        } else if str_cmp_spec(s[prev]@.name, s[last]@.name) == Ordering::Less {
            assert(b == last);
            lemma_str_cmp_antisym(s[last]@.name, s[last]@.name);
            assert forall|j: int| 0 <= j < last && nvm_qualifies(#[trigger] s[j]@) implies
                str_cmp_spec(s[j]@.name, s[last]@.name) == Ordering::Less by {
                lemma_str_cmp_antisym(s[prev]@.name, s[j]@.name);
                lemma_str_cmp_trans(s[j]@.name, s[prev]@.name, s[last]@.name);
            }
            assert forall|j: int| 0 <= j < s.len() && nvm_qualifies(#[trigger] s[j]@) implies
                str_cmp_spec(s[last]@.name, s[j]@.name) != Ordering::Less by {
                if j < last {
                    lemma_str_cmp_antisym(s[j]@.name, s[last]@.name);
                }
            }
        } else {
            assert(b == prev);
            lemma_str_cmp_antisym(s[prev]@.name, s[last]@.name);
        }
    }
}

/// Picks the version-manager entry to use.
pub fn select_nvm_entry(entries: &Vec<NodeNvmEntry>) -> (r: Option<usize>)
    ensures
        match r {
            Some(i) => i < entries@.len() && best_nvm_index(entries@) == i,
            None => best_nvm_index(entries@) < 0,
        },
{
    let n = entries.len();
    let mut best: Option<usize> = None;
    let mut i: usize = 0;
    proof {
        assert(entries@.take(0) =~= Seq::<NodeNvmEntry>::empty());
    }
    while i < n
        invariant
            i <= n,
            n == entries@.len(),
            match best {
                Some(b) => b < i && best_nvm_index(entries@.take(i as int)) == b,
                None => best_nvm_index(entries@.take(i as int)) < 0,
            },
        decreases n - i,
    {
        proof {
            assert(entries@.take(i as int + 1).drop_last() =~= entries@.take(i as int));
            assert(entries@.take(i as int + 1).last() == entries@[i as int]);
        }
        let e = &entries[i];
        if e.is_dir && e.has_node {
            match best {
                None => {
                    best = Some(i);
                },
                Some(b) => {
                    let c = str_compare(entries[b].name.as_str(), entries[i].name.as_str());
                    match c {
                        Ordering::Less => {
                            best = Some(i);
                        },
                        _ => {},
                    }
                },
            }
        }
        i += 1;
    }
    proof {
        assert(entries@.take(n as int) =~= entries@);
    }
    best
}

/// The views of a list of strings.
pub open spec fn string_views(s: Seq<String>) -> Seq<Seq<char>> {
    s.map_values(|p: String| p@)
}

/// Appending a string and then taking views is taking views and appending
/// the string's view.
pub proof fn lemma_string_views_push(s: Seq<String>, x: String)
    ensures
        string_views(s.push(x)) =~= string_views(s).push(x@),
{
    assert(string_views(s.push(x)).len() == s.push(x).len());
    assert(string_views(s).len() == s.len());
    assert forall|m: int| 0 <= m < s.len() + 1 implies string_views(s.push(x))[m] == string_views(
        s,
    ).push(x@)[m] by {
        assert(string_views(s.push(x))[m] == s.push(x)[m]@);
        if m < s.len() {
            assert(s.push(x)[m] == s[m]);
            assert(string_views(s)[m] == s[m]@);
        }
    }
}

/// The fixed system locations probed for the runtime, in order.
pub open spec fn node_common_paths_spec() -> Seq<Seq<char>> {
    seq!["/usr/bin/node"@, "/usr/local/bin/node"@, "/opt/homebrew/bin/node"@, "/bin/node"@]
}

/// The fixed system locations to probe for the runtime.
pub fn node_common_paths() -> (r: Vec<String>)
    ensures
        string_views(r@) == node_common_paths_spec(),
{
    let mut r: Vec<String> = Vec::new();
    r.push(String::from_str("/usr/bin/node"));
    r.push(String::from_str("/usr/local/bin/node"));
    r.push(String::from_str("/opt/homebrew/bin/node"));
    r.push(String::from_str("/bin/node"));
    proof {
        assert(string_views(r@) =~= node_common_paths_spec());
    }
    r
}

/// The first index of `s` that holds `true`, from index `i` on; `-1` when
/// none does.
pub open spec fn first_true_from(s: Seq<bool>, i: int) -> int
    decreases s.len() - i,
    when 0 <= i
{
    if i >= s.len() {
        -1
    } else if s[i] {
        i
    } else {
        first_true_from(s, i + 1)
    }
}

/// What the probes of the system tier reported.
pub struct NodeProbes {
    /// Standard output of `which node`, when it ran and exited
    /// successfully.
    pub which_stdout: Option<String>,
    /// Whether the path the `which` output names (trimmed) exists.
    pub which_exists: bool,
    /// For each entry of `node_common_paths`, in order, whether it exists.
    pub common_exists: Vec<bool>,
    /// The home directory, when one is known.
    pub home: Option<String>,
    /// The entries listed under the version manager's root.
    pub nvm_entries: Vec<NodeNvmEntry>,
}

/// True when the `which` probe produced a usable path.
pub open spec fn which_node_hit(p: NodeProbes) -> bool {
    match p.which_stdout {
        Some(s) => trim_spec(s@).len() > 0 && p.which_exists,
        None => false,
    }
}

/// Where the runtime would live inside one version directory of the
/// version manager.
pub open spec fn nvm_node_path(home: Seq<char>, name: Seq<char>) -> Seq<char> {
    home + "/.nvm/versions/node/"@ + name + "/bin/node"@
}

/// The system runtime the probes determine, with its source label: the
/// `which` result when usable, else the first existing common location,
/// else the best version-manager entry; nothing when all three miss.
pub open spec fn system_node_spec(p: NodeProbes) -> Option<(Seq<char>, Seq<char>)> {
    if which_node_hit(p) {
        match p.which_stdout {
            Some(s) => Some((trim_spec(s@), "system"@)),
            None => None,
        }
    } else if first_true_from(p.common_exists@, 0) >= 0 {
        Some((node_common_paths_spec()[first_true_from(p.common_exists@, 0)], "system"@))
    } else {
        match p.home {
            Some(h) => {
                let b = best_nvm_index(p.nvm_entries@);
                if b >= 0 {
                    Some(
                        (
                            nvm_node_path(h@, p.nvm_entries@[b]@.name),
                            "nvm ("@ + p.nvm_entries@[b]@.name + ")"@,
                        ),
                    )
                } else {
                    None
                }
            },
            None => None,
        }
    }
}

/// Finds a system runtime from the probe results, in the fixed order: the
/// `which` lookup first, then the common system locations, then the
/// version manager's entries (largest version-directory name first).
/// Returns the chosen path with its source label, or the not-found message.
pub fn find_system_node(probes: &NodeProbes) -> (r: Result<(String, String), String>)
    requires
        probes.common_exists@.len() == node_common_paths_spec().len(),
    ensures
        match r {
            Ok(pr) => system_node_spec(*probes) == Some((pr.0@, pr.1@)),
            Err(e) => system_node_spec(*probes) is None && e@
                == crate::messages::chinese_message_spec("No system Node.js installation found"@),
        },
{
    match &probes.which_stdout {
        Some(s) => {
            let t = strutil::trim_str(s.as_str());
            if t.unicode_len() > 0 && probes.which_exists {
                return Ok((t.to_owned(), String::from_str("system")));
            }
        },
        None => {},
    }
    let common = node_common_paths();
    let mut i: usize = 0;
    while i < 4
        invariant
            !which_node_hit(*probes),
            i <= 4,
            probes.common_exists@.len() == 4,
            common@.len() == 4,
            string_views(common@) == node_common_paths_spec(),
            first_true_from(probes.common_exists@, 0) == first_true_from(
                probes.common_exists@,
                i as int,
            ),
        decreases 4 - i,
    {
        if probes.common_exists[i] {
            assert(first_true_from(probes.common_exists@, i as int) == i);
            assert(string_views(common@)[i as int] == common@[i as int]@);
            return Ok((common[i].clone(), String::from_str("system")));
        }
        i += 1;
    }
    assert(first_true_from(probes.common_exists@, 4) == -1);
    match &probes.home {
        Some(h) => {
            match select_nvm_entry(&probes.nvm_entries) {
                Some(idx) => {
                    let name = probes.nvm_entries[idx].name.as_str();
                    let a = strutil::concat3(h.as_str(), "/.nvm/versions/node/", name);
                    let path = strutil::concat2(a.as_str(), "/bin/node");
                    let label = crate::scanner::nvm_source_label(name);
                    proof {
                        assert(path@ =~= nvm_node_path(
                            h@,
                            probes.nvm_entries@[idx as int]@.name,
                        ));
                    }
                    Ok((path, label))
                },
                None => Err(
                    crate::messages::get_chinese_error_message(
                        "No system Node.js installation found",
                    ),
                ),
            }
        },
        None => Err(
            crate::messages::get_chinese_error_message("No system Node.js installation found"),
        ),
    }
}

/// The version a runtime reports: its `--version` output trimmed, with a
/// leading `v` removed.
pub open spec fn strip_v_spec(t: Seq<char>) -> Seq<char> {
    if t.len() > 0 && t[0] == 'v' {
        t.drop_first()
    } else {
        t
    }
}

/// The version recorded for a probe of `<runtime> --version`: present
/// exactly when the invocation succeeded.
pub fn node_version_from_probe(success: bool, stdout: &str) -> (r: Option<String>)
    ensures
        match r {
            Some(v) => success && v@ == strip_v_spec(trim_spec(stdout@)),
            None => !success,
        },
{
    if success {
        let t = strutil::trim_str(stdout);
        let n = t.unicode_len();
        if n > 0 {
            let c = t.get_char(0);
            if c == 'v' {
                let rest = t.substring_char(1, n);
                proof {
                    assert(rest@ =~= t@.drop_first());
                }
                return Some(rest.to_owned());
            }
        }
        Some(t.to_owned())
    } else {
        None
    }
}

/// Builds the descriptor of a runtime installed by the download tier:
/// its source label is fixed to `downloaded` and it is marked bundled.
pub fn make_downloaded_node_runtime(
    path: String,
    version_success: bool,
    version_stdout: &str,
) -> (r: NodeRuntime)
    ensures
        r@.path == path@,
        r@.source == "downloaded"@,
        r@.is_bundled == true,
        match r@.version {
            Some(v) => version_success && v == strip_v_spec(trim_spec(version_stdout@)),
            None => !version_success,
        },
{
    let version = node_version_from_probe(version_success, version_stdout);
    NodeRuntime { path, version, source: String::from_str("downloaded"), is_bundled: true }
}

/// Builds the descriptor of a runtime found by the system tier.
pub fn make_system_node_runtime(
    path: String,
    source: String,
    version_success: bool,
    version_stdout: &str,
) -> (r: NodeRuntime)
    ensures
        r@.path == path@,
        r@.source == source@,
        r@.is_bundled == false,
        match r@.version {
            Some(v) => version_success && v == strip_v_spec(trim_spec(version_stdout@)),
            None => !version_success,
        },
{
    let version = node_version_from_probe(version_success, version_stdout);
    NodeRuntime { path, version, source, is_bundled: false }
}

/// Where the bundled runtime lives: `bundled_runtime/node` under the
/// application's data directory (`node.exe` on Windows).
pub fn bundled_node_path(app_data_dir: &str, windows: bool) -> (r: String)
    ensures
        r@ == app_data_dir@ + "/bundled_runtime/"@ + (if windows {
            "node.exe"@
        } else {
            "node"@
        }),
{
    if windows {
        strutil::concat3(app_data_dir, "/bundled_runtime/", "node.exe")
    } else {
        strutil::concat3(app_data_dir, "/bundled_runtime/", "node")
    }
}

/// Reports the bundled tier's outcome: a descriptor when the bundled
/// binary is present as a regular file, and the fixed not-found message
/// otherwise.  `version_stdout` holds the binary's `--version` output when
/// that probe ran and succeeded.
pub fn find_bundled_node(
    app_data_dir: &str,
    windows: bool,
    exists_is_file: bool,
    version_success: bool,
    version_stdout: &str,
) -> (r: Result<NodeRuntime, String>)
    ensures
        exists_is_file ==> (r matches Ok(rt) && rt@.path == app_data_dir@ + "/bundled_runtime/"@ + (
        if windows {
            "node.exe"@
        } else {
            "node"@
        }) && rt@.source == "bundled"@ && rt@.is_bundled == true && (match rt@.version {
            Some(v) => version_success && v == strip_v_spec(trim_spec(version_stdout@)),
            None => !version_success,
        })),
        !exists_is_file ==> (r matches Err(e) && e@ == "No bundled Node.js runtime found"@),
{
    if exists_is_file {
        let path = bundled_node_path(app_data_dir, windows);
        let version = node_version_from_probe(version_success, version_stdout);
        Ok(
            NodeRuntime {
                path,
                version,
                source: String::from_str("bundled"),
                is_bundled: true,
            },
        )
    } else {
        Err(String::from_str("No bundled Node.js runtime found"))
    }
}

/// The platforms a runtime download is pinned for.
#[derive(Clone, Copy, Debug, PartialEq, Eq, Structural)]
pub enum Platform {
    MacOs,
    Linux,
    Windows,
}

/// The processor architectures a runtime download is pinned for.
#[derive(Clone, Copy, Debug, PartialEq, Eq, Structural)]
pub enum Arch {
    X64,
    Arm64,
}

/// The download URL and binary name of the pinned runtime release
/// (v20.11.0) for a platform and architecture.  Windows on Arm has no
/// pinned artifact and is reported unsupported.
pub fn get_node_download_info(os: Platform, arch: Arch) -> (r: Result<(String, String), String>)
    ensures
        os == Platform::MacOs && arch == Arch::X64 ==> (r matches Ok(p) && p.0@
            == "https://nodejs.org/dist/v20.11.0/node-v20.11.0-darwin-x64.tar.xz"@ && p.1@
            == "node"@),
        os == Platform::MacOs && arch == Arch::Arm64 ==> (r matches Ok(p) && p.0@
            == "https://nodejs.org/dist/v20.11.0/node-v20.11.0-darwin-arm64.tar.xz"@ && p.1@
            == "node"@),
        os == Platform::Linux && arch == Arch::X64 ==> (r matches Ok(p) && p.0@
            == "https://nodejs.org/dist/v20.11.0/node-v20.11.0-linux-x64.tar.xz"@ && p.1@
            == "node"@),
        os == Platform::Linux && arch == Arch::Arm64 ==> (r matches Ok(p) && p.0@
            == "https://nodejs.org/dist/v20.11.0/node-v20.11.0-linux-arm64.tar.xz"@ && p.1@
            == "node"@),
        os == Platform::Windows && arch == Arch::X64 ==> (r matches Ok(p) && p.0@
            == "https://nodejs.org/dist/v20.11.0/node-v20.11.0-win-x64.zip"@ && p.1@
            == "node.exe"@),
        os == Platform::Windows && arch == Arch::Arm64 ==> (r matches Err(e) && e@
            == "Unsupported platform for Node.js download"@),
{
    match (os, arch) {
        (Platform::MacOs, Arch::X64) => Ok(
            (
                String::from_str("https://nodejs.org/dist/v20.11.0/node-v20.11.0-darwin-x64.tar.xz"),
                String::from_str("node"),
            ),
        ),
        (Platform::MacOs, Arch::Arm64) => Ok(
            (
                String::from_str(
                    "https://nodejs.org/dist/v20.11.0/node-v20.11.0-darwin-arm64.tar.xz",
                ),
                String::from_str("node"),
            ),
        ),
        (Platform::Linux, Arch::X64) => Ok(
            (
                String::from_str("https://nodejs.org/dist/v20.11.0/node-v20.11.0-linux-x64.tar.xz"),
                String::from_str("node"),
            ),
        ),
        (Platform::Linux, Arch::Arm64) => Ok(
            (
                String::from_str("https://nodejs.org/dist/v20.11.0/node-v20.11.0-linux-arm64.tar.xz"),
                String::from_str("node"),
            ),
        ),
        (Platform::Windows, Arch::X64) => Ok(
            (
                String::from_str("https://nodejs.org/dist/v20.11.0/node-v20.11.0-win-x64.zip"),
                String::from_str("node.exe"),
            ),
        ),
        (Platform::Windows, Arch::Arm64) => Err(
            String::from_str("Unsupported platform for Node.js download"),
        ),
    }
}

} // verus!
