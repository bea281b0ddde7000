//! Construction of a subprocess launch environment: the allow-listed
//! subset of the parent environment, and a search path augmented with the
//! conventional runtime directories so that the launched tool finds its
//! runtime wherever it was installed.

use vstd::prelude::*;
use vstd::string::StrSliceExecFns;
use vstd::string::StringExecFns;
use crate::strutil::{self, spec_contains, spec_starts_with};
use crate::scanner::pair_views;
use crate::resolver::string_views;

verus! {

/// The environment variables a child process inherits: the search path,
/// home and user identity, shell and locale settings, runtime-manager and
/// package-manager prefixes, and proxy settings; nothing else leaks in.
pub open spec fn is_inherited_key_spec(k: Seq<char>) -> bool {
    ||| k == "PATH"@
    ||| k == "HOME"@
    ||| k == "USER"@
    ||| k == "SHELL"@
    ||| k == "LANG"@
    ||| k == "LC_ALL"@
    ||| spec_starts_with(k, "LC_"@)
    ||| k == "NODE_PATH"@
    ||| k == "NVM_DIR"@
    ||| k == "NVM_BIN"@
    ||| k == "HOMEBREW_PREFIX"@
    ||| k == "HOMEBREW_CELLAR"@
    ||| k == "HTTP_PROXY"@
    ||| k == "HTTPS_PROXY"@
    ||| k == "NO_PROXY"@
    ||| k == "ALL_PROXY"@
}

/// Decides whether a child process inherits the variable named `k`.
pub fn is_inherited_env_key(k: &str) -> (r: bool)
    ensures
        r == is_inherited_key_spec(k@),
{
    strutil::str_eq(k, "PATH") || strutil::str_eq(k, "HOME") || strutil::str_eq(k, "USER")
        || strutil::str_eq(k, "SHELL") || strutil::str_eq(k, "LANG") || strutil::str_eq(
        k,
        "LC_ALL",
    ) || strutil::starts_with_str(k, "LC_") || strutil::str_eq(k, "NODE_PATH")
        || strutil::str_eq(k, "NVM_DIR") || strutil::str_eq(k, "NVM_BIN") || strutil::str_eq(
        k,
        "HOMEBREW_PREFIX",
    ) || strutil::str_eq(k, "HOMEBREW_CELLAR") || strutil::str_eq(k, "HTTP_PROXY")
        || strutil::str_eq(k, "HTTPS_PROXY") || strutil::str_eq(k, "NO_PROXY")
        || strutil::str_eq(k, "ALL_PROXY")
}

/// The allow-listed subset of an environment, in the order given.
pub open spec fn inherited_pairs_spec(s: Seq<(Seq<char>, Seq<char>)>) -> Seq<
    (Seq<char>, Seq<char>),
>
    decreases s.len(),
{
    if s.len() == 0 {
        s
    } else {
        let front = inherited_pairs_spec(s.drop_last());
        if is_inherited_key_spec(s.last().0) {
            front.push(s.last())
        } else {
            front
        }
    }
}

/// Filters an environment down to the variables a child inherits.
pub fn filter_env_pairs(vars: Vec<(String, String)>) -> (r: Vec<(String, String)>)
    ensures
        pair_views(r@) == inherited_pairs_spec(pair_views(vars@)),
{
    let ghost all = pair_views(vars@);
    let n = vars.len();
    let mut out: Vec<(String, String)> = Vec::new();
    let mut src = vars;
    let mut taken: usize = 0;
    proof {
        assert(all.take(0) =~= Seq::<(Seq<char>, Seq<char>)>::empty());
        assert(pair_views(out@) =~= inherited_pairs_spec(all.take(0)));
        assert(pair_views(src@) =~= all);
    }
    while src.len() > 0
        invariant
            taken <= n,
            n == all.len(),
            pair_views(src@) == all.skip(taken as int),
            pair_views(out@) == inherited_pairs_spec(all.take(taken as int)),
        decreases src@.len(),
    {
        let ghost src0 = src@;
        let p = src.remove(0);
        proof {
            assert(pair_views(src0).len() == src0.len());
            assert(all.skip(taken as int).len() == all.len() - taken);
            assert(pair_views(src0)[0] == (p.0@, p.1@));
            assert(all.skip(taken as int)[0] == all[taken as int + 0]);
            assert(src@ =~= src0.drop_first());
            assert forall|m: int| 0 <= m < src@.len() implies pair_views(src@)[m] == all[taken as int
                + 1 + m] by {
                assert(pair_views(src@)[m] == (src@[m].0@, src@[m].1@));
                assert(src@[m] == src0[m + 1]);
                assert(pair_views(src0)[m + 1] == (src0[m + 1].0@, src0[m + 1].1@));
                assert(all.skip(taken as int)[m + 1] == all[taken as int + (m + 1)]);
            }
            assert(pair_views(src@) =~= all.skip(taken as int + 1));
            assert(all.take(taken as int + 1).drop_last() =~= all.take(taken as int));
            assert(all.take(taken as int + 1).last() == all[taken as int]);
        }
        if is_inherited_env_key(p.0.as_str()) {
            out.push(p);
            proof {
                assert(pair_views(out@) =~= inherited_pairs_spec(all.take(taken as int)).push(
                    all[taken as int],
                ));
            }
        }
        taken += 1;
    }
    proof {
        assert(pair_views(src@).len() == src@.len());
        assert(all.take(taken as int) =~= all);
    }
    out
}

/// The conventional runtime install directories considered for the child's
/// search path, in priority order; the package-manager-on-ARM location
/// comes first.  The home-relative entries are present only when a home
/// directory is known.
pub open spec fn potential_node_paths_spec(home: Option<Seq<char>>) -> Seq<Seq<char>> {
    let base = seq!["/opt/homebrew/bin"@, "/usr/local/bin"@, "/usr/bin"@, "/bin"@];
    match home {
        None => base,
        Some(h) => base + seq![
            h + "/.nvm/versions/node/v20.11.0/bin"@,
            h + "/.nvm/versions/node/v18.19.0/bin"@,
            h + "/.nvm/current/bin"@,
            h + "/.npm-global/bin"@,
            h + "/.yarn/bin"@,
            h + "/.bun/bin"@,
            h + "/.local/bin"@,
            h + "/bin"@,
        ],
    }
}

/// The conventional runtime install directories to check, in priority
/// order.
pub fn potential_node_paths(home: Option<&str>) -> (r: Vec<String>)
    ensures
        string_views(r@) == potential_node_paths_spec(
            match home {
                Some(h) => Some(h@),
                None => None,
            },
        ),
{
    let mut r: Vec<String> = Vec::new();
    r.push(String::from_str("/opt/homebrew/bin"));
    r.push(String::from_str("/usr/local/bin"));
    r.push(String::from_str("/usr/bin"));
    r.push(String::from_str("/bin"));
    match home {
        None => {
            proof {
                assert(string_views(r@) =~= potential_node_paths_spec(None));
            }
            r
        },
        Some(h) => {
            r.push(strutil::concat2(h, "/.nvm/versions/node/v20.11.0/bin"));
            r.push(strutil::concat2(h, "/.nvm/versions/node/v18.19.0/bin"));
            r.push(strutil::concat2(h, "/.nvm/current/bin"));
            r.push(strutil::concat2(h, "/.npm-global/bin"));
            r.push(strutil::concat2(h, "/.yarn/bin"));
            r.push(strutil::concat2(h, "/.bun/bin"));
            r.push(strutil::concat2(h, "/.local/bin"));
            r.push(strutil::concat2(h, "/bin"));
            proof {
                assert(string_views(r@) =~= potential_node_paths_spec(Some(h@)));
            }
            r
        },
    }
}

/// The conventional directories that are actually added: those that exist
/// on disk and do not already occur in the inherited search path (as a
/// substring, not as a path component).
pub open spec fn filtered_potential_spec(
    pot: Seq<Seq<char>>,
    exists_flags: Seq<bool>,
    path0: Seq<char>,
) -> Seq<Seq<char>>
    decreases pot.len(),
    when pot.len() == exists_flags.len()
{
    if pot.len() == 0 {
        pot
    } else {
        let front = filtered_potential_spec(pot.drop_last(), exists_flags.drop_last(), path0);
        if exists_flags.last() && !spec_contains(path0, pot.last()) {
            front.push(pot.last())
        } else {
            front
        }
    }
}

/// The directories prepended to the search path: the version manager's
/// per-version `bin` directories first, then the filtered conventional
/// directories.  Without a home directory nothing is prepended.
pub open spec fn added_paths_spec(
    home: Option<Seq<char>>,
    nvm_bins: Seq<Seq<char>>,
    exists_flags: Seq<bool>,
    path0: Seq<char>,
) -> Seq<Seq<char>> {
    match home {
        None => Seq::<Seq<char>>::empty(),
        Some(h) => nvm_bins + filtered_potential_spec(
            potential_node_paths_spec(Some(h)),
            exists_flags,
            path0,
        ),
    }
}

/// A list of directories joined with `:`.
pub open spec fn join_colon_spec(s: Seq<Seq<char>>) -> Seq<char>
    decreases s.len(),
{
    if s.len() == 0 {
        Seq::<char>::empty()
    } else if s.len() == 1 {
        s[0]
    } else {
        join_colon_spec(s.drop_last()) + ":"@ + s.last()
    }
}

/// The augmented search path: the added directories come first so that
/// bundled and managed runtimes take precedence; with nothing to add, the
/// package-manager-on-ARM location is still forced in unless the path
/// already holds it.
pub open spec fn enhanced_path_spec(
    path0: Seq<char>,
    home: Option<Seq<char>>,
    nvm_bins: Seq<Seq<char>>,
    exists_flags: Seq<bool>,
) -> Seq<char> {
    let add = added_paths_spec(home, nvm_bins, exists_flags, path0);
    if add.len() > 0 {
        join_colon_spec(add) + ":"@ + path0
    } else if !spec_contains(path0, "/opt/homebrew/bin"@) {
        "/opt/homebrew/bin:"@ + path0
    } else {
        path0
    }
}

/// Builds the augmented search path for a child process.  `path0` is the
/// inherited search path; `nvm_bins` are the version manager's per-version
/// `bin` directories found on disk, in listed order; `exists_flags` says,
/// for each entry of `potential_node_paths`, whether it exists on disk.
pub fn build_enhanced_path(
    path0: &str,
    home: Option<&str>,
    nvm_bins: &Vec<String>,
    exists_flags: &Vec<bool>,
) -> (r: String)
    requires
        (match home {
            Some(h) => exists_flags@.len() == potential_node_paths_spec(Some(h@)).len(),
            None => true,
        }),
    ensures
        r@ == enhanced_path_spec(
            path0@,
            match home {
                Some(h) => Some(h@),
                None => None,
            },
            string_views(nvm_bins@),
            exists_flags@,
        ),
{
    let mut add: Vec<String> = Vec::new();
    let ghost home_v: Option<Seq<char>> = match home {
        Some(h) => Some(h@),
        None => None,
    };
    match home {
        None => {
            proof {
                assert(added_paths_spec(home_v, string_views(nvm_bins@), exists_flags@, path0@)
                    =~= Seq::<Seq<char>>::empty());
            }
        },
        Some(h) => {
            let nb = nvm_bins.len();
            let mut i: usize = 0;
            while i < nb
                invariant
                    i <= nb,
                    nb == nvm_bins@.len(),
                    string_views(add@) == string_views(nvm_bins@).take(i as int),
                decreases nb - i,
            {
                let ghost a0 = add@;
                add.push(nvm_bins[i].clone());
                proof {
                    crate::resolver::lemma_string_views_push(a0, add@.last());
                    assert(string_views(nvm_bins@).len() == nvm_bins@.len());
                    assert(add@.last()@ == nvm_bins@[i as int]@);
                    assert(string_views(nvm_bins@)[i as int] == nvm_bins@[i as int]@);
                    assert(string_views(nvm_bins@).take(i as int + 1) =~= string_views(
                        nvm_bins@,
                    ).take(i as int).push(string_views(nvm_bins@)[i as int]));
                    assert(string_views(add@) =~= string_views(nvm_bins@).take(i as int + 1));
                }
                i += 1;
            }
            proof {
                assert(string_views(nvm_bins@).take(nb as int) =~= string_views(nvm_bins@));
            }
            let pot = potential_node_paths(Some(h));
            let ghost pot_v = potential_node_paths_spec(Some(h@));
            let np = pot.len();
            proof {
                assert(string_views(pot@).len() == pot@.len());
                assert(filtered_potential_spec(pot_v.take(0), exists_flags@.take(0), path0@)
                    =~= Seq::<Seq<char>>::empty());
                assert(pot_v.take(0) =~= Seq::<Seq<char>>::empty());
                assert(exists_flags@.take(0) =~= Seq::<bool>::empty());
            }
            let mut j: usize = 0;
            while j < np
                invariant
                    j <= np,
                    np == pot@.len(),
                    np == pot_v.len(),
                    np == exists_flags@.len(),
                    string_views(pot@) == pot_v,
                    string_views(add@) == string_views(nvm_bins@) + filtered_potential_spec(
                        pot_v.take(j as int),
                        exists_flags@.take(j as int),
                        path0@,
                    ),
                decreases np - j,
            {
                proof {
                    assert(pot_v.take(j as int + 1).drop_last() =~= pot_v.take(j as int));
                    assert(exists_flags@.take(j as int + 1).drop_last() =~= exists_flags@.take(
                        j as int,
                    ));
                    assert(pot_v.take(j as int + 1).last() == pot_v[j as int]);
                    assert(exists_flags@.take(j as int + 1).last() == exists_flags@[j as int]);
                    assert(string_views(pot@)[j as int] == pot@[j as int]@);
                }
                if exists_flags[j] && !strutil::contains_sub(path0, pot[j].as_str()) {
                    let ghost a0 = add@;
                    add.push(pot[j].clone());
                    proof {
                        crate::resolver::lemma_string_views_push(a0, add@.last());
                        assert(add@.last()@ == pot@[j as int]@);
                        assert(string_views(pot@)[j as int] == pot@[j as int]@);
                        assert(string_views(add@) =~= string_views(a0).push(pot_v[j as int]));
                        assert(string_views(a0).push(pot_v[j as int]) =~= string_views(nvm_bins@)
                            + filtered_potential_spec(
                            pot_v.take(j as int),
                            exists_flags@.take(j as int),
                            path0@,
                        ).push(pot_v[j as int]));
                    }
                }
                j += 1;
            }
            proof {
                assert(pot_v.take(np as int) =~= pot_v);
                assert(exists_flags@.take(np as int) =~= exists_flags@);
            }
        },
    }
    let na = add.len();
    if na > 0 {
        let mut joined: String = add[0].clone();
        let mut k: usize = 1;
        while k < na
            invariant
                1 <= k <= na,
                na == add@.len(),
                joined@ == join_colon_spec(string_views(add@).take(k as int)),
            decreases na - k,
        {
            proof {
                assert(string_views(add@).take(k as int + 1).drop_last() =~= string_views(
                    add@,
                ).take(k as int));
                assert(string_views(add@).take(k as int + 1).last() == add@[k as int]@);
                assert(string_views(add@).take(k as int + 1).len() == k + 1);
            }
            let withsep = strutil::concat2(joined.as_str(), ":");
            joined = strutil::concat2(withsep.as_str(), add[k].as_str());
            k += 1;
        }
        proof {
            assert(string_views(add@).take(na as int) =~= string_views(add@));
            assert(string_views(add@).take(1).len() == 1);
            assert(string_views(add@).take(1)[0] == add@[0]@);
        }
        let withsep = strutil::concat2(joined.as_str(), ":");
        strutil::concat2(withsep.as_str(), path0)
    } else if !strutil::contains_sub(path0, "/opt/homebrew/bin") {
        strutil::concat2("/opt/homebrew/bin:", path0)
    } else {
        String::from_str(path0)
    }
}

/// The index of the last `/` in `p`, or `-1` when there is none.
pub open spec fn last_slash(p: Seq<char>) -> int
    decreases p.len(),
{
    if p.len() == 0 {
        -1
    } else if p.last() == '/' {
        p.len() - 1
    } else {
        last_slash(p.drop_last())
    }
}

/// The directory a path lies in: the text before its last `/`, or nothing
/// for a path without one.
pub fn parent_dir(p: &str) -> (r: Option<String>)
    ensures
        match r {
            Some(d) => last_slash(p@) >= 0 && d@ == p@.take(last_slash(p@)),
            None => last_slash(p@) < 0,
        },
{
    let n = p.unicode_len();
    let mut j: usize = n;
    while j > 0
        invariant
            j <= n,
            n == p@.len(),
            forall|m: int| j <= m < n ==> p@[m] != '/',
        decreases j,
    {
        let c = p.get_char(j - 1);
        if c == '/' {
            proof {
                lemma_last_slash_at(p@, j as int - 1);
            }
            let d = p.substring_char(0, j - 1);
            return Some(d.to_owned());
        }
        j -= 1;
    }
    proof {
        lemma_last_slash_none(p@);
    }
    None
}

proof fn lemma_last_slash_at(p: Seq<char>, k: int)
    requires
        0 <= k < p.len(),
        p[k] == '/',
        forall|m: int| k < m < p.len() ==> p[m] != '/',
    ensures
        last_slash(p) == k,
    decreases p.len(),
{
    if k < p.len() - 1 {
        assert(p.last() != '/');
        assert(p.drop_last()[k] == p[k]);
        assert(forall|m: int| k < m < p.drop_last().len() ==> p.drop_last()[m] == p[m]);
        lemma_last_slash_at(p.drop_last(), k);
    }
}

proof fn lemma_last_slash_none(p: Seq<char>)
    requires
        forall|m: int| 0 <= m < p.len() ==> p[m] != '/',
    ensures
        last_slash(p) < 0,
    decreases p.len(),
{
    if p.len() > 0 {
        assert(forall|m: int| 0 <= m < p.drop_last().len() ==> p.drop_last()[m] == p[m]);
        lemma_last_slash_none(p.drop_last());
    }
}

/// The version-manager marker inside a program path that forces its own
/// `bin` directory onto the search path.
pub open spec fn nvm_override_spec(program: Seq<char>, path: Seq<char>) -> Option<Seq<char>> {
    if spec_contains(program, "/.nvm/versions/node/"@) && last_slash(program) >= 0 {
        let d = program.take(last_slash(program));
        if !spec_contains(path, d) {
            Some(d + ":"@ + path)
        } else {
            None
        }
    } else {
        None
    }
}

/// When the program being launched lives inside a version-manager
/// directory, its own `bin` directory is force-prepended to the search
/// path unless the path already holds it; the new path is returned, or
/// nothing when no change is needed.
pub fn nvm_bin_override(program: &str, current_path: &str) -> (r: Option<String>)
    ensures
        match r {
            Some(newp) => nvm_override_spec(program@, current_path@) == Some(newp@),
            None => nvm_override_spec(program@, current_path@) is None,
        },
{
    if strutil::contains_sub(program, "/.nvm/versions/node/") {
        match parent_dir(program) {
            Some(d) => {
                if !strutil::contains_sub(current_path, d.as_str()) {
                    let withsep = strutil::concat2(d.as_str(), ":");
                    Some(strutil::concat2(withsep.as_str(), current_path))
                } else {
                    None
                }
            },
            None => None,
        }
    } else {
        None
    }
}

/// Prepends a directory to a search path.
pub fn prepend_dir_to_path(dir: &str, path: &str) -> (r: String)
    ensures
        r@ == dir@ + ":"@ + path@,
{
    let withsep = strutil::concat2(dir, ":");
    strutil::concat2(withsep.as_str(), path)
}

} // verus!
