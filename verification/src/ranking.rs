//! Ranking of discovered installations: the pairwise preference order, the
//! selection of the single best candidate, and the fully sorted listing.

use vstd::prelude::*;
use core::cmp::Ordering;
use crate::candidates::{
    ToolInstallation,
    CandidateModel,
    InstallationType,
    spec_source_preference,
    source_preference,
};
use crate::version::{
    version_cmp,
    flip,
    lemma_version_cmp_antisymmetric,
    lemma_version_cmp_transitive,
    lemma_version_cmp_reflexive,
};

verus! {

/// One comparison stage followed by the next: the second stage decides
/// only what the first cannot part.
pub open spec fn ord_chain(first: Ordering, rest: Ordering) -> Ordering {
    if first == Ordering::Equal {
        rest
    } else {
        first
    }
}

/// The source-preference stage: the candidate whose source has the lower
/// rank in the fixed table outranks the other.
pub open spec fn preference_cmp(a: CandidateModel, b: CandidateModel) -> Ordering {
    let pa = spec_source_preference(a.source);
    let pb = spec_source_preference(b.source);
    if pa < pb {
        Ordering::Greater
    } else if pa > pb {
        Ordering::Less
    } else {
        Ordering::Equal
    }
}

/// Canonical comparison of two character sequences: the lexicographically
/// smaller one outranks the larger.
pub open spec fn least_cmp(x: Seq<char>, y: Seq<char>) -> Ordering {
    flip(crate::resolver::str_cmp_spec(x, y))
}

/// Canonical comparison of the version texts, smaller text first; reached
/// only between two candidates that both carry versions, or neither.
pub open spec fn version_text_cmp(a: CandidateModel, b: CandidateModel) -> Ordering {
    match (a.version, b.version) {
        (Some(x), Some(y)) => least_cmp(x, y),
        (Some(x), None) => Ordering::Greater,
        (None, Some(y)) => Ordering::Less,
        (None, None) => Ordering::Equal,
    }
}

/// A fixed rank over installation kinds, the last canonical stage.
pub open spec fn kind_rank(t: InstallationType) -> int {
    match t {
        InstallationType::System => 0,
        InstallationType::Custom => 1,
        InstallationType::Bundled => 2,
    }
}

/// Comparison of installation kinds by their fixed rank.
pub open spec fn kind_cmp(a: CandidateModel, b: CandidateModel) -> Ordering {
    if kind_rank(a.installation_type) < kind_rank(b.installation_type) {
        Ordering::Greater
    } else if kind_rank(a.installation_type) > kind_rank(b.installation_type) {
        Ordering::Less
    } else {
        Ordering::Equal
    }
}

/// The tie-break among candidates the main rules cannot part: the
/// source-preference table first (lower rank wins), then a canonical key —
/// least path, least source label, least version text, then the kind — so
/// that two observably different candidates never tie, and the outcome
/// never depends on where in the list a candidate stood.
pub open spec fn tie_cmp(a: CandidateModel, b: CandidateModel) -> Ordering {
    ord_chain(
        preference_cmp(a, b),
        ord_chain(
            least_cmp(a.path, b.path),
            ord_chain(
                least_cmp(a.source, b.source),
                ord_chain(version_text_cmp(a, b), kind_cmp(a, b)),
            ),
        ),
    )
}

/// Among two versionless candidates, a resolved filesystem path outranks
/// the bare command name, which depends on a mutable search path.
pub open spec fn bare_name_cmp(a: CandidateModel, b: CandidateModel) -> Ordering {
    if a.path == "acli"@ && b.path != "acli"@ {
        Ordering::Less
    } else if a.path != "acli"@ && b.path == "acli"@ {
        Ordering::Greater
    } else {
        Ordering::Equal
    }
}

/// The pairwise order used when a single best installation is chosen, in
/// stages: a candidate with a version beats one without; two versions
/// compare numerically; among two versionless candidates a resolved path
/// beats the bare command name; remaining ties go to the more preferred
/// source, and residual full ties resolve by the canonical key of
/// `tie_cmp`.
pub open spec fn select_cmp(a: CandidateModel, b: CandidateModel) -> Ordering {
    match (a.version, b.version) {
        (Some(v1), Some(v2)) => ord_chain(version_cmp(v1, v2), tie_cmp(a, b)),
        (Some(v1), None) => Ordering::Greater,
        (None, Some(v2)) => Ordering::Less,
        (None, None) => ord_chain(bare_name_cmp(a, b), tie_cmp(a, b)),
    }
}

fn kind_rank_exec(t: InstallationType) -> (r: u8)
    ensures
        r as int == kind_rank(t),
{
    match t {
        InstallationType::System => 0,
        InstallationType::Custom => 1,
        InstallationType::Bundled => 2,
    }
}

fn tie_order(a: &ToolInstallation, b: &ToolInstallation) -> (r: Ordering)
    ensures
        r == tie_cmp(a@, b@),
{
    let pa = source_preference(a);
    let pb = source_preference(b);
    if pa < pb {
        return Ordering::Greater;
    }
    if pa > pb {
        return Ordering::Less;
    }
    match crate::resolver::str_compare(a.path.as_str(), b.path.as_str()) {
        Ordering::Less => {
            return Ordering::Greater;
        },
        Ordering::Greater => {
            return Ordering::Less;
        },
        Ordering::Equal => {},
    }
    match crate::resolver::str_compare(a.source.as_str(), b.source.as_str()) {
        Ordering::Less => {
            return Ordering::Greater;
        },
        Ordering::Greater => {
            return Ordering::Less;
        },
        Ordering::Equal => {},
    }
    match (&a.version, &b.version) {
        (Some(x), Some(y)) => {
            match crate::resolver::str_compare(x.as_str(), y.as_str()) {
                Ordering::Less => {
                    return Ordering::Greater;
                },
                Ordering::Greater => {
                    return Ordering::Less;
                },
                Ordering::Equal => {},
            }
        },
        (Some(_), None) => {
            return Ordering::Greater;
        },
        (None, Some(_)) => {
            return Ordering::Less;
        },
        (None, None) => {},
    }
    let ka = kind_rank_exec(a.installation_type);
    let kb = kind_rank_exec(b.installation_type);
    if ka < kb {
        Ordering::Greater
    } else if ka > kb {
        Ordering::Less
    } else {
        Ordering::Equal
    }
}

/// Compares two installations in the order used for selection.
pub fn candidate_order(a: &ToolInstallation, b: &ToolInstallation) -> (r: Ordering)
    ensures
        r == select_cmp(a@, b@),
{
    match (&a.version, &b.version) {
        (Some(v1), Some(v2)) => {
            let c = crate::version::compare_versions(v1.as_str(), v2.as_str());
            match c {
                Ordering::Equal => tie_order(a, b),
                _ => c,
            }
        },
        (Some(_), None) => Ordering::Greater,
        (None, Some(_)) => Ordering::Less,
        (None, None) => {
            let a_bare = crate::strutil::str_eq(a.path.as_str(), "acli");
            let b_bare = crate::strutil::str_eq(b.path.as_str(), "acli");
            if a_bare && !b_bare {
                Ordering::Less
            } else if !a_bare && b_bare {
                Ordering::Greater
            } else {
                tie_order(a, b)
            }
        },
    }
}

proof fn lemma_chain_trans_laws(
    s_ab: Ordering,
    s_bc: Ordering,
    s_ac: Ordering,
    r_ab: Ordering,
    r_bc: Ordering,
    r_ac: Ordering,
)
    requires
        s_ab != Ordering::Greater && s_bc != Ordering::Greater ==> s_ac != Ordering::Greater,
        s_ab != Ordering::Greater && s_bc != Ordering::Greater && (s_ab == Ordering::Less || s_bc
            == Ordering::Less) ==> s_ac == Ordering::Less,
        s_ab == Ordering::Equal && s_bc == Ordering::Equal ==> s_ac == Ordering::Equal,
        r_ab != Ordering::Greater && r_bc != Ordering::Greater ==> r_ac != Ordering::Greater,
        r_ab != Ordering::Greater && r_bc != Ordering::Greater && (r_ab == Ordering::Less || r_bc
            == Ordering::Less) ==> r_ac == Ordering::Less,
        r_ab == Ordering::Equal && r_bc == Ordering::Equal ==> r_ac == Ordering::Equal,
    ensures
        ord_chain(s_ab, r_ab) != Ordering::Greater && ord_chain(s_bc, r_bc) != Ordering::Greater
            ==> ord_chain(s_ac, r_ac) != Ordering::Greater,
        ord_chain(s_ab, r_ab) != Ordering::Greater && ord_chain(s_bc, r_bc) != Ordering::Greater
            && (ord_chain(s_ab, r_ab) == Ordering::Less || ord_chain(s_bc, r_bc)
            == Ordering::Less) ==> ord_chain(s_ac, r_ac) == Ordering::Less,
        ord_chain(s_ab, r_ab) == Ordering::Equal && ord_chain(s_bc, r_bc) == Ordering::Equal
            ==> ord_chain(s_ac, r_ac) == Ordering::Equal,
{
}

proof fn lemma_least_cmp_laws(x: Seq<char>, y: Seq<char>, z: Seq<char>)
    ensures
        least_cmp(y, x) == flip(least_cmp(x, y)),
        least_cmp(x, y) != Ordering::Greater && least_cmp(y, z) != Ordering::Greater ==> least_cmp(
            x,
            z,
        ) != Ordering::Greater,
        least_cmp(x, y) != Ordering::Greater && least_cmp(y, z) != Ordering::Greater && (least_cmp(
            x,
            y,
        ) == Ordering::Less || least_cmp(y, z) == Ordering::Less) ==> least_cmp(x, z)
            == Ordering::Less,
        least_cmp(x, y) == Ordering::Equal && least_cmp(y, z) == Ordering::Equal ==> least_cmp(
            x,
            z,
        ) == Ordering::Equal,
        least_cmp(x, y) == Ordering::Equal ==> x == y,
{
    crate::resolver::lemma_str_cmp_antisym(x, y);
    crate::resolver::lemma_str_cmp_antisym(y, z);
    crate::resolver::lemma_str_cmp_antisym(x, z);
    if crate::resolver::str_cmp_spec(z, y) != Ordering::Greater && crate::resolver::str_cmp_spec(
        y,
        x,
    ) != Ordering::Greater {
        crate::resolver::lemma_str_cmp_trans(z, y, x);
    }
    if crate::resolver::str_cmp_spec(x, y) == Ordering::Equal {
        crate::resolver::lemma_str_cmp_equal(x, y);
    }
    if crate::resolver::str_cmp_spec(y, z) == Ordering::Equal {
        crate::resolver::lemma_str_cmp_equal(y, z);
    }
}

proof fn lemma_version_text_laws(a: CandidateModel, b: CandidateModel, c: CandidateModel)
    ensures
        version_text_cmp(b, a) == flip(version_text_cmp(a, b)),
        version_text_cmp(a, b) != Ordering::Greater && version_text_cmp(b, c) != Ordering::Greater
            ==> version_text_cmp(a, c) != Ordering::Greater,
        version_text_cmp(a, b) != Ordering::Greater && version_text_cmp(b, c) != Ordering::Greater
            && (version_text_cmp(a, b) == Ordering::Less || version_text_cmp(b, c)
            == Ordering::Less) ==> version_text_cmp(a, c) == Ordering::Less,
        version_text_cmp(a, b) == Ordering::Equal && version_text_cmp(b, c) == Ordering::Equal
            ==> version_text_cmp(a, c) == Ordering::Equal,
{
    match (a.version, b.version, c.version) {
        (Some(x), Some(y), Some(z)) => {
            lemma_least_cmp_laws(x, y, z);
        },
        (Some(x), Some(y), None) => {
            lemma_least_cmp_laws(x, y, y);
        },
        (None, Some(y), Some(z)) => {
            lemma_least_cmp_laws(y, y, z);
        },
        _ => {},
    }
}

proof fn lemma_tie_cmp_laws(a: CandidateModel, b: CandidateModel, c: CandidateModel)
    ensures
        tie_cmp(b, a) == flip(tie_cmp(a, b)),
        tie_cmp(a, b) != Ordering::Greater && tie_cmp(b, c) != Ordering::Greater ==> tie_cmp(
            a,
            c,
        ) != Ordering::Greater,
        tie_cmp(a, b) != Ordering::Greater && tie_cmp(b, c) != Ordering::Greater && (tie_cmp(a, b)
            == Ordering::Less || tie_cmp(b, c) == Ordering::Less) ==> tie_cmp(a, c)
            == Ordering::Less,
        tie_cmp(a, b) == Ordering::Equal && tie_cmp(b, c) == Ordering::Equal ==> tie_cmp(a, c)
            == Ordering::Equal,
{
    lemma_least_cmp_laws(a.path, b.path, c.path);
    lemma_least_cmp_laws(a.source, b.source, c.source);
    lemma_version_text_laws(a, b, c);
    lemma_version_text_laws(b, a, a);
    let c1_ab = ord_chain(version_text_cmp(a, b), kind_cmp(a, b));
    let c1_bc = ord_chain(version_text_cmp(b, c), kind_cmp(b, c));
    let c1_ac = ord_chain(version_text_cmp(a, c), kind_cmp(a, c));
    lemma_chain_trans_laws(
        version_text_cmp(a, b),
        version_text_cmp(b, c),
        version_text_cmp(a, c),
        kind_cmp(a, b),
        kind_cmp(b, c),
        kind_cmp(a, c),
    );
    let c2_ab = ord_chain(least_cmp(a.source, b.source), c1_ab);
    let c2_bc = ord_chain(least_cmp(b.source, c.source), c1_bc);
    let c2_ac = ord_chain(least_cmp(a.source, c.source), c1_ac);
    lemma_chain_trans_laws(
        least_cmp(a.source, b.source),
        least_cmp(b.source, c.source),
        least_cmp(a.source, c.source),
        c1_ab,
        c1_bc,
        c1_ac,
    );
    let c3_ab = ord_chain(least_cmp(a.path, b.path), c2_ab);
    let c3_bc = ord_chain(least_cmp(b.path, c.path), c2_bc);
    let c3_ac = ord_chain(least_cmp(a.path, c.path), c2_ac);
    lemma_chain_trans_laws(
        least_cmp(a.path, b.path),
        least_cmp(b.path, c.path),
        least_cmp(a.path, c.path),
        c2_ab,
        c2_bc,
        c2_ac,
    );
    lemma_chain_trans_laws(
        preference_cmp(a, b),
        preference_cmp(b, c),
        preference_cmp(a, c),
        c3_ab,
        c3_bc,
        c3_ac,
    );
}

/// Comparing in the other direction gives the opposite answer.
pub proof fn lemma_select_cmp_antisymmetric(a: CandidateModel, b: CandidateModel)
    ensures
        select_cmp(b, a) == flip(select_cmp(a, b)),
{
    lemma_tie_cmp_laws(a, b, b);
    match (a.version, b.version) {
        (Some(v1), Some(v2)) => lemma_version_cmp_antisymmetric(v1, v2),
        _ => {},
    }
}

/// The selection order is transitive.
pub proof fn lemma_select_cmp_transitive(a: CandidateModel, b: CandidateModel, c: CandidateModel)
    requires
        select_cmp(a, b) != Ordering::Greater,
        select_cmp(b, c) != Ordering::Greater,
    ensures
        select_cmp(a, c) != Ordering::Greater,
{
    lemma_tie_cmp_laws(a, b, c);
    match (a.version, b.version, c.version) {
        (Some(v1), Some(v2), Some(v3)) => {
            lemma_version_cmp_transitive(v1, v2, v3);
            lemma_chain_trans_laws(
                version_cmp(v1, v2),
                version_cmp(v2, v3),
                version_cmp(v1, v3),
                tie_cmp(a, b),
                tie_cmp(b, c),
                tie_cmp(a, c),
            );
        },
        (None, None, None) => {
            lemma_chain_trans_laws(
                bare_name_cmp(a, b),
                bare_name_cmp(b, c),
                bare_name_cmp(a, c),
                tie_cmp(a, b),
                tie_cmp(b, c),
                tie_cmp(a, c),
            );
        },
        _ => {},
    }
}

/// Candidates the selection order cannot part are observably the same:
/// same path, version, source and kind.
pub proof fn lemma_select_cmp_equal_is_same(a: CandidateModel, b: CandidateModel)
    requires
        select_cmp(a, b) == Ordering::Equal,
    ensures
        a == b,
{
    lemma_least_cmp_laws(a.path, b.path, b.path);
    lemma_least_cmp_laws(a.source, b.source, b.source);
    match (a.version, b.version) {
        (Some(x), Some(y)) => {
            lemma_least_cmp_laws(x, y, y);
        },
        _ => {},
    }
}

/// A candidate that reports any version at all outranks every candidate
/// without one, whatever either one's source label is.
pub proof fn lemma_versioned_beats_versionless(a: CandidateModel, b: CandidateModel)
    requires
        a.version is Some,
        b.version is None,
    ensures
        select_cmp(a, b) == Ordering::Greater,
{
}

/// Among two versionless candidates, the one whose path is not the bare
/// command name outranks the one that is.
pub proof fn lemma_resolved_path_beats_bare_name(a: CandidateModel, b: CandidateModel)
    requires
        a.version is None,
        b.version is None,
        a.path != "acli"@,
        b.path == "acli"@,
    ensures
        select_cmp(a, b) == Ordering::Greater,
{
}

/// Among two versionless candidates that the bare-name rule cannot part,
/// the one from the more preferred source (the lower rank in the fixed
/// table) outranks the other.
pub proof fn lemma_preferred_source_breaks_ties(a: CandidateModel, b: CandidateModel)
    requires
        a.version is None,
        b.version is None,
        (a.path == "acli"@) == (b.path == "acli"@),
        spec_source_preference(a.source) < spec_source_preference(b.source),
    ensures
        select_cmp(a, b) == Ordering::Greater,
{
}

/// Among two candidates with numerically equal versions, the one from the
/// more preferred source outranks the other.
pub proof fn lemma_preferred_source_breaks_version_ties(a: CandidateModel, b: CandidateModel)
    requires
        a.version matches Some(v1) && b.version matches Some(v2) && version_cmp(v1, v2)
            == Ordering::Equal,
        spec_source_preference(a.source) < spec_source_preference(b.source),
    ensures
        select_cmp(a, b) == Ordering::Greater,
{
}

/// The element selection keeps while folding over a candidate list from the
/// left: the running best is replaced whenever it does not strictly beat the
/// next candidate.  Candidates the order cannot part are observably the
/// same, so the selected result does not depend on the input order.
pub open spec fn select_spec(s: Seq<ToolInstallation>) -> Option<ToolInstallation>
    decreases s.len(),
{
    if s.len() == 0 {
        None
    } else if s.len() == 1 {
        Some(s[0])
    } else {
        match select_spec(s.drop_last()) {
            Some(prev) => {
                if select_cmp(prev@, s.last()@) == Ordering::Greater {
                    Some(prev)
                } else {
                    Some(s.last())
                }
            },
            None => Some(s.last()),
        }
    }
}

/// Selects the best installation: the candidates are folded from the front,
/// keeping the running best unless the next candidate ties or beats it.
/// Returns `None` exactly when the list is empty.
pub fn select_best_installation(installations: Vec<ToolInstallation>) -> (r: Option<
    ToolInstallation,
>)
    ensures
        r == select_spec(installations@),
        r is Some <==> installations@.len() > 0,
{
    let n = installations.len();
    if n == 0 {
        return None;
    }
    let mut best: usize = 0;
    let mut i: usize = 1;
    proof {
        assert(installations@.take(1) =~= seq![installations@[0]]);
    }
    while i < n
        invariant
            1 <= i <= n,
            best < i,
            n == installations@.len(),
            select_spec(installations@.take(i as int)) == Some(installations@[best as int]),
        decreases n - i,
    {
        let c = candidate_order(&installations[best], &installations[i]);
        proof {
            assert(installations@.take(i as int + 1).drop_last() =~= installations@.take(i as int));
            assert(installations@.take(i as int + 1).last() == installations@[i as int]);
        }
        match c {
            Ordering::Greater => {},
            _ => {
                best = i;
            },
        }
        i += 1;
    }
    proof {
        assert(installations@.take(n as int) =~= installations@);
    }
    let mut v = installations;
    let r = v.remove(best);
    Some(r)
}

/// What selection returns is an element of the list, and no element of the
/// list strictly beats it.
pub proof fn lemma_select_spec_is_max(s: Seq<ToolInstallation>)
    requires
        s.len() > 0,
    ensures
        select_spec(s) is Some,
        exists|k: int| 0 <= k < s.len() && select_spec(s) == Some(s[k]),
        forall|i: int|
            0 <= i < s.len() ==> select_cmp(#[trigger] s[i]@, select_spec(s)->0@)
                != Ordering::Greater,
    decreases s.len(),
{
    if s.len() == 1 {
        assert(select_spec(s) == Some(s[0]));
        assert(forall|i: int|
            0 <= i < s.len() ==> select_cmp(#[trigger] s[i]@, select_spec(s)->0@)
                != Ordering::Greater) by {
            lemma_select_cmp_refl(s[0]@);
        }
    } else {
        let front = s.drop_last();
        lemma_select_spec_is_max(front);
        let prev = select_spec(front)->0;
        let last = s.last();
        assert(forall|i: int| 0 <= i < front.len() ==> front[i] == s[i]);
        let k0 = choose|k: int| 0 <= k < front.len() && select_spec(front) == Some(front[k]);
        if select_cmp(prev@, last@) == Ordering::Greater {
            assert(select_spec(s) == Some(prev));
            assert(select_spec(s) == Some(s[k0]));
            assert forall|i: int| 0 <= i < s.len() implies select_cmp(
                #[trigger] s[i]@,
                select_spec(s)->0@,
            ) != Ordering::Greater by {
                if i < front.len() {
                    assert(select_cmp(front[i]@, prev@) != Ordering::Greater);
                } else {
                    lemma_select_cmp_antisymmetric(prev@, last@);
                }
            }
        } else {
            assert(select_spec(s) == Some(last));
            assert(select_spec(s) == Some(s[s.len() - 1]));
            assert forall|i: int| 0 <= i < s.len() implies select_cmp(
                #[trigger] s[i]@,
                select_spec(s)->0@,
            ) != Ordering::Greater by {
                lemma_select_cmp_antisymmetric(prev@, last@);
                if i < front.len() {
                    assert(select_cmp(s[i]@, prev@) != Ordering::Greater);
                    lemma_select_cmp_transitive(s[i]@, prev@, last@);
                } else {
                    lemma_select_cmp_refl(last@);
                }
            }
        }
    }
}

proof fn lemma_select_cmp_refl(a: CandidateModel)
    ensures
        select_cmp(a, a) != Ordering::Greater,
{
    lemma_tie_cmp_laws(a, a, a);
    match a.version {
        Some(v) => lemma_version_cmp_reflexive(v),
        None => {},
    }
}

/// Permuting the candidate list never changes the selected result: the
/// selection order parts any two observably different candidates, so the
/// maximum is unique up to observational equality, whatever the order the
/// candidates were found in.
pub proof fn lemma_select_best_permutation_invariant(
    s1: Seq<ToolInstallation>,
    s2: Seq<ToolInstallation>,
)
    requires
        s1.to_multiset() == s2.to_multiset(),
    ensures
        select_spec(s1) is Some <==> select_spec(s2) is Some,
        select_spec(s1) is Some ==> select_spec(s1)->0@ == select_spec(s2)->0@,
{
    broadcast use vstd::seq_lib::group_to_multiset_ensures;

    assert(s1.len() == s2.len()) by {
        assert(s1.to_multiset().len() == s1.len());
        assert(s2.to_multiset().len() == s2.len());
    }
    if s1.len() > 0 {
        lemma_select_spec_is_max(s1);
        lemma_select_spec_is_max(s2);
        let b1 = select_spec(s1)->0;
        let b2 = select_spec(s2)->0;
        let k1 = choose|k: int| 0 <= k < s1.len() && select_spec(s1) == Some(s1[k]);
        let k2 = choose|k: int| 0 <= k < s2.len() && select_spec(s2) == Some(s2[k]);
        // each selected element also stands in the other list
        assert(s2.contains(b2)) by {
            assert(s2[k2] == b2);
        }
        assert(s1.contains(b2)) by {
            assert(s1.to_multiset().contains(b2));
        }
        let j2 = choose|j: int| 0 <= j < s1.len() && s1[j] == b2;
        assert(s1.contains(b1)) by {
            assert(s1[k1] == b1);
        }
        assert(s2.contains(b1)) by {
            assert(s2.to_multiset().contains(b1));
        }
        let j1 = choose|j: int| 0 <= j < s2.len() && s2[j] == b1;
        // each is therefore no better than the other, so they tie, and a
        // tie means they are observably the same
        assert(select_cmp(b1@, b2@) != Ordering::Greater) by {
            assert(select_cmp(s2[j1]@, select_spec(s2)->0@) != Ordering::Greater);
        }
        assert(select_cmp(b2@, b1@) != Ordering::Greater) by {
            assert(select_cmp(s1[j2]@, select_spec(s1)->0@) != Ordering::Greater);
        }
        lemma_select_cmp_antisymmetric(b1@, b2@);
        lemma_select_cmp_equal_is_same(b1@, b2@);
    }
}

/// The fixed order of the full listing: candidates with versions first,
/// higher versions first, source preference breaking ties; among versionless
/// candidates, source preference alone.
pub open spec fn listing_cmp(a: CandidateModel, b: CandidateModel) -> Ordering {
    match (a.version, b.version) {
        (Some(v1), Some(v2)) => {
            let c = version_cmp(v2, v1);
            if c == Ordering::Equal {
                u8_cmp(spec_source_preference(a.source), spec_source_preference(b.source))
            } else {
                c
            }
        },
        (Some(v1), None) => Ordering::Less,
        (None, Some(v2)) => Ordering::Greater,
        (None, None) => u8_cmp(
            spec_source_preference(a.source),
            spec_source_preference(b.source),
        ),
    }
}

/// Comparison of two preference ranks.
pub open spec fn u8_cmp(x: u8, y: u8) -> Ordering {
    if x < y {
        Ordering::Less
    } else if x > y {
        Ordering::Greater
    } else {
        Ordering::Equal
    }
}

/// Compares two installations in the order used for the full listing.
pub fn listing_order(a: &ToolInstallation, b: &ToolInstallation) -> (r: Ordering)
    ensures
        r == listing_cmp(a@, b@),
{
    match (&a.version, &b.version) {
        (Some(v1), Some(v2)) => {
            let c = crate::version::compare_versions(v2.as_str(), v1.as_str());
            match c {
                Ordering::Equal => preference_order(a, b),
                _ => c,
            }
        },
        (Some(_), None) => Ordering::Less,
        (None, Some(_)) => Ordering::Greater,
        (None, None) => preference_order(a, b),
    }
}

fn preference_order(a: &ToolInstallation, b: &ToolInstallation) -> (r: Ordering)
    ensures
        r == u8_cmp(spec_source_preference(a.source@), spec_source_preference(b.source@)),
{
    let pa = source_preference(a);
    let pb = source_preference(b);
    if pa < pb {
        Ordering::Less
    } else if pa > pb {
        Ordering::Greater
    } else {
        Ordering::Equal
    }
}

/// The listing order reversed gives the opposite answer.
pub proof fn lemma_listing_cmp_antisymmetric(a: CandidateModel, b: CandidateModel)
    ensures
        listing_cmp(b, a) == flip(listing_cmp(a, b)),
{
    match (a.version, b.version) {
        (Some(v1), Some(v2)) => lemma_version_cmp_antisymmetric(v2, v1),
        _ => {},
    }
}

/// The listing order is transitive.
pub proof fn lemma_listing_cmp_transitive(a: CandidateModel, b: CandidateModel, c: CandidateModel)
    requires
        listing_cmp(a, b) != Ordering::Greater,
        listing_cmp(b, c) != Ordering::Greater,
    ensures
        listing_cmp(a, c) != Ordering::Greater,
{
    match (a.version, b.version) {
        (Some(v1), Some(v2)) => {
            match c.version {
                Some(v3) => {
                    lemma_version_cmp_antisymmetric(v2, v1);
                    lemma_version_cmp_antisymmetric(v3, v2);
                    lemma_version_cmp_antisymmetric(v3, v1);
                    lemma_version_cmp_transitive(v3, v2, v1);
                },
                None => {},
            }
        },
        _ => {},
    }
}

/// Where an element lands when inserted into a listing: after every element
/// it does not strictly precede, before the first one it does.
pub open spec fn insert_sorted(x: ToolInstallation, s: Seq<ToolInstallation>) -> Seq<
    ToolInstallation,
>
    decreases s.len(),
{
    if s.len() == 0 {
        seq![x]
    } else if listing_cmp(x@, s[0]@) == Ordering::Less {
        seq![x] + s
    } else {
        seq![s[0]] + insert_sorted(x, s.drop_first())
    }
}

/// The stable sort of a candidate list under the listing order: elements are
/// inserted from the front, each placed after any element it ties with.
pub open spec fn listing_sort_spec(s: Seq<ToolInstallation>) -> Seq<ToolInstallation>
    decreases s.len(),
{
    if s.len() == 0 {
        s
    } else {
        insert_sorted(s.last(), listing_sort_spec(s.drop_last()))
    }
}

proof fn lemma_insert_sorted_at(x: ToolInstallation, s: Seq<ToolInstallation>, j: int)
    requires
        0 <= j <= s.len(),
        forall|m: int| 0 <= m < j ==> listing_cmp(x@, #[trigger] s[m]@) != Ordering::Less,
        j < s.len() ==> listing_cmp(x@, s[j]@) == Ordering::Less,
    ensures
        insert_sorted(x, s) == s.insert(j, x),
    decreases s.len(),
{
    if s.len() == 0 {
        assert(insert_sorted(x, s) =~= s.insert(0, x));
    } else if j == 0 {
        assert(insert_sorted(x, s) =~= s.insert(0, x));
    } else {
        assert(listing_cmp(x@, s[0]@) != Ordering::Less);
        assert(forall|m: int|
            0 <= m < j - 1 ==> #[trigger] s.drop_first()[m]@ == s[m + 1]@);
        lemma_insert_sorted_at(x, s.drop_first(), j - 1);
        assert(seq![s[0]] + s.drop_first().insert(j - 1, x) =~= s.insert(j, x));
    }
}

/// Sorts a candidate list by the listing order, stably: candidates that the
/// order cannot tell apart keep their original relative positions.
pub fn sort_by_listing_order(installations: Vec<ToolInstallation>) -> (r: Vec<
    ToolInstallation,
>)
    ensures
        r@ == listing_sort_spec(installations@),
{
    let total: usize = installations.len();
    let ghost orig = installations@;
    let mut src = installations;
    let mut out: Vec<ToolInstallation> = Vec::new();
    let mut taken: usize = 0;
    proof {
        assert(orig.skip(0) =~= orig);
        assert(orig.take(0) =~= Seq::<ToolInstallation>::empty());
    }
    while src.len() > 0
        invariant
            taken <= total,
            total == orig.len(),
            src@ == orig.skip(taken as int),
            out@ == listing_sort_spec(orig.take(taken as int)),
        decreases src@.len(),
    {
        let x = src.remove(0);
        proof {
            assert(orig.skip(taken as int)[0] == orig[taken as int]);
            assert(orig.skip(taken as int).remove(0) =~= orig.skip(taken as int + 1));
        }
        let mut j: usize = 0;
        while j < out.len() && listing_not_less(&x, &out[j])
            invariant
                j <= out@.len(),
                forall|m: int| 0 <= m < j ==> listing_cmp(x@, #[trigger] out@[m]@)
                    != Ordering::Less,
            decreases out@.len() - j,
        {
            j += 1;
        }
        proof {
            lemma_insert_sorted_at(x, out@, j as int);
            assert(orig.take(taken as int + 1).drop_last() =~= orig.take(taken as int));
            assert(orig.take(taken as int + 1).last() == orig[taken as int]);
        }
        out.insert(j, x);
        taken += 1;
    }
    proof {
        assert(orig.take(taken as int) =~= orig);
    }
    out
}

fn listing_not_less(a: &ToolInstallation, b: &ToolInstallation) -> (r: bool)
    ensures
        r == (listing_cmp(a@, b@) != Ordering::Less),
{
    match listing_order(a, b) {
        Ordering::Less => false,
        _ => true,
    }
}

/// `insert_sorted`, stated over models.
pub open spec fn insert_sorted_models(x: CandidateModel, s: Seq<CandidateModel>) -> Seq<
    CandidateModel,
>
    decreases s.len(),
{
    if s.len() == 0 {
        seq![x]
    } else if listing_cmp(x, s[0]) == Ordering::Less {
        seq![x] + s
    } else {
        seq![s[0]] + insert_sorted_models(x, s.drop_first())
    }
}

/// The listing sort, stated over models.
pub open spec fn listing_sort_models(s: Seq<CandidateModel>) -> Seq<CandidateModel>
    decreases s.len(),
{
    if s.len() == 0 {
        s
    } else {
        insert_sorted_models(s.last(), listing_sort_models(s.drop_last()))
    }
}

proof fn lemma_insert_models_commute(x: ToolInstallation, t: Seq<ToolInstallation>)
    ensures
        crate::scanner::models_of(insert_sorted(x, t)) == insert_sorted_models(
            x@,
            crate::scanner::models_of(t),
        ),
    decreases t.len(),
{
    let mt = crate::scanner::models_of(t);
    assert(mt.len() == t.len());
    if t.len() == 0 {
        assert(crate::scanner::models_of(seq![x]) =~= seq![x@]);
    } else {
        assert(mt[0] == t[0]@);
        if listing_cmp(x@, t[0]@) == Ordering::Less {
            assert(crate::scanner::models_of(seq![x] + t) =~= seq![x@] + mt);
        } else {
            lemma_insert_models_commute(x, t.drop_first());
            assert(crate::scanner::models_of(t.drop_first()) =~= mt.drop_first());
            assert(crate::scanner::models_of(seq![t[0]] + insert_sorted(x, t.drop_first()))
                =~= seq![mt[0]] + crate::scanner::models_of(insert_sorted(x, t.drop_first())));
        }
    }
}

proof fn lemma_sort_models_commute(s: Seq<ToolInstallation>)
    ensures
        crate::scanner::models_of(listing_sort_spec(s)) == listing_sort_models(
            crate::scanner::models_of(s),
        ),
    decreases s.len(),
{
    let ms = crate::scanner::models_of(s);
    assert(ms.len() == s.len());
    if s.len() > 0 {
        lemma_sort_models_commute(s.drop_last());
        assert(crate::scanner::models_of(s.drop_last()) =~= ms.drop_last());
        assert(ms.last() == s.last()@);
        lemma_insert_models_commute(s.last(), listing_sort_spec(s.drop_last()));
    }
}

/// Discovers the full list of installations for presentation: the raw probe
/// results are built into candidates, deduplicated by path (first seen
/// wins), and sorted: candidates with versions first, higher versions
/// first, the source-preference table breaking ties.
pub fn discover_tool_installations(raw: Vec<crate::scanner::RawCandidate>) -> (r: Vec<
    ToolInstallation,
>)
    ensures
        crate::scanner::models_of(r@) == listing_sort_models(
            crate::scanner::dedup_models(crate::scanner::built_models(raw@)),
        ),
{
    let found = crate::scanner::discover_system_installations(raw);
    proof {
        lemma_sort_models_commute(found@);
    }
    sort_by_listing_order(found)
}

/// A listing is sorted when no element strictly precedes an earlier one.
pub open spec fn sorted_by_listing(s: Seq<ToolInstallation>) -> bool {
    forall|i: int, j: int|
        0 <= i < j < s.len() ==> listing_cmp(#[trigger] s[i]@, #[trigger] s[j]@)
            != Ordering::Greater
}

proof fn lemma_insert_sorted_elems(x: ToolInstallation, s: Seq<ToolInstallation>)
    ensures
        insert_sorted(x, s).len() == s.len() + 1,
        forall|m: int|
            0 <= m < insert_sorted(x, s).len() ==> (#[trigger] insert_sorted(x, s)[m] == x
                || s.contains(insert_sorted(x, s)[m])),
    decreases s.len(),
{
    if s.len() == 0 {
    } else if listing_cmp(x@, s[0]@) == Ordering::Less {
    } else {
        lemma_insert_sorted_elems(x, s.drop_first());
        assert forall|m: int| 0 <= m < insert_sorted(x, s).len() implies (
        #[trigger] insert_sorted(x, s)[m] == x || s.contains(insert_sorted(x, s)[m])) by {
            if m == 0 {
                assert(s.contains(s[0]));
            } else {
                let t = insert_sorted(x, s.drop_first());
                assert(insert_sorted(x, s)[m] == t[m - 1]);
                if t[m - 1] != x {
                    let k = choose|k: int| 0 <= k < s.drop_first().len() && s.drop_first()[k]
                        == t[m - 1];
                    assert(s[k + 1] == t[m - 1]);
                }
            }
        }
    }
}

proof fn lemma_insert_sorted_keeps_sorted(x: ToolInstallation, s: Seq<ToolInstallation>)
    requires
        sorted_by_listing(s),
    ensures
        sorted_by_listing(insert_sorted(x, s)),
    decreases s.len(),
{
    if s.len() == 0 {
    } else if listing_cmp(x@, s[0]@) == Ordering::Less {
        let r = seq![x] + s;
        assert forall|i: int, j: int| 0 <= i < j < r.len() implies listing_cmp(
            r[i]@,
            r[j]@,
        ) != Ordering::Greater by {
            if i == 0 && j > 1 {
                lemma_listing_cmp_transitive(x@, s[0]@, s[j - 1]@);
            }
        }
    } else {
        lemma_insert_sorted_keeps_sorted(x, s.drop_first());
        lemma_insert_sorted_elems(x, s.drop_first());
        let t = insert_sorted(x, s.drop_first());
        let r = seq![s[0]] + t;
        assert(r =~= insert_sorted(x, s));
        assert forall|i: int, j: int| 0 <= i < j < r.len() implies listing_cmp(
            r[i]@,
            r[j]@,
        ) != Ordering::Greater by {
            if i == 0 {
                if t[j - 1] == x {
                    lemma_listing_cmp_antisymmetric(x@, s[0]@);
                } else {
                    let k = choose|k: int| 0 <= k < s.drop_first().len() && s.drop_first()[k]
                        == t[j - 1];
                    assert(s[k + 1] == t[j - 1]);
                    assert(listing_cmp(s[0]@, s[k + 1]@) != Ordering::Greater);
                }
            }
        }
    }
}

/// The listing sort really sorts.
pub proof fn lemma_listing_sort_sorted(s: Seq<ToolInstallation>)
    ensures
        sorted_by_listing(listing_sort_spec(s)),
    decreases s.len(),
{
    if s.len() > 0 {
        lemma_listing_sort_sorted(s.drop_last());
        lemma_insert_sorted_keeps_sorted(s.last(), listing_sort_spec(s.drop_last()));
    }
}

/// The listing sort keeps exactly the candidates it was given.
pub proof fn lemma_listing_sort_permutes(s: Seq<ToolInstallation>)
    ensures
        listing_sort_spec(s).to_multiset() == s.to_multiset(),
    decreases s.len(),
{
    broadcast use vstd::seq_lib::group_to_multiset_ensures;

    if s.len() > 0 {
        lemma_listing_sort_permutes(s.drop_last());
        lemma_insert_sorted_multiset(s.last(), listing_sort_spec(s.drop_last()));
        assert(s.drop_last().push(s.last()) =~= s);
        assert(s.drop_last().push(s.last()).to_multiset() == s.drop_last().to_multiset().insert(
            s.last(),
        ));
    }
}

proof fn lemma_insert_sorted_multiset(x: ToolInstallation, s: Seq<ToolInstallation>)
    ensures
        insert_sorted(x, s).to_multiset() == s.to_multiset().insert(x),
    decreases s.len(),
{
    broadcast use vstd::seq_lib::group_to_multiset_ensures;

    if s.len() == 0 {
        assert(seq![x] =~= Seq::<ToolInstallation>::empty().push(x));
        assert(Seq::<ToolInstallation>::empty().push(x).to_multiset()
            == Seq::<ToolInstallation>::empty().to_multiset().insert(x));
    } else if listing_cmp(x@, s[0]@) == Ordering::Less {
        assert(seq![x] + s =~= s.insert(0, x));
        vstd::seq_lib::to_multiset_insert(s, 0, x);
    } else {
        lemma_insert_sorted_multiset(x, s.drop_first());
        let t = insert_sorted(x, s.drop_first());
        assert(seq![s[0]] + t =~= t.insert(0, s[0]));
        vstd::seq_lib::to_multiset_insert(t, 0, s[0]);
        assert(s =~= s.drop_first().insert(0, s[0]));
        vstd::seq_lib::to_multiset_insert(s.drop_first(), 0, s[0]);
        assert(t.to_multiset().insert(s[0]) == s.drop_first().to_multiset().insert(x).insert(
            s[0],
        ));
        assert(s.drop_first().to_multiset().insert(x).insert(s[0])
            =~= s.drop_first().to_multiset().insert(s[0]).insert(x));
    }
}

} // verus!
