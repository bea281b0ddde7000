//! Verified building blocks for working with strings: substring search,
//! prefix/suffix tests, trimming, and replacement.  All contracts are stated
//! over the `Seq<char>` views of `&str` and `String`.

use vstd::prelude::*;
use vstd::string::StrSliceExecFns;
use vstd::string::StringExecFns;

verus! {

/// True when `p` occurs in `s` starting at index `i`.
pub open spec fn matches_at(s: Seq<char>, p: Seq<char>, i: int) -> bool {
    0 <= i && i + p.len() <= s.len() && s.subrange(i, i + p.len() as int) == p
}

/// True when `p` occurs somewhere in `s`.
pub open spec fn spec_contains(s: Seq<char>, p: Seq<char>) -> bool {
    exists|i: int| matches_at(s, p, i)
}

/// True when `s` begins with `p`.
pub open spec fn spec_starts_with(s: Seq<char>, p: Seq<char>) -> bool {
    p.len() <= s.len() && s.subrange(0, p.len() as int) == p
}

/// True when `s` ends with `p`.
pub open spec fn spec_ends_with(s: Seq<char>, p: Seq<char>) -> bool {
    p.len() <= s.len() && s.subrange(s.len() - p.len(), s.len() as int) == p
}

/// The index of the first occurrence of `p` in `s`, or `-1` when there is
/// none.
pub open spec fn find_sub_spec(s: Seq<char>, p: Seq<char>) -> int
    decreases s.len(),
{
    if s.len() < p.len() {
        -1
    } else if s.subrange(0, p.len() as int) == p {
        0
    } else if s.len() == p.len() {
        -1
    } else {
        let r = find_sub_spec(s.drop_first(), p);
        if r < 0 {
            -1
        } else {
            r + 1
        }
    }
}

/// `find_sub_spec` returns the first occurrence: any index with a match at
/// or before which no other match starts.
pub proof fn lemma_find_sub_spec_at(s: Seq<char>, p: Seq<char>, k: int)
    requires
        matches_at(s, p, k),
        forall|m: int| 0 <= m < k ==> !matches_at(s, p, m),
    ensures
        find_sub_spec(s, p) == k,
    decreases s.len(),
{
    assert(s.subrange(k, k + p.len() as int) == p);
    if k == 0 {
        assert(s.subrange(0, p.len() as int) == p);
    } else {
        assert(!matches_at(s, p, 0));
        assert(s.subrange(0, p.len() as int) != p);
        assert(s.len() > p.len());
        let t = s.drop_first();
        assert(t.subrange(k - 1, k - 1 + p.len() as int) =~= s.subrange(k, k + p.len() as int));
        assert(matches_at(t, p, k - 1));
        assert forall|m: int| 0 <= m < k - 1 implies !matches_at(t, p, m) by {
            if matches_at(t, p, m) {
                assert(t.subrange(m, m + p.len() as int) =~= s.subrange(
                    m + 1,
                    m + 1 + p.len() as int,
                ));
                assert(matches_at(s, p, m + 1));
            }
        }
        lemma_find_sub_spec_at(t, p, k - 1);
    }
}

/// When `p` occurs nowhere in `s`, `find_sub_spec` reports so.
pub proof fn lemma_find_sub_spec_none(s: Seq<char>, p: Seq<char>)
    requires
        forall|m: int| 0 <= m ==> !matches_at(s, p, m),
    ensures
        find_sub_spec(s, p) < 0,
    decreases s.len(),
{
    if s.len() >= p.len() {
        assert(!matches_at(s, p, 0));
        assert(s.subrange(0, p.len() as int) != p);
        if s.len() > p.len() {
            let t = s.drop_first();
            assert forall|m: int| 0 <= m implies !matches_at(t, p, m) by {
                if matches_at(t, p, m) {
                    assert(t.subrange(m, m + p.len() as int) =~= s.subrange(
                        m + 1,
                        m + 1 + p.len() as int,
                    ));
                    assert(matches_at(s, p, m + 1));
                }
            }
            lemma_find_sub_spec_none(t, p);
        }
    }
}

/// The characters this library treats as trimmable whitespace (the ASCII
/// whitespace characters, which cover every string the library handles).
pub open spec fn is_space(c: char) -> bool {
    c == ' ' || c == '\t' || c == '\n' || c == '\r'
}

/// `s` with leading whitespace removed.
pub open spec fn trim_front(s: Seq<char>) -> Seq<char>
    decreases s.len(),
{
    if s.len() > 0 && is_space(s[0]) {
        trim_front(s.drop_first())
    } else {
        s
    }
}

/// `s` with trailing whitespace removed.
pub open spec fn trim_back(s: Seq<char>) -> Seq<char>
    decreases s.len(),
{
    if s.len() > 0 && is_space(s[s.len() - 1]) {
        trim_back(s.drop_last())
    } else {
        s
    }
}

/// `s` with leading and trailing whitespace removed.
pub open spec fn trim_spec(s: Seq<char>) -> Seq<char> {
    trim_back(trim_front(s))
}

/// The result of replacing every occurrence of `p` in `s` with `r`,
/// scanning left to right over non-overlapping occurrences.
pub open spec fn replace_all_spec(s: Seq<char>, p: Seq<char>, r: Seq<char>) -> Seq<char>
    decreases s.len(),
    when p.len() > 0
{
    if s.len() < p.len() {
        s
    } else if s.subrange(0, p.len() as int) == p {
        r + replace_all_spec(s.skip(p.len() as int), p, r)
    } else {
        seq![s[0]] + replace_all_spec(s.drop_first(), p, r)
    }
}

/// Collects the characters of `s` into a vector.
pub fn chars_of(s: &str) -> (r: Vec<char>)
    ensures
        r@ == s@,
{
    let n: usize = s.unicode_len();
    let mut r: Vec<char> = Vec::new();
    let mut i: usize = 0;
    while i < n
        invariant
            i <= n,
            n == s@.len(),
            r@ == s@.take(i as int),
        decreases n - i,
    {
        let c = s.get_char(i);
        r.push(c);
        proof {
            assert(s@.take(i as int + 1) =~= s@.take(i as int).push(s@[i as int]));
        }
        i += 1;
    }
    proof {
        assert(s@.take(n as int) =~= s@);
    }
    r
}

/// Decides whether `p` occurs in `s` at index `i`.
pub fn match_at(s: &str, p: &str, i: usize) -> (r: bool)
    requires
        i + p@.len() <= s@.len(),
    ensures
        r == matches_at(s@, p@, i as int),
{
    let n: usize = s.unicode_len();
    let plen: usize = p.unicode_len();
    let mut k: usize = 0;
    while k < plen
        invariant
            k <= plen,
            n == s@.len(),
            plen == p@.len(),
            i + plen <= s@.len(),
            forall|m: int| 0 <= m < k ==> s@[i + m] == p@[m],
        decreases plen - k,
    {
        if s.get_char(i + k) != p.get_char(k) {
            assert(s@.subrange(i as int, i + plen) != p@) by {
                assert(s@.subrange(i as int, i + plen)[k as int] == s@[i + k]);
            }
            return false;
        }
        k += 1;
    }
    proof {
        assert(s@.subrange(i as int, i + plen) =~= p@);
    }
    true
}

/// Finds the first occurrence of `p` in `s` at or after index `from`.
pub fn find_sub_from(s: &str, p: &str, from: usize) -> (r: Option<usize>)
    requires
        from <= s@.len(),
    ensures
        match r {
            Some(j) => {
                &&& from <= j
                &&& matches_at(s@, p@, j as int)
                &&& forall|m: int| from <= m < j ==> !matches_at(s@, p@, m)
            },
            None => forall|m: int| from <= m ==> !matches_at(s@, p@, m),
        },
{
    let n: usize = s.unicode_len();
    let plen: usize = p.unicode_len();
    if plen > n {
        return None;
    }
    if plen == 0 {
        proof {
            assert(s@.subrange(from as int, from as int) =~= p@);
        }
        return Some(from);
    }
    let mut j: usize = from;
    while j <= n - plen
        invariant
            from <= j,
            n == s@.len(),
            plen == p@.len(),
            1 <= plen <= n,
            j <= n,
            forall|m: int| from <= m < j ==> !matches_at(s@, p@, m),
        decreases n - j,
    {
        if match_at(s, p, j) {
            return Some(j);
        }
        j += 1;
    }
    None
}

/// Decides whether `p` occurs anywhere in `s`.
pub fn contains_sub(s: &str, p: &str) -> (r: bool)
    ensures
        r == spec_contains(s@, p@),
{
    match find_sub_from(s, p, 0) {
        Some(j) => {
            assert(matches_at(s@, p@, j as int));
            true
        },
        None => {
            assert(forall|i: int| matches_at(s@, p@, i) ==> i >= 0);
            false
        },
    }
}

/// Decides whether `s` begins with `p`.
pub fn starts_with_str(s: &str, p: &str) -> (r: bool)
    ensures
        r == spec_starts_with(s@, p@),
{
    let n: usize = s.unicode_len();
    let plen: usize = p.unicode_len();
    if plen > n {
        return false;
    }
    match_at(s, p, 0)
}

/// Decides whether `s` ends with `p`.
pub fn ends_with_str(s: &str, p: &str) -> (r: bool)
    ensures
        r == spec_ends_with(s@, p@),
{
    let n: usize = s.unicode_len();
    let plen: usize = p.unicode_len();
    if plen > n {
        return false;
    }
    match_at(s, p, n - plen)
}

/// Decides whether two strings hold the same characters.
pub fn str_eq(a: &str, b: &str) -> (r: bool)
    ensures
        r == (a@ == b@),
{
    let na: usize = a.unicode_len();
    let nb: usize = b.unicode_len();
    if na != nb {
        return false;
    }
    if match_at(a, b, 0) {
        proof {
            assert(a@.subrange(0, nb as int) =~= a@);
        }
        true
    } else {
        proof {
            assert(a@.subrange(0, nb as int) =~= a@);
        }
        false
    }
}

/// Concatenates two strings.
pub fn concat2(a: &str, b: &str) -> (r: String)
    ensures
        r@ == a@ + b@,
{
    let mut r = a.to_owned();
    r.append(b);
    r
}

/// Concatenates three strings.
pub fn concat3(a: &str, b: &str, c: &str) -> (r: String)
    ensures
        r@ == a@ + b@ + c@,
{
    let mut r = a.to_owned();
    r.append(b);
    r.append(c);
    r
}

/// Removes leading and trailing whitespace.
pub fn trim_str<'a>(s: &'a str) -> (r: &'a str)
    ensures
        r@ == trim_spec(s@),
{
    let n: usize = s.unicode_len();
    let mut i: usize = 0;
    while i < n && is_space_exec(s.get_char(i))
        invariant
            i <= n,
            n == s@.len(),
            forall|m: int| 0 <= m < i ==> is_space(s@[m]),
        decreases n - i,
    {
        i += 1;
    }
    proof {
        lemma_trim_front_skip(s@, i as int);
    }
    let mut j: usize = n;
    while j > i && is_space_exec(s.get_char(j - 1))
        invariant
            i <= j <= n,
            n == s@.len(),
            forall|m: int| 0 <= m < i ==> is_space(s@[m]),
            forall|m: int| j <= m < n ==> is_space(s@[m]),
            i < n ==> !is_space(s@[i as int]),
            i == n ==> j == i,
        decreases j,
    {
        j -= 1;
    }
    let r = s.substring_char(i, j);
    proof {
        lemma_trim_back_take(s@.skip(i as int), j as int - i as int);
        assert(s@.skip(i as int).take(j as int - i as int) =~= s@.subrange(i as int, j as int));
        assert(forall|m: int| j - i <= m < s@.skip(i as int).len() ==> is_space(
            s@.skip(i as int)[m],
        ));
    }
    r
}

/// Executable form of `is_space`.
pub fn is_space_exec(c: char) -> (r: bool)
    ensures
        r == is_space(c),
{
    c == ' ' || c == '\t' || c == '\n' || c == '\r'
}

proof fn lemma_trim_front_skip(s: Seq<char>, i: int)
    requires
        0 <= i <= s.len(),
        forall|m: int| 0 <= m < i ==> is_space(s[m]),
        i < s.len() ==> !is_space(s[i]),
    ensures
        trim_front(s) == s.skip(i),
    decreases i,
{
    if i == 0 {
        assert(s.skip(0) =~= s);
    } else {
        assert(is_space(s[0]));
        lemma_trim_front_skip(s.drop_first(), i - 1);
        assert(s.drop_first().skip(i - 1) =~= s.skip(i));
    }
}

proof fn lemma_trim_back_take(s: Seq<char>, j: int)
    requires
        0 <= j <= s.len(),
        forall|m: int| j <= m < s.len() ==> is_space(s[m]),
        j > 0 ==> !is_space(s[j - 1]),
    ensures
        trim_back(s) == s.take(j),
    decreases s.len() - j,
{
    if j == s.len() {
        assert(s.take(j) =~= s);
        if s.len() > 0 && is_space(s[s.len() - 1]) {
            assert(j > 0 && is_space(s[j - 1]));
            assert(false);
        }
    } else {
        assert(is_space(s[s.len() - 1]));
        lemma_trim_back_take(s.drop_last(), j);
        assert(s.drop_last().take(j) =~= s.take(j));
    }
}

/// Replaces every occurrence of `p` in `s` with `rep`, scanning left to
/// right over non-overlapping occurrences.
pub fn replace_all(s: &str, p: &str, rep: &str) -> (r: String)
    requires
        p@.len() > 0,
    ensures
        r@ == replace_all_spec(s@, p@, rep@),
{
    let n: usize = s.unicode_len();
    let plen: usize = p.unicode_len();
    let mut out = String::new();
    proof {
        assert(s@.skip(0) =~= s@);
        assert(out@ + replace_all_spec(s@, p@, rep@) =~= replace_all_spec(s@, p@, rep@));
    }
    let mut i: usize = 0;
    while i < n
        invariant
            i <= n,
            n == s@.len(),
            plen == p@.len(),
            plen > 0,
            replace_all_spec(s@, p@, rep@) == out@ + replace_all_spec(s@.skip(i as int), p@, rep@),
        decreases n - i,
    {
        let matched = if plen <= n - i {
            match_at(s, p, i)
        } else {
            false
        };
        if matched {
            out.append(rep);
            proof {
                assert(s@.skip(i as int).len() >= plen);
                assert(s@.skip(i as int).subrange(0, plen as int) =~= s@.subrange(
                    i as int,
                    i as int + plen as int,
                ));
                assert(s@.skip(i as int).skip(plen as int) =~= s@.skip(i as int + plen as int));
            }
            i += plen;
        } else {
            let piece = s.substring_char(i, i + 1);
            out.append(piece);
            proof {
                if i as int + plen as int <= n {
                    assert(s@.skip(i as int).subrange(0, plen as int) =~= s@.subrange(
                        i as int,
                        i as int + plen as int,
                    ));
                    assert(s@.skip(i as int).subrange(0, plen as int) != p@);
                } else {
                    assert(s@.skip(i as int).len() < plen);
                }
                assert(s@.skip(i as int).drop_first() =~= s@.skip(i as int + 1));
                assert(seq![s@.skip(i as int)[0]] == s@.skip(i as int).subrange(0, 1));
            }
            i += 1;
        }
    }
    proof {
        assert(s@.skip(n as int) =~= Seq::<char>::empty());
        assert(replace_all_spec(Seq::<char>::empty(), p@, rep@) =~= Seq::<char>::empty());
        assert(out@ + Seq::<char>::empty() =~= out@);
    }
    out
}

} // verus!
