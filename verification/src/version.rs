//! Ordering of dotted numeric version strings.
//!
//! A version string is split on `.`; each segment contributes the value of its
//! longest leading run of decimal digits, read as a `u32`, with `0` standing in
//! for an empty run or a value too large for `u32`.  Two versions are compared
//! segment by segment, missing segments counting as `0`.  Anything after the
//! digits of a segment (pre-release or build suffixes) is ignored.

use vstd::prelude::*;
use vstd::string::StrSliceExecFns;
use core::cmp::Ordering;

verus! {

/// True for the decimal digit characters.
pub open spec fn is_digit(c: char) -> bool {
    '0' <= c && c <= '9'
}

/// The value of a decimal digit character.
pub open spec fn digit_val(c: char) -> int {
    c as int - '0' as int
}

/// The length of the longest run of digits at the front of `s`.
pub open spec fn digit_prefix_len(s: Seq<char>) -> int
    decreases s.len(),
{
    if s.len() > 0 && is_digit(s[0]) {
        1 + digit_prefix_len(s.drop_first())
    } else {
        0
    }
}

/// The value of an all-digit sequence read as a decimal number.
pub open spec fn decimal_value(d: Seq<char>) -> int
    decreases d.len(),
{
    if d.len() == 0 {
        0
    } else {
        decimal_value(d.drop_last()) * 10 + digit_val(d.last())
    }
}

/// The numeric value a segment contributes: its digit prefix as a `u32`,
/// or `0` when the prefix is empty or does not fit in a `u32`.
pub open spec fn segment_value(seg: Seq<char>) -> u32 {
    let p = seg.take(digit_prefix_len(seg));
    if p.len() == 0 || decimal_value(p) > u32::MAX {
        0
    } else {
        decimal_value(p) as u32
    }
}

/// The index of the first `.` in `s`, or `-1` when there is none.
pub open spec fn find_dot(s: Seq<char>) -> int
    decreases s.len(),
{
    if s.len() == 0 {
        -1
    } else if s[0] == '.' {
        0
    } else {
        let r = find_dot(s.drop_first());
        if r < 0 {
            -1
        } else {
            r + 1
        }
    }
}

/// The segments of `s` split on `.`.  An empty string yields one empty
/// segment, as `str::split` does.
pub open spec fn dot_segments(s: Seq<char>) -> Seq<Seq<char>>
    decreases s.len(),
    via dot_segments_decreases
{
    let d = find_dot(s);
    if d < 0 {
        seq![s]
    } else {
        seq![s.take(d)] + dot_segments(s.skip(d + 1))
    }
}

proof fn lemma_find_dot_range(s: Seq<char>)
    ensures
        find_dot(s) >= 0 ==> find_dot(s) < s.len(),
    decreases s.len(),
{
    if s.len() > 0 && s[0] != '.' {
        lemma_find_dot_range(s.drop_first());
    }
}

#[via_fn]
proof fn dot_segments_decreases(s: Seq<char>) {
    lemma_find_dot_range(s);
}

/// The numeric fields of a version string.
pub open spec fn version_parts(s: Seq<char>) -> Seq<u32> {
    dot_segments(s).map_values(|seg: Seq<char>| segment_value(seg))
}

/// The `i`th field of `x`, with missing fields read as `0`.
pub open spec fn part_at(x: Seq<u32>, i: int) -> u32 {
    if 0 <= i < x.len() {
        x[i]
    } else {
        0
    }
}

/// Field-by-field comparison of two field sequences, starting at field `i`.
pub open spec fn cmp_parts_from(x: Seq<u32>, y: Seq<u32>, i: int) -> Ordering
    decreases vstd::math::max(x.len() as int, y.len() as int) - i,
    when i >= 0
{
    if i >= x.len() && i >= y.len() {
        Ordering::Equal
    } else if part_at(x, i) < part_at(y, i) {
        Ordering::Less
    } else if part_at(x, i) > part_at(y, i) {
        Ordering::Greater
    } else {
        cmp_parts_from(x, y, i + 1)
    }
}

/// The ordering of two version strings.
pub open spec fn version_cmp(a: Seq<char>, b: Seq<char>) -> Ordering {
    cmp_parts_from(version_parts(a), version_parts(b), 0)
}

/// The opposite of an ordering.
pub open spec fn flip(o: Ordering) -> Ordering {
    match o {
        Ordering::Less => Ordering::Greater,
        Ordering::Equal => Ordering::Equal,
        Ordering::Greater => Ordering::Less,
    }
}

proof fn lemma_cmp_parts_antisym(x: Seq<u32>, y: Seq<u32>, i: int)
    requires
        i >= 0,
    ensures
        cmp_parts_from(y, x, i) == flip(cmp_parts_from(x, y, i)),
    decreases vstd::math::max(x.len() as int, y.len() as int) - i,
{
    if i >= x.len() && i >= y.len() {
    } else if part_at(x, i) < part_at(y, i) {
    } else if part_at(x, i) > part_at(y, i) {
    } else {
        lemma_cmp_parts_antisym(x, y, i + 1);
    }
}

proof fn lemma_cmp_parts_trans(x: Seq<u32>, y: Seq<u32>, z: Seq<u32>, i: int)
    requires
        i >= 0,
        cmp_parts_from(x, y, i) != Ordering::Greater,
        cmp_parts_from(y, z, i) != Ordering::Greater,
    ensures
        cmp_parts_from(x, z, i) != Ordering::Greater,
        cmp_parts_from(x, y, i) == Ordering::Equal && cmp_parts_from(y, z, i) == Ordering::Equal
            ==> cmp_parts_from(x, z, i) == Ordering::Equal,
        cmp_parts_from(x, y, i) == Ordering::Less || cmp_parts_from(y, z, i) == Ordering::Less
            ==> cmp_parts_from(x, z, i) == Ordering::Less,
    decreases vstd::math::max(
        vstd::math::max(x.len() as int, y.len() as int),
        z.len() as int,
    ) - i,
{
    let past_all = i >= x.len() && i >= y.len() && i >= z.len();
    if !past_all {
        if part_at(x, i) == part_at(y, i) && part_at(y, i) == part_at(z, i) {
            lemma_cmp_parts_trans(x, y, z, i + 1);
        }
    }
}

/// Antisymmetry: comparing in the other direction gives the opposite answer.
/// With totality (the comparison is a function into the three orderings),
/// this makes `compare_versions` a total order on version strings.
pub proof fn lemma_version_cmp_antisymmetric(a: Seq<char>, b: Seq<char>)
    ensures
        version_cmp(b, a) == flip(version_cmp(a, b)),
{
    lemma_cmp_parts_antisym(version_parts(a), version_parts(b), 0);
}

/// Transitivity of `compare_versions`: a version no greater than a second,
/// which is itself no greater than a third, is no greater than the third;
/// and equality is transitive.
pub proof fn lemma_version_cmp_transitive(a: Seq<char>, b: Seq<char>, c: Seq<char>)
    requires
        version_cmp(a, b) != Ordering::Greater,
        version_cmp(b, c) != Ordering::Greater,
    ensures
        version_cmp(a, c) != Ordering::Greater,
        version_cmp(a, b) == Ordering::Equal && version_cmp(b, c) == Ordering::Equal ==> version_cmp(
            a,
            c,
        ) == Ordering::Equal,
        version_cmp(a, b) == Ordering::Less || version_cmp(b, c) == Ordering::Less ==> version_cmp(
            a,
            c,
        ) == Ordering::Less,
{
    lemma_cmp_parts_trans(version_parts(a), version_parts(b), version_parts(c), 0);
}

/// Every version string compares equal to itself.
pub proof fn lemma_version_cmp_reflexive(a: Seq<char>)
    ensures
        version_cmp(a, a) == Ordering::Equal,
{
    lemma_cmp_parts_refl(version_parts(a), 0);
}

proof fn lemma_cmp_parts_refl(x: Seq<u32>, i: int)
    requires
        i >= 0,
    ensures
        cmp_parts_from(x, x, i) == Ordering::Equal,
    decreases x.len() - i,
{
    if i < x.len() {
        lemma_cmp_parts_refl(x, i + 1);
    }
}

proof fn lemma_find_dot_at(s: Seq<char>, k: int)
    requires
        0 <= k <= s.len(),
        forall|m: int| 0 <= m < k ==> s[m] != '.',
        k < s.len() ==> s[k] == '.',
        k == s.len() ==> find_dot(s) < 0,
    ensures
        k < s.len() ==> find_dot(s) == k,
    decreases s.len(),
{
    if s.len() > 0 && s[0] != '.' && k < s.len() {
        assert(s.drop_first()[k - 1] == s[k]);
        assert(forall|m: int| 0 <= m < k - 1 ==> s.drop_first()[m] == s[m + 1]);
        lemma_find_dot_at(s.drop_first(), k - 1);
    }
}

proof fn lemma_find_dot_none(s: Seq<char>)
    requires
        forall|m: int| 0 <= m < s.len() ==> s[m] != '.',
    ensures
        find_dot(s) < 0,
    decreases s.len(),
{
    if s.len() > 0 {
        assert(forall|m: int| 0 <= m < s.drop_first().len() ==> s.drop_first()[m] == s[m + 1]);
        lemma_find_dot_none(s.drop_first());
    }
}

proof fn lemma_digit_prefix_len_at(s: Seq<char>, k: int)
    requires
        0 <= k <= s.len(),
        forall|m: int| 0 <= m < k ==> is_digit(s[m]),
        k < s.len() ==> !is_digit(s[k]),
    ensures
        digit_prefix_len(s) == k,
    decreases s.len(),
{
    if s.len() > 0 && is_digit(s[0]) {
        assert(k > 0);
        assert(forall|m: int| 0 <= m < k - 1 ==> s.drop_first()[m] == s[m + 1]);
        assert(k - 1 < s.drop_first().len() ==> s.drop_first()[k - 1] == s[k]);
        lemma_digit_prefix_len_at(s.drop_first(), k - 1);
    }
}

proof fn lemma_decimal_value_nonneg(d: Seq<char>)
    requires
        forall|m: int| 0 <= m < d.len() ==> is_digit(d[m]),
    ensures
        decimal_value(d) >= 0,
    decreases d.len(),
{
    if d.len() > 0 {
        assert(forall|m: int| 0 <= m < d.drop_last().len() ==> is_digit(d.drop_last()[m]));
        lemma_decimal_value_nonneg(d.drop_last());
        assert(digit_val(d.last()) >= 0);
    }
}

proof fn lemma_decimal_value_grows(d: Seq<char>, c: char)
    requires
        forall|m: int| 0 <= m < d.len() ==> is_digit(d[m]),
        is_digit(c),
    ensures
        decimal_value(d.push(c)) == decimal_value(d) * 10 + digit_val(c),
        decimal_value(d.push(c)) >= decimal_value(d),
{
    assert(d.push(c).drop_last() =~= d);
    assert(d.push(c).last() == c);
    lemma_decimal_value_nonneg(d);
    assert(decimal_value(d) * 10 >= decimal_value(d)) by (nonlinear_arith)
        requires
            decimal_value(d) >= 0,
    ;
}

/// Parses the numeric fields of a version string, mirroring `version_parts`.
pub fn parse_version_parts(s: &str) -> (r: Vec<u32>)
    ensures
        r@ == version_parts(s@),
{
    let cs = crate::strutil::chars_of(s);
    let n: usize = cs.len();
    let mut r: Vec<u32> = Vec::new();
    let mut i: usize = 0;
    let mut done = false;
    proof {
        assert(s@.skip(0) =~= s@);
    }
    while !done
        invariant
            0 <= i <= n,
            n == s@.len(),
            cs@ == s@,
            version_parts(s@) == r@ + if done {
                Seq::<u32>::empty()
            } else {
                version_parts(s@.skip(i as int))
            },
        decreases n - i + 1, (if done { 0int } else { 1int }),
    {
        let ghost rest = s@.skip(i as int);
        // measure the digit prefix of the current segment and its value
        let mut k: usize = i;
        let mut val: u64 = 0;
        let mut overflow = false;
        while k < n && cs[k] >= '0' && cs[k] <= '9'
            invariant
                i <= k <= n,
                n == s@.len(),
                n == cs@.len(),
                cs@ == s@,
                forall|m: int| i <= m < k ==> is_digit(s@[m]),
                !overflow ==> val == decimal_value(s@.subrange(i as int, k as int)) && val
                    <= u32::MAX,
                overflow ==> decimal_value(s@.subrange(i as int, k as int)) > u32::MAX,
            decreases n - k,
        {
            let c = cs[k];
            let d: u64 = (c as u32 as u64) - 48;
            proof {
                assert(is_digit(s@[k as int]));
                assert(d == digit_val(s@[k as int]));
                assert(s@.subrange(i as int, k as int).push(s@[k as int]) =~= s@.subrange(
                    i as int,
                    k as int + 1,
                ));
                lemma_decimal_value_grows(s@.subrange(i as int, k as int), s@[k as int]);
                lemma_decimal_value_nonneg(s@.subrange(i as int, k as int));
            }
            if !overflow {
                let cand: u64 = val * 10 + d;
                if cand > u32::MAX as u64 {
                    overflow = true;
                } else {
                    val = cand;
                }
            }
            k += 1;
        }
        // k now bounds the digit prefix of the segment that starts at i
        let ghost seg_digits_end = k as int;
        // find the end of the segment (the next '.' or the end of the string)
        let mut j: usize = k;
        while j < n && cs[j] != '.'
            invariant
                k <= j <= n,
                n == s@.len(),
                n == cs@.len(),
                cs@ == s@,
                forall|m: int| k <= m < j ==> s@[m] != '.',
            decreases n - j,
        {
            j += 1;
        }
        let seg_val: u32 = if overflow || k == i {
            0
        } else {
            val as u32
        };
        proof {
            let seg = if find_dot(rest) < 0 {
                rest
            } else {
                rest.take(find_dot(rest))
            };
            assert(rest.len() == n - i);
            assert(forall|m: int| 0 <= m < rest.len() ==> rest[m] == s@[i + m]);
            // the '.' search characterizes find_dot on the rest
            assert(forall|m: int| i <= m < k ==> s@[m] != '.');
            assert(forall|m: int| 0 <= m < j - i ==> rest[m] != '.');
            if j < n {
                assert(rest[j - i] == '.');
                lemma_find_dot_at(rest, j - i);
                assert(find_dot(rest) == j - i);
            } else {
                lemma_find_dot_none(rest);
            }
        }
        proof {
            let dend = seg_digits_end;
            let seg = if find_dot(rest) < 0 {
                rest
            } else {
                rest.take(find_dot(rest))
            };
            // digit prefix of the segment is s[i..k]
            assert(seg =~= s@.subrange(i as int, j as int));
            assert(forall|m: int| 0 <= m < k - i ==> is_digit(seg[m]));
            if k < j {
                assert(!is_digit(seg[k - i]));
            }
            lemma_digit_prefix_len_at(seg, k as int - i as int);
            assert(seg.take(k as int - i as int) =~= s@.subrange(i as int, k as int));
        }
        r.push(seg_val);
        proof {
            let parts_rest = version_parts(rest);
            let seg = if find_dot(rest) < 0 {
                rest
            } else {
                rest.take(find_dot(rest))
            };
            assert(segment_value(seg) == seg_val);
            if find_dot(rest) < 0 {
                assert(dot_segments(rest) =~= seq![rest]);
                assert(version_parts(rest) =~= seq![seg_val]);
            } else {
                assert(dot_segments(rest) == seq![seg] + dot_segments(rest.skip(j - i + 1)));
                assert(rest.skip(j as int - i as int + 1) =~= s@.skip(j as int + 1));
                assert(version_parts(rest) =~= seq![seg_val] + version_parts(s@.skip(j as int + 1)));
            }
        }
        if j < n {
            i = j + 1;
        } else {
            i = j;
            done = true;
        }
    }
    proof {
        assert(version_parts(s@) =~= r@);
    }
    r
}

/// Compares two version strings as the library orders them: split on `.`,
/// read each segment's leading digits (ignoring any suffix), missing or
/// unreadable fields count as `0`.
pub fn compare_versions(a: &str, b: &str) -> (r: Ordering)
    ensures
        r == version_cmp(a@, b@),
{
    let x = parse_version_parts(a);
    let y = parse_version_parts(b);
    let nx: usize = x.len();
    let ny: usize = y.len();
    let n: usize = if nx > ny {
        nx
    } else {
        ny
    };
    let mut i: usize = 0;
    while i < n
        invariant
            0 <= i <= n,
            nx == x@.len(),
            ny == y@.len(),
            n == vstd::math::max(nx as int, ny as int),
            x@ == version_parts(a@),
            y@ == version_parts(b@),
            version_cmp(a@, b@) == cmp_parts_from(x@, y@, i as int),
        decreases n - i,
    {
        let xv: u32 = if i < nx {
            x[i]
        } else {
            0
        };
        let yv: u32 = if i < ny {
            y[i]
        } else {
            0
        };
        if xv < yv {
            return Ordering::Less;
        } else if xv > yv {
            return Ordering::Greater;
        }
        i += 1;
    }
    Ordering::Equal
}

} // verus!
