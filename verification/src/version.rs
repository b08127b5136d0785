//! Version probing: reading a `v<major>.<minor>.<patch>` triple out of the
//! text that the tool prints for a version query, and deriving the two
//! capability flags from the triple.

use vstd::prelude::*;

verus! {

/// A semantic version triple with lexicographic ordering.
#[derive(Clone, Copy, PartialEq, Eq, Structural, Debug)]
pub struct Version {
    pub major: u32,
    pub minor: u32,
    pub patch: u32,
}

/// Why a version probe failed.  Every probe failure is fatal: no partial
/// capability record is ever produced.
#[derive(Debug, Clone, PartialEq, Eq)]
pub enum ProbeError {
    /// The tool could not be launched for the version query (not found or
    /// not executable); carries the OS error text.  Reported by the caller
    /// that performs the query, never by the parser.
    ToolUnavailable(String),
    /// No `v<digits>.<digits>.<digits>` pattern occurs in the probed text.
    NoVersionMatch,
    /// The pattern occurs, but a component does not fit a `u32`.
    MalformedVersion,
}

/// An ASCII decimal digit.
pub open spec fn is_digit_char(c: char) -> bool {
    48 <= c as int <= 57
}

/// The numeric value of an ASCII decimal digit.
pub open spec fn digit_val(c: char) -> int {
    c as int - 48
}

/// The first position at or after `i` that does not hold a digit (or the end
/// of the text).
pub open spec fn digit_run_end(s: Seq<char>, i: int) -> int
    decreases s.len() - i,
{
    if i < 0 || i >= s.len() {
        i
    } else if is_digit_char(s[i]) {
        digit_run_end(s, i + 1)
    } else {
        i
    }
}

/// The value of a string of decimal digits, most significant first.
pub open spec fn digits_val(s: Seq<char>) -> int
    decreases s.len(),
{
    if s.len() == 0 {
        0
    } else {
        digits_val(s.drop_last()) * 10 + digit_val(s.last())
    }
}

/// A version pattern `v<digits>.<digits>.<digits>` starts at position `i`,
/// with each digit group maximal.
pub open spec fn match_at(s: Seq<char>, i: int) -> bool {
    let a = i + 1;
    let ae = digit_run_end(s, a);
    let b = ae + 1;
    let be = digit_run_end(s, b);
    let c = be + 1;
    let ce = digit_run_end(s, c);
    &&& 0 <= i < s.len()
    &&& s[i] == 'v'
    &&& ae > a
    &&& ae < s.len()
    &&& s[ae] == '.'
    &&& be > b
    &&& be < s.len()
    &&& s[be] == '.'
    &&& ce > c
}

/// The leftmost position where the version pattern matches.
pub open spec fn is_first_match(s: Seq<char>, i: int) -> bool {
    &&& match_at(s, i)
    &&& forall|j: int| 0 <= j < i ==> !match_at(s, j)
}

/// The value of the major group of the match at `i`.
pub open spec fn g1_val(s: Seq<char>, i: int) -> int {
    digits_val(s.subrange(i + 1, digit_run_end(s, i + 1)))
}

/// The value of the minor group of the match at `i`.
pub open spec fn g2_val(s: Seq<char>, i: int) -> int {
    let b = digit_run_end(s, i + 1) + 1;
    digits_val(s.subrange(b, digit_run_end(s, b)))
}

/// The value of the patch group of the match at `i`.
pub open spec fn g3_val(s: Seq<char>, i: int) -> int {
    let b = digit_run_end(s, i + 1) + 1;
    let c = digit_run_end(s, b) + 1;
    digits_val(s.subrange(c, digit_run_end(s, c)))
}

/// Every component of the match at `i` fits a `u32`.
pub open spec fn match_fits(s: Seq<char>, i: int) -> bool {
    &&& g1_val(s, i) <= u32::MAX
    &&& g2_val(s, i) <= u32::MAX
    &&& g3_val(s, i) <= u32::MAX
}

/// The version triple read out of the match at `i`.
pub open spec fn spec_version_at(s: Seq<char>, i: int) -> Version {
    Version {
        major: g1_val(s, i) as u32,
        minor: g2_val(s, i) as u32,
        patch: g3_val(s, i) as u32,
    }
}

/// What each probe error means about the probed text.
pub open spec fn spec_parse_failure(s: Seq<char>, e: ProbeError) -> bool {
    ||| (e == ProbeError::NoVersionMatch && forall|i: int| !match_at(s, i))
    ||| (e == ProbeError::MalformedVersion && exists|i: int|
        #[trigger] is_first_match(s, i) && !match_fits(s, i))
}

proof fn lemma_digit_run_end(s: Seq<char>, i: int)
    requires
        0 <= i <= s.len(),
    ensures
        i <= digit_run_end(s, i) <= s.len(),
        forall|k: int| i <= k < digit_run_end(s, i) ==> is_digit_char(s[k]),
        digit_run_end(s, i) < s.len() ==> !is_digit_char(s[digit_run_end(s, i)]),
    decreases s.len() - i,
{
    if i < s.len() && is_digit_char(s[i]) {
        lemma_digit_run_end(s, i + 1);
    }
}

proof fn lemma_digits_val_nonneg(s: Seq<char>)
    requires
        forall|k: int| 0 <= k < s.len() ==> is_digit_char(s[k]),
    ensures
        digits_val(s) >= 0,
    decreases s.len(),
{
    if s.len() > 0 {
        lemma_digits_val_nonneg(s.drop_last());
    }
}

proof fn lemma_digits_val_prefix_le(p: Seq<char>, q: Seq<char>)
    requires
        p.len() <= q.len(),
        p == q.subrange(0, p.len() as int),
        forall|k: int| 0 <= k < q.len() ==> is_digit_char(q[k]),
    ensures
        digits_val(p) <= digits_val(q),
    decreases q.len() - p.len(),
{
    if p.len() == q.len() {
        assert(p =~= q);
    } else {
        let q1 = q.drop_last();
        assert(forall|k: int| 0 <= k < q1.len() ==> is_digit_char(#[trigger] q1[k]));
        assert(p == q1.subrange(0, p.len() as int));
        lemma_digits_val_prefix_le(p, q1);
        lemma_digits_val_nonneg(q1);
    }
}

proof fn lemma_digits_val_snoc(s: Seq<char>, start: int, j: int)
    requires
        0 <= start <= j < s.len(),
    ensures
        digits_val(s.subrange(start, j + 1)) == digits_val(s.subrange(start, j)) * 10
            + digit_val(s[j]),
{
    let q = s.subrange(start, j + 1);
    assert(q.drop_last() =~= s.subrange(start, j));
    assert(q.last() == s[j]);
}

/// Scans forward from `from` to the end of the digit run there.
fn run_end(s: &str, from: usize, n: usize) -> (e: usize)
    requires
        from <= n,
        n == s@.len(),
    ensures
        e as int == digit_run_end(s@, from as int),
        from <= e <= n,
{
    let mut cur = from;
    while cur < n
        invariant
            from <= cur <= n,
            n == s@.len(),
            digit_run_end(s@, from as int) == digit_run_end(s@, cur as int),
        decreases n - cur,
    {
        let c = s.get_char(cur);
        let u = c as u32;
        if !(48 <= u && u <= 57) {
            return cur;
        }
        cur += 1;
    }
    cur
}

/// Reads the value of the digit run `s[start..end]`, detecting overflow.
fn parse_group(s: &str, start: usize, end: usize) -> (r: Option<u32>)
    requires
        start <= end,
        end <= s@.len(),
        forall|k: int| start <= k < end ==> is_digit_char(s@[k]),
    ensures
        match r {
            Some(v) => v == digits_val(s@.subrange(start as int, end as int)),
            None => digits_val(s@.subrange(start as int, end as int)) > u32::MAX,
        },
{
    let ghost whole = s@.subrange(start as int, end as int);
    let mut acc: u32 = 0;
    let mut j = start;
    proof {
        assert(s@.subrange(start as int, start as int) =~= Seq::<char>::empty());
    }
    while j < end
        invariant
            start <= j <= end,
            end <= s@.len(),
            forall|k: int| start <= k < end ==> is_digit_char(s@[k]),
            whole == s@.subrange(start as int, end as int),
            acc == digits_val(s@.subrange(start as int, j as int)),
        decreases end - j,
    {
        let c = s.get_char(j);
        proof {
            assert(is_digit_char(s@[j as int]));
        }
        let d = (c as u32) - 48;
        proof {
            lemma_digits_val_snoc(s@, start as int, j as int);
        }
        if acc > (u32::MAX - d) / 10 {
            proof {
                let p = s@.subrange(start as int, j as int + 1);
                assert(digits_val(p) == acc * 10 + d);
                assert(acc * 10 + d > u32::MAX) by {
                    let m = (u32::MAX - d) as int;
                    assert(acc > m / 10);
                    assert(m == 10 * (m / 10) + m % 10) by (nonlinear_arith);
                    assert(acc * 10 >= (m / 10 + 1) * 10) by (nonlinear_arith)
                        requires acc >= m / 10 + 1;
                }
                assert(p == whole.subrange(0, p.len() as int)) by {
                    assert(p =~= whole.subrange(0, (j - start + 1) as int));
                }
                assert(forall|k: int| 0 <= k < whole.len() ==> is_digit_char(#[trigger] whole[k]));
                lemma_digits_val_prefix_le(p, whole);
            }
            return None;
        }
        acc = acc * 10 + d;
        j += 1;
    }
    Some(acc)
}

/// What an attempted pattern match at one position yielded.
enum MatchAttempt {
    NotHere,
    TooLarge,
    Found(Version),
}

fn try_match_at(s: &str, i: usize, n: usize) -> (r: MatchAttempt)
    requires
        i < n,
        n == s@.len(),
    ensures
        match r {
            MatchAttempt::NotHere => !match_at(s@, i as int),
            MatchAttempt::TooLarge => match_at(s@, i as int) && !match_fits(s@, i as int),
            MatchAttempt::Found(v) => match_at(s@, i as int) && match_fits(s@, i as int)
                && v == spec_version_at(s@, i as int),
        },
{
    if s.get_char(i) != 'v' {
        return MatchAttempt::NotHere;
    }
    let a = i + 1;
    let ae = run_end(s, a, n);
    if ae == a || ae == n {
        return MatchAttempt::NotHere;
    }
    if s.get_char(ae) != '.' {
        return MatchAttempt::NotHere;
    }
    let b = ae + 1;
    let be = run_end(s, b, n);
    if be == b || be == n {
        return MatchAttempt::NotHere;
    }
    if s.get_char(be) != '.' {
        return MatchAttempt::NotHere;
    }
    let c = be + 1;
    let ce = run_end(s, c, n);
    if ce == c {
        return MatchAttempt::NotHere;
    }
    proof {
        lemma_digit_run_end(s@, a as int);
        lemma_digit_run_end(s@, b as int);
        lemma_digit_run_end(s@, c as int);
    }
    let g1 = parse_group(s, a, ae);
    let g2 = parse_group(s, b, be);
    let g3 = parse_group(s, c, ce);
    match (g1, g2, g3) {
        (Some(major), Some(minor), Some(patch)) => MatchAttempt::Found(
            Version { major, minor, patch },
        ),
        _ => MatchAttempt::TooLarge,
    }
}

/// Finds the leftmost `v<major>.<minor>.<patch>` pattern in `s` and returns
/// its triple.  Fails with [`ProbeError::NoVersionMatch`] exactly when the
/// pattern occurs nowhere in `s`, and with [`ProbeError::MalformedVersion`]
/// exactly when the leftmost occurrence has a component too large for a
/// `u32`.
pub fn parse_version(s: &str) -> (r: Result<Version, ProbeError>)
    ensures
        match r {
            Ok(v) => exists|i: int|
                #[trigger] is_first_match(s@, i) && match_fits(s@, i) && v == spec_version_at(
                    s@,
                    i,
                ),
            Err(e) => spec_parse_failure(s@, e),
        },
{
    let n = s.unicode_len();
    let mut i: usize = 0;
    while i < n
        invariant
            i <= n,
            n == s@.len(),
            forall|j: int| 0 <= j < i ==> !match_at(s@, j),
        decreases n - i,
    {
        match try_match_at(s, i, n) {
            MatchAttempt::NotHere => {},
            MatchAttempt::TooLarge => {
                proof {
                    assert(is_first_match(s@, i as int));
                }
                return Err(ProbeError::MalformedVersion);
            },
            MatchAttempt::Found(v) => {
                proof {
                    assert(is_first_match(s@, i as int));
                }
                return Ok(v);
            },
        }
        i += 1;
    }
    Err(ProbeError::NoVersionMatch)
}

/// The version strictly exceeds the triple `(a, b, c)` lexicographically.
pub open spec fn version_gt(v: Version, a: int, b: int, c: int) -> bool {
    ||| v.major > a
    ||| (v.major == a && v.minor > b)
    ||| (v.major == a && v.minor == b && v.patch > c)
}

/// Lexicographic order between two versions.
pub open spec fn version_le(v1: Version, v2: Version) -> bool {
    ||| v1.major < v2.major
    ||| (v1.major == v2.major && v1.minor < v2.minor)
    ||| (v1.major == v2.major && v1.minor == v2.minor && v1.patch <= v2.patch)
}

/// The tool offers the atomic existence-check flag from every version
/// strictly above 1.4.10.
pub open spec fn spec_supports_check(v: Version) -> bool {
    version_gt(v, 1, 4, 10)
}

/// The tool offers the built-in blocking wait flag from every version
/// strictly above 1.4.19.
pub open spec fn spec_supports_wait(v: Version) -> bool {
    version_gt(v, 1, 4, 19)
}

/// Whether this version offers the atomic existence-check flag.
pub fn supports_check(v: &Version) -> (b: bool)
    ensures
        b == spec_supports_check(*v),
{
    (v.major > 1) || (v.major == 1 && v.minor > 4) || (v.major == 1 && v.minor == 4 && v.patch
        > 10)
}

/// Whether this version offers the built-in blocking wait flag.
pub fn supports_wait(v: &Version) -> (b: bool)
    ensures
        b == spec_supports_wait(*v),
{
    (v.major > 1) || (v.major == 1 && v.minor > 4) || (v.major == 1 && v.minor == 4 && v.patch
        > 19)
}

/// Both capability flags are monotonic non-decreasing in the version triple
/// under lexicographic order: a capability present at some version is present
/// at every later version.
pub proof fn lemma_capabilities_monotonic(v1: Version, v2: Version)
    requires
        version_le(v1, v2),
    ensures
        spec_supports_check(v1) ==> spec_supports_check(v2),
        spec_supports_wait(v1) ==> spec_supports_wait(v2),
{
}

} // verus!
