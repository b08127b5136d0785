//! Verified text helpers: splitting on a separator, trimming, decimal
//! formatting of integers, and substring search.  The rule and listing texts
//! that the tool consumes and produces are handled with these.

use vstd::prelude::*;

verus! {

/// The views of a sequence of owned strings.
pub open spec fn views_of(v: Seq<String>) -> Seq<Seq<char>> {
    Seq::new(v.len(), |i: int| v[i]@)
}

/// Appending one string appends its view.
pub proof fn lemma_views_of_push(a: Seq<String>, x: String)
    ensures
        views_of(a.push(x)) =~~= views_of(a).push(x@),
{
}

/// The views of a concatenation are the concatenated views.
pub proof fn lemma_views_of_concat(a: Seq<String>, b: Seq<String>)
    ensures
        views_of(a + b) =~~= views_of(a) + views_of(b),
{
}

/// Splitting on a single separator character, empty pieces kept: the split of
/// the empty text is one empty piece.
pub open spec fn split_char(s: Seq<char>, sep: char) -> Seq<Seq<char>>
    decreases s.len(),
{
    if s.len() == 0 {
        seq![Seq::<char>::empty()]
    } else if s[0] == sep {
        seq![Seq::<char>::empty()] + split_char(s.drop_first(), sep)
    } else {
        let rest = split_char(s.drop_first(), sep);
        seq![seq![s[0]] + rest[0]] + rest.drop_first()
    }
}

proof fn lemma_split_char_len(s: Seq<char>, sep: char)
    ensures
        split_char(s, sep).len() >= 1,
    decreases s.len(),
{
    if s.len() > 0 {
        lemma_split_char_len(s.drop_first(), sep);
    }
}

proof fn lemma_split_char_no_sep(s: Seq<char>, sep: char)
    requires
        forall|k: int| 0 <= k < s.len() ==> s[k] != sep,
    ensures
        split_char(s, sep) =~~= seq![s],
    decreases s.len(),
{
    if s.len() == 0 {
        assert(split_char(s, sep) =~~= seq![s]);
    } else {
        let t = s.drop_first();
        assert(forall|k: int| 0 <= k < t.len() ==> t[k] != sep);
        lemma_split_char_no_sep(t, sep);
        lemma_split_char_len(t, sep);
        assert(seq![s[0]] + t =~= s);
        assert(split_char(s, sep) =~~= seq![s]);
    }
}

proof fn lemma_split_char_at_first_sep(s: Seq<char>, sep: char, i: int)
    requires
        0 <= i < s.len(),
        s[i] == sep,
        forall|k: int| 0 <= k < i ==> s[k] != sep,
    ensures
        split_char(s, sep) =~~= seq![s.subrange(0, i)] + split_char(
            s.subrange(i + 1, s.len() as int),
            sep,
        ),
    decreases i,
{
    if i == 0 {
        assert(s.subrange(0, 0) =~= Seq::<char>::empty());
        assert(s.drop_first() =~= s.subrange(1, s.len() as int));
    } else {
        let t = s.drop_first();
        assert(t[i - 1] == sep);
        assert(forall|k: int| 0 <= k < i - 1 ==> t[k] != sep);
        lemma_split_char_at_first_sep(t, sep, i - 1);
        lemma_split_char_len(t.subrange(i, t.len() as int), sep);
        assert(t.subrange(0, i - 1) =~= s.subrange(1, i));
        assert(t.subrange(i, t.len() as int) =~= s.subrange(i + 1, s.len() as int));
        assert(seq![s[0]] + s.subrange(1, i) =~= s.subrange(0, i));
        assert(split_char(s, sep) =~~= seq![s.subrange(0, i)] + split_char(
            s.subrange(i + 1, s.len() as int),
            sep,
        ));
    }
}

/// Splits `s` on single occurrences of `sep`, keeping empty pieces.
pub fn split_str(s: &str, sep: char) -> (r: Vec<String>)
    ensures
        views_of(r@) == split_char(s@, sep),
    decreases s@.len(),
{
    let n = s.unicode_len();
    let mut i: usize = 0;
    while i < n
        invariant
            i <= n,
            n == s@.len(),
            forall|k: int| 0 <= k < i ==> s@[k] != sep,
        decreases n - i,
    {
        if s.get_char(i) == sep {
            let head = s.substring_char(0, i);
            let tail = s.substring_char(i + 1, n);
            let rest = split_str(tail, sep);
            proof {
                lemma_split_char_at_first_sep(s@, sep, i as int);
            }
            let mut r: Vec<String> = Vec::new();
            r.push(head.to_owned());
            let mut moved = rest;
            r.append(&mut moved);
            proof {
                assert(views_of(r@) =~~= seq![s@.subrange(0, i as int)] + views_of(
                    rest@,
                ));
                assert(views_of(r@) =~~= split_char(s@, sep));
            }
            return r;
        }
        i += 1;
    }
    proof {
        lemma_split_char_no_sep(s@, sep);
    }
    let mut r: Vec<String> = Vec::new();
    r.push(s.to_owned());
    proof {
        assert(views_of(r@) =~~= seq![s@]);
    }
    r
}

/// The decimal digit character for a value below ten.
pub open spec fn dec_digit_char(d: int) -> char {
    if d == 0 {
        '0'
    } else if d == 1 {
        '1'
    } else if d == 2 {
        '2'
    } else if d == 3 {
        '3'
    } else if d == 4 {
        '4'
    } else if d == 5 {
        '5'
    } else if d == 6 {
        '6'
    } else if d == 7 {
        '7'
    } else if d == 8 {
        '8'
    } else {
        '9'
    }
}

/// The decimal digit string of a non-negative value, most significant digit
/// first, without leading zeroes (a single zero for zero).
pub open spec fn spec_dec_nat(n: int) -> Seq<char>
    decreases n,
{
    if n < 10 {
        seq![dec_digit_char(n)]
    } else {
        spec_dec_nat(n / 10) + seq![dec_digit_char(n % 10)]
    }
}

/// The decimal digit string of a signed value: a minus sign before the digits
/// of the magnitude when negative.
pub open spec fn spec_dec_int(n: int) -> Seq<char> {
    if n < 0 {
        seq!['-'] + spec_dec_nat(-n)
    } else {
        spec_dec_nat(n)
    }
}

fn digit_str(d: u64) -> (r: &'static str)
    requires
        d < 10,
    ensures
        r@ == seq![dec_digit_char(d as int)],
{
    let r: &'static str = match d {
        0 => "0",
        1 => "1",
        2 => "2",
        3 => "3",
        4 => "4",
        5 => "5",
        6 => "6",
        7 => "7",
        8 => "8",
        _ => "9",
    };
    proof {
        reveal_strlit("0");
        reveal_strlit("1");
        reveal_strlit("2");
        reveal_strlit("3");
        reveal_strlit("4");
        reveal_strlit("5");
        reveal_strlit("6");
        reveal_strlit("7");
        reveal_strlit("8");
        reveal_strlit("9");
        assert(r@ =~= seq![dec_digit_char(d as int)]);
    }
    r
}

fn push_dec_u64(out: &mut String, n: u64)
    ensures
        final(out)@ == old(out)@ + spec_dec_nat(n as int),
    decreases n,
{
    if n < 10 {
        out.append(digit_str(n));
    } else {
        push_dec_u64(out, n / 10);
        out.append(digit_str(n % 10));
        proof {
            assert(out@ =~= old(out)@ + spec_dec_nat(n as int));
        }
    }
}

/// The decimal string of a signed 32-bit value, as the tool expects a rule
/// position to be written.
pub fn dec_string_i32(n: i32) -> (r: String)
    ensures
        r@ == spec_dec_int(n as int),
{
    let mut out = String::new();
    if n < 0 {
        out.append("-");
        let m = (-(n as i64)) as u64;
        push_dec_u64(&mut out, m);
        proof {
            reveal_strlit("-");
            assert(out@ =~= spec_dec_int(n as int));
        }
    } else {
        push_dec_u64(&mut out, n as u64);
    }
    out
}

/// The needle occurs in the haystack starting at position `i`.
pub open spec fn contains_at(h: Seq<char>, n: Seq<char>, i: int) -> bool {
    &&& 0 <= i
    &&& i + n.len() <= h.len()
    &&& h.subrange(i, i + n.len() as int) == n
}

/// The needle occurs somewhere in the haystack.
pub open spec fn seq_contains(h: Seq<char>, n: Seq<char>) -> bool {
    exists|i: int| contains_at(h, n, i)
}

fn match_here(hay: &str, needle: &str, i: usize, hn: usize, nn: usize) -> (b: bool)
    requires
        i + nn <= hn,
        hn == hay@.len(),
        nn == needle@.len(),
    ensures
        b == contains_at(hay@, needle@, i as int),
{
    let mut k: usize = 0;
    while k < nn
        invariant
            k <= nn,
            i + nn <= hn,
            hn == hay@.len(),
            nn == needle@.len(),
            forall|m: int| 0 <= m < k ==> hay@[i + m] == needle@[m],
        decreases nn - k,
    {
        if hay.get_char(i + k) != needle.get_char(k) {
            proof {
                assert(hay@.subrange(i as int, i + nn as int)[k as int] == hay@[i + k]);
            }
            return false;
        }
        k += 1;
    }
    proof {
        assert(hay@.subrange(i as int, i + nn as int) =~= needle@);
    }
    true
}

/// Whether `needle` occurs as a contiguous substring of `hay`.
pub fn str_contains(hay: &str, needle: &str) -> (b: bool)
    ensures
        b == seq_contains(hay@, needle@),
{
    let hn = hay.unicode_len();
    let nn = needle.unicode_len();
    if nn > hn {
        proof {
            assert(forall|i: int| !contains_at(hay@, needle@, i));
        }
        return false;
    }
    if nn == 0 {
        proof {
            assert(hay@.subrange(0, 0) =~= needle@);
            assert(contains_at(hay@, needle@, 0));
        }
        return true;
    }
    let mut i: usize = 0;
    while i <= hn - nn
        invariant
            0 < nn <= hn,
            hn == hay@.len(),
            nn == needle@.len(),
            i <= hn - nn + 1,
            forall|j: int| 0 <= j < i ==> !contains_at(hay@, needle@, j),
        decreases hn + 1 - nn - i,
    {
        if match_here(hay, needle, i, hn, nn) {
            return true;
        }
        i += 1;
    }
    proof {
        assert(forall|j: int| !contains_at(hay@, needle@, j));
    }
    false
}

/// A whitespace character: the Unicode White_Space set, the characters that
/// trimming removes from around a listing.
pub open spec fn is_space_char(c: char) -> bool {
    let u = c as int;
    ||| u == 0x20
    ||| (0x09 <= u && u <= 0x0D)
    ||| u == 0x85
    ||| u == 0xA0
    ||| u == 0x1680
    ||| (0x2000 <= u && u <= 0x200A)
    ||| u == 0x2028
    ||| u == 0x2029
    ||| u == 0x202F
    ||| u == 0x205F
    ||| u == 0x3000
}

/// The first position from `i` on that holds no whitespace.
pub open spec fn skip_space_from(s: Seq<char>, i: int) -> int
    decreases s.len() - i,
{
    if i < 0 || i >= s.len() {
        i
    } else if is_space_char(s[i]) {
        skip_space_from(s, i + 1)
    } else {
        i
    }
}

/// One past the last position before `i` that holds no whitespace.
pub open spec fn rskip_space_from(s: Seq<char>, i: int) -> int
    decreases i,
{
    if i <= 0 || i > s.len() {
        i
    } else if is_space_char(s[i - 1]) {
        rskip_space_from(s, i - 1)
    } else {
        i
    }
}

/// The text with leading and trailing whitespace removed.
pub open spec fn spec_trim(s: Seq<char>) -> Seq<char> {
    let a = skip_space_from(s, 0);
    let b = rskip_space_from(s, s.len() as int);
    if a <= b {
        s.subrange(a, b)
    } else {
        Seq::empty()
    }
}

fn is_space(c: char) -> (b: bool)
    ensures
        b == is_space_char(c),
{
    let u = c as u32;
    u == 0x20 || (0x09 <= u && u <= 0x0D) || u == 0x85 || u == 0xA0 || u == 0x1680 || (0x2000
        <= u && u <= 0x200A) || u == 0x2028 || u == 0x2029 || u == 0x202F || u == 0x205F
        || u == 0x3000
}

fn scan_space(s: &str, n: usize) -> (a: usize)
    requires
        n == s@.len(),
    ensures
        a as int == skip_space_from(s@, 0),
        a <= n,
{
    let mut a: usize = 0;
    while a < n
        invariant
            a <= n,
            n == s@.len(),
            skip_space_from(s@, 0) == skip_space_from(s@, a as int),
        decreases n - a,
    {
        if !is_space(s.get_char(a)) {
            return a;
        }
        a += 1;
    }
    a
}

fn rscan_space(s: &str, n: usize) -> (b: usize)
    requires
        n == s@.len(),
    ensures
        b as int == rskip_space_from(s@, n as int),
        b <= n,
{
    let mut b: usize = n;
    while b > 0
        invariant
            b <= n,
            n == s@.len(),
            rskip_space_from(s@, n as int) == rskip_space_from(s@, b as int),
        decreases b,
    {
        if !is_space(s.get_char(b - 1)) {
            return b;
        }
        b -= 1;
    }
    b
}

/// Removes leading and trailing whitespace.
pub fn trim_str(s: &str) -> (r: String)
    ensures
        r@ == spec_trim(s@),
{
    let n = s.unicode_len();
    let a = scan_space(s, n);
    let b = rscan_space(s, n);
    if b <= a {
        let r = String::new();
        proof {
            assert(r@ =~= spec_trim(s@));
        }
        r
    } else {
        let r = s.substring_char(a, b);
        proof {
            assert(r@ =~= spec_trim(s@));
        }
        r.to_owned()
    }
}

} // verus!
