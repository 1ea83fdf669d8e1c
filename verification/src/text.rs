//! Character-level string utilities: whitespace trimming, prefix and
//! substring tests, and decimal parsing, each with an exact contract.

use vstd::prelude::*;

verus! {

/// The Unicode `White_Space` code points, the set that trimming strips.
pub open spec fn spec_is_space(c: char) -> bool {
    let u: u32 = c as u32;
    (0x09 <= u && u <= 0x0D) || u == 0x20 || u == 0x85 || u == 0xA0 || u == 0x1680 || (0x2000
        <= u && u <= 0x200A) || u == 0x2028 || u == 0x2029 || u == 0x202F || u == 0x205F || u
        == 0x3000
}

pub fn is_space(c: char) -> (r: bool)
    ensures
        r == spec_is_space(c),
{
    let u: u32 = c as u32;
    (0x09 <= u && u <= 0x0D) || u == 0x20 || u == 0x85 || u == 0xA0 || u == 0x1680 || (0x2000
        <= u && u <= 0x200A) || u == 0x2028 || u == 0x2029 || u == 0x202F || u == 0x205F || u
        == 0x3000
}

/// Number of leading whitespace characters of `s`.
pub open spec fn lead_ws(s: Seq<char>) -> int
    decreases s.len(),
{
    if s.len() == 0 {
        0
    } else if !spec_is_space(s[0]) {
        0
    } else {
        1 + lead_ws(s.skip(1))
    }
}

/// Number of trailing whitespace characters of `s`.
pub open spec fn trail_ws(s: Seq<char>) -> int
    decreases s.len(),
{
    if s.len() == 0 {
        0
    } else if !spec_is_space(s[s.len() - 1]) {
        0
    } else {
        1 + trail_ws(s.drop_last())
    }
}

/// `s` with leading and trailing whitespace removed.
pub open spec fn trim_spec(s: Seq<char>) -> Seq<char> {
    if lead_ws(s) == s.len() {
        Seq::empty()
    } else {
        s.subrange(lead_ws(s), s.len() - trail_ws(s))
    }
}

proof fn lemma_lead_ws_char(s: Seq<char>, i: int)
    requires
        0 <= i <= s.len(),
        forall|k: int| 0 <= k < i ==> spec_is_space(s[k]),
        i == s.len() || !spec_is_space(s[i]),
    ensures
        lead_ws(s) == i,
    decreases s.len(),
{
    if s.len() == 0 {
    } else if !spec_is_space(s[0]) {
        assert(i == 0);
    } else {
        assert(i > 0);
        let t = s.skip(1);
        assert(forall|k: int| 0 <= k < i - 1 ==> spec_is_space(#[trigger] t[k]));
        assert(i - 1 == t.len() || !spec_is_space(t[i - 1]));
        lemma_lead_ws_char(t, i - 1);
    }
}

proof fn lemma_trail_ws_char(s: Seq<char>, t: int)
    requires
        0 <= t <= s.len(),
        forall|k: int| s.len() - t <= k < s.len() ==> spec_is_space(s[k]),
        t == s.len() || !spec_is_space(s[s.len() - t - 1]),
    ensures
        trail_ws(s) == t,
    decreases s.len(),
{
    if s.len() == 0 {
    } else if !spec_is_space(s[s.len() - 1]) {
        assert(t == 0);
    } else {
        assert(t > 0);
        let d = s.drop_last();
        assert(forall|k: int| d.len() - (t - 1) <= k < d.len() ==> spec_is_space(#[trigger] d[k]));
        assert(t - 1 == d.len() || !spec_is_space(d[d.len() - (t - 1) - 1]));
        lemma_trail_ws_char(d, t - 1);
    }
}

/// Returns `s` with surrounding whitespace removed.
pub fn trim_str(s: &str) -> (r: String)
    ensures
        r@ == trim_spec(s@),
{
    let n: usize = s.unicode_len();
    let mut i: usize = 0;
    while i < n && is_space(s.get_char(i))
        invariant
            n == s@.len(),
            0 <= i <= n,
            forall|k: int| 0 <= k < i ==> spec_is_space(s@[k]),
        decreases n - i,
    {
        i += 1;
    }
    proof {
        lemma_lead_ws_char(s@, i as int);
    }
    if i == n {
        return String::new();
    }
    let mut j: usize = n;
    while j > i && is_space(s.get_char(j - 1))
        invariant
            n == s@.len(),
            0 <= i <= j <= n,
            i < n,
            !spec_is_space(s@[i as int]),
            forall|k: int| j <= k < n ==> spec_is_space(s@[k]),
        decreases j,
    {
        j -= 1;
    }
    proof {
        assert(j > i);
        lemma_trail_ws_char(s@, n - j);
    }
    let sub = s.substring_char(i, j);
    String::from_str(sub)
}

/// `p` is a prefix of `s`.
pub open spec fn starts_with_seq(s: Seq<char>, p: Seq<char>) -> bool {
    p.len() <= s.len() && (forall|k: int| 0 <= k < p.len() ==> s[k] == p[k])
}

pub fn has_prefix(s: &str, p: &str) -> (r: bool)
    ensures
        r == starts_with_seq(s@, p@),
{
    let m: usize = p.unicode_len();
    if m > s.unicode_len() {
        return false;
    }
    let mut i: usize = 0;
    while i < m
        invariant
            m == p@.len(),
            m <= s@.len(),
            0 <= i <= m,
            forall|k: int| 0 <= k < i ==> s@[k] == p@[k],
        decreases m - i,
    {
        if s.get_char(i) != p.get_char(i) {
            return false;
        }
        i += 1;
    }
    true
}

/// `p` occurs in `s` starting at position `i`.
pub open spec fn occurs_at(s: Seq<char>, p: Seq<char>, i: int) -> bool {
    0 <= i && i + p.len() <= s.len() && (forall|k: int| 0 <= k < p.len() ==> s[i + k] == p[k])
}

/// `p` occurs somewhere in `s` as a contiguous substring.
pub open spec fn contains_seq(s: Seq<char>, p: Seq<char>) -> bool {
    exists|i: int| occurs_at(s, p, i)
}

fn match_at(s: &str, p: &str, i: usize) -> (r: bool)
    requires
        i + p@.len() <= s@.len(),
        s@.len() <= usize::MAX,
    ensures
        r == occurs_at(s@, p@, i as int),
{
    let m: usize = p.unicode_len();
    let mut k: usize = 0;
    while k < m
        invariant
            i + m <= s@.len() <= usize::MAX,
            m == p@.len(),
            0 <= k <= m,
            forall|j: int| 0 <= j < k ==> s@[i + j] == p@[j],
        decreases m - k,
    {
        if s.get_char(i + k) != p.get_char(k) {
            return false;
        }
        k += 1;
    }
    true
}

/// Returns whether `p` occurs in `s` as a contiguous substring.
pub fn contains_sub(s: &str, p: &str) -> (r: bool)
    ensures
        r == contains_seq(s@, p@),
{
    let n: usize = s.unicode_len();
    let m: usize = p.unicode_len();
    if m > n {
        return false;
    }
    let mut i: usize = 0;
    while i <= n - m
        invariant
            m <= n,
            n == s@.len(),
            m == p@.len(),
            0 <= i <= n - m + 1,
            forall|j: int| 0 <= j < i ==> !occurs_at(s@, p@, j),
        decreases n - m + 1 - i,
    {
        if match_at(s, p, i) {
            return true;
        }
        i += 1;
    }
    assert(forall|j: int| occurs_at(s@, p@, j) ==> 0 <= j <= n - m);
    false
}

/// `c` is an ASCII decimal digit.
pub open spec fn spec_is_digit(c: char) -> bool {
    0x30 <= c as u32 && c as u32 <= 0x39
}

pub open spec fn digit_val(c: char) -> int {
    c as u32 - 0x30
}

/// The value of `s` read as a big-endian sequence of decimal digits.
pub open spec fn digits_val(s: Seq<char>) -> int
    decreases s.len(),
{
    if s.len() == 0 {
        0
    } else {
        10 * digits_val(s.drop_last()) + digit_val(s.last())
    }
}

pub open spec fn all_digits(s: Seq<char>) -> bool {
    forall|k: int| 0 <= k < s.len() ==> spec_is_digit(s[k])
}

/// The digit part of a decimal string: everything after an optional leading '+'.
pub open spec fn digits_part(s: Seq<char>) -> Seq<char> {
    if s.len() > 0 && s[0] == '+' {
        s.skip(1)
    } else {
        s
    }
}

/// `s` is a non-empty run of digits whose value fits in a `u64`.
pub open spec fn valid_u64_digits(s: Seq<char>) -> bool {
    s.len() > 0 && all_digits(s) && digits_val(s) <= u64::MAX
}

proof fn lemma_digits_val_nonneg(s: Seq<char>)
    requires
        all_digits(s),
    ensures
        digits_val(s) >= 0,
    decreases s.len(),
{
    if s.len() > 0 {
        assert(forall|k: int| 0 <= k < s.drop_last().len() ==> spec_is_digit(
            #[trigger] s.drop_last()[k],
        ));
        lemma_digits_val_nonneg(s.drop_last());
    }
}

proof fn lemma_digits_val_take_step(s: Seq<char>, m: int)
    requires
        0 <= m < s.len(),
    ensures
        digits_val(s.take(m + 1)) == 10 * digits_val(s.take(m)) + digit_val(s[m]),
{
    assert(s.take(m + 1).drop_last() =~= s.take(m));
    assert(s.take(m + 1).last() == s[m]);
}

proof fn lemma_digits_val_grows(s: Seq<char>, m: int)
    requires
        0 <= m <= s.len(),
        all_digits(s),
    ensures
        digits_val(s) >= digits_val(s.take(m)),
    decreases s.len() - m,
{
    if m == s.len() {
        assert(s.take(m) =~= s);
    } else {
        lemma_digits_val_take_step(s, m);
        assert(forall|k: int| 0 <= k < s.take(m).len() ==> spec_is_digit(#[trigger] s.take(m)[k]));
        lemma_digits_val_nonneg(s.take(m));
        lemma_digits_val_grows(s, m + 1);
    }
}

/// Parses a decimal `u64` out of `s`: an optional leading '+', then one or
/// more ASCII digits whose value fits in 64 bits; anything else is `None`.
pub fn parse_u64_str(s: &str) -> (r: Option<u64>)
    ensures
        r is Some <==> valid_u64_digits(digits_part(s@)),
        r is Some ==> r->0 == digits_val(digits_part(s@)),
{
    let n: usize = s.unicode_len();
    let start: usize = if n > 0 && s.get_char(0) == '+' {
        1
    } else {
        0
    };
    let ghost d = digits_part(s@);
    proof {
        assert(d =~= s@.skip(start as int));
    }
    if start == n {
        return None;
    }
    let mut acc: u64 = 0;
    let mut i: usize = start;
    while i < n
        invariant
            start <= i <= n,
            n == s@.len(),
            start < n,
            d == digits_part(s@),
            d == s@.skip(start as int),
            d.len() == n - start,
            forall|k: int| 0 <= k < i - start ==> spec_is_digit(d[k]),
            acc == digits_val(d.take(i - start)),
        decreases n - i,
    {
        let c = s.get_char(i);
        proof {
            assert(d[i - start] == s@.skip(start as int)[i - start]);
            assert(d[i - start] == c);
        }
        let u: u32 = c as u32;
        if u < 0x30 || u > 0x39 {
            assert(!spec_is_digit(d[i - start]));
            return None;
        }
        let dv: u64 = (u - 0x30) as u64;
        proof {
            lemma_digits_val_take_step(d, i - start);
        }
        if acc > (u64::MAX - dv) / 10 {
            proof {
                assert(10 * (acc as int) + dv > u64::MAX) by (nonlinear_arith)
                    requires
                        acc > (u64::MAX - dv) / 10,
                        dv <= 9,
                ;
                if valid_u64_digits(d) {
                    lemma_digits_val_grows(d, i - start + 1);
                }
            }
            return None;
        }
        proof {
            assert(10 * (acc as int) + dv <= u64::MAX) by (nonlinear_arith)
                requires
                    acc <= (u64::MAX - dv) / 10,
                    dv <= 9,
            ;
        }
        acc = acc * 10 + dv;
        i += 1;
    }
    proof {
        assert(d.take(n - start) =~= d);
    }
    Some(acc)
}

/// Returns whether the two strings hold the same characters.
pub fn eq_str(a: &str, b: &str) -> (r: bool)
    ensures
        r == (a@ == b@),
{
    let n: usize = a.unicode_len();
    if n != b.unicode_len() {
        return false;
    }
    let mut i: usize = 0;
    while i < n
        invariant
            n == a@.len(),
            n == b@.len(),
            0 <= i <= n,
            forall|k: int| 0 <= k < i ==> a@[k] == b@[k],
        decreases n - i,
    {
        if a.get_char(i) != b.get_char(i) {
            return false;
        }
        i += 1;
    }
    proof {
        assert(a@ =~= b@);
    }
    true
}

} // verus!
