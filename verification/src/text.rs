//! Verified text utilities: substring search, prefix/suffix tests, whitespace
//! trimming, and decimal rendering. Everything here works character-wise over
//! `Seq<char>` views, so contracts elsewhere can speak directly about the
//! text a function produced or matched.

use vstd::prelude::*;

verus! {

/// The needle `n` occurs in `h` starting at position `i`.
pub open spec fn is_sub_at(h: Seq<char>, n: Seq<char>, i: int) -> bool {
    &&& 0 <= i
    &&& i + n.len() <= h.len()
    &&& forall|j: int| 0 <= j < n.len() ==> h[i + j] == n[j]
}

/// The needle `n` occurs somewhere in `h`.
pub open spec fn contains_sub(h: Seq<char>, n: Seq<char>) -> bool {
    exists|i: int| is_sub_at(h, n, i)
}

/// `s` begins with `pre`.
pub open spec fn starts_with_spec(s: Seq<char>, pre: Seq<char>) -> bool {
    is_sub_at(s, pre, 0)
}

/// `s` ends with `suf`.
pub open spec fn ends_with_spec(s: Seq<char>, suf: Seq<char>) -> bool {
    suf.len() <= s.len() && is_sub_at(s, suf, s.len() - suf.len())
}

/// A decimal digit character.
pub open spec fn is_digit(c: char) -> bool {
    48 <= c as int && c as int <= 57
}

/// Whitespace characters stripped by [`trim`]: the ASCII blanks that the
/// external tool's output can carry around a line or a number.
pub open spec fn is_space(c: char) -> bool {
    c == ' ' || c == '\t' || c == '\n' || c == '\r'
}

/// Index of the first non-space character at or after `i`, or `s.len()`.
pub open spec fn trim_start_idx(s: Seq<char>, i: int) -> int
    recommends
        0 <= i <= s.len(),
    decreases s.len() - i,
{
    if i < 0 || i >= s.len() {
        i
    } else if is_space(s[i]) {
        trim_start_idx(s, i + 1)
    } else {
        i
    }
}

/// Index just past the last non-space character at or before `i - 1`, or `0`.
pub open spec fn trim_end_idx(s: Seq<char>, i: int) -> int
    recommends
        0 <= i <= s.len(),
    decreases i,
{
    if i <= 0 {
        0
    } else if is_space(s[i - 1]) {
        trim_end_idx(s, i - 1)
    } else {
        i
    }
}

/// `s` with leading and trailing whitespace removed.
pub open spec fn trim_spec(s: Seq<char>) -> Seq<char> {
    let a = trim_start_idx(s, 0);
    let b = trim_end_idx(s, s.len() as int);
    if a <= b {
        s.subrange(a, b)
    } else {
        Seq::empty()
    }
}

proof fn lemma_trim_start_idx_bounds(s: Seq<char>, i: int)
    requires
        0 <= i <= s.len(),
    ensures
        i <= trim_start_idx(s, i) <= s.len(),
    decreases s.len() - i,
{
    if i < s.len() && is_space(s[i]) {
        lemma_trim_start_idx_bounds(s, i + 1);
    }
}

proof fn lemma_trim_end_idx_bounds(s: Seq<char>, i: int)
    requires
        0 <= i <= s.len(),
    ensures
        0 <= trim_end_idx(s, i) <= i,
    decreases i,
{
    if i > 0 && is_space(s[i - 1]) {
        lemma_trim_end_idx_bounds(s, i - 1);
    }
}

/// Does `pat` occur in `hay` at exactly position `at`?
fn matches_at(hay: &str, pat: &str, at: usize) -> (r: bool)
    requires
        at + pat@.len() <= hay@.len(),
        hay@.len() <= usize::MAX,
    ensures
        r == is_sub_at(hay@, pat@, at as int),
{
    let pl = pat.unicode_len();
    let mut j: usize = 0;
    while j < pl
        invariant
            pl == pat@.len(),
            at + pl <= hay@.len(),
            hay@.len() <= usize::MAX,
            j <= pl,
            forall|k: int| 0 <= k < j ==> hay@[at + k] == pat@[k],
        decreases pl - j,
    {
        if hay.get_char(at + j) != pat.get_char(j) {
            return false;
        }
        j += 1;
    }
    true
}

/// Substring search: does `pat` occur anywhere in `hay`?
pub fn contains_str(hay: &str, pat: &str) -> (r: bool)
    ensures
        r == contains_sub(hay@, pat@),
{
    let hl = hay.unicode_len();
    let pl = pat.unicode_len();
    if pl > hl {
        assert(forall|i: int| !is_sub_at(hay@, pat@, i));
        return false;
    }
    let mut i: usize = 0;
    while i <= hl - pl
        invariant
            hl == hay@.len(),
            pl == pat@.len(),
            pl <= hl,
            i <= hl - pl + 1,
            forall|k: int| 0 <= k < i ==> !is_sub_at(hay@, pat@, k),
        decreases hl - pl - i + 1,
    {
        if matches_at(hay, pat, i) {
            assert(is_sub_at(hay@, pat@, i as int));
            return true;
        }
        i += 1;
    }
    assert forall|k: int| !is_sub_at(hay@, pat@, k) by {
        if 0 <= k < i {
        } else {
        }
    }
    false
}

/// Does `s` begin with `pre`?
pub fn starts_with_str(s: &str, pre: &str) -> (r: bool)
    ensures
        r == starts_with_spec(s@, pre@),
{
    let sl = s.unicode_len();
    let pl = pre.unicode_len();
    if pl > sl {
        return false;
    }
    matches_at(s, pre, 0)
}

/// Does `s` end with `suf`?
pub fn ends_with_str(s: &str, suf: &str) -> (r: bool)
    ensures
        r == ends_with_spec(s@, suf@),
{
    let sl = s.unicode_len();
    let fl = suf.unicode_len();
    if fl > sl {
        return false;
    }
    matches_at(s, suf, sl - fl)
}

/// Character-wise equality of two string slices.
pub fn str_eq(a: &str, b: &str) -> (r: bool)
    ensures
        r == (a@ == b@),
{
    let al = a.unicode_len();
    let bl = b.unicode_len();
    if al != bl {
        assert(a@ != b@);
        return false;
    }
    let mut i: usize = 0;
    while i < al
        invariant
            al == a@.len(),
            al == b@.len(),
            i <= al,
            forall|k: int| 0 <= k < i ==> a@[k] == b@[k],
        decreases al - i,
    {
        if a.get_char(i) != b.get_char(i) {
            assert(a@ != b@);
            return false;
        }
        i += 1;
    }
    assert(a@ =~= b@);
    true
}

/// `s` with leading and trailing ASCII whitespace removed.
pub fn trim<'a>(s: &'a str) -> (r: &'a str)
    ensures
        r@ == trim_spec(s@),
{
    let len = s.unicode_len();
    proof {
        lemma_trim_start_idx_bounds(s@, 0);
        lemma_trim_end_idx_bounds(s@, s@.len() as int);
    }
    let mut a: usize = 0;
    while a < len && is_space_char(s.get_char(a))
        invariant
            len == s@.len(),
            0 <= a <= len,
            trim_start_idx(s@, 0) == trim_start_idx(s@, a as int),
            forall|k: int| 0 <= k < a ==> is_space(s@[k]),
        decreases len - a,
    {
        a += 1;
    }
    assert(trim_start_idx(s@, a as int) == a);
    let mut b: usize = len;
    while b > a && is_space_char(s.get_char(b - 1))
        invariant
            len == s@.len(),
            a <= b <= len,
            a == trim_start_idx(s@, 0),
            trim_end_idx(s@, len as int) == trim_end_idx(s@, b as int),
        decreases b,
    {
        b -= 1;
    }
    if b == a {
        proof {
            lemma_trim_end_idx_bounds(s@, b as int);
            assert(trim_spec(s@) =~= Seq::<char>::empty());
        }
        let r = s.substring_char(0, 0);
        assert(r@ =~= trim_spec(s@));
        r
    } else {
        assert(!is_space(s@[b - 1]));
        assert(trim_end_idx(s@, b as int) == b);
        s.substring_char(a, b)
    }
}

/// Executable counterpart of [`is_space`].
pub fn is_space_char(c: char) -> (r: bool)
    ensures
        r == is_space(c),
{
    c == ' ' || c == '\t' || c == '\n' || c == '\r'
}

/// The character for one decimal digit.
pub open spec fn digit_char(d: int) -> char {
    ((d + 48) as u8) as char
}

/// Decimal representation of a natural number, most significant digit first.
pub open spec fn dec_rep(n: nat) -> Seq<char>
    decreases n,
{
    if n < 10 {
        seq![digit_char(n as int)]
    } else {
        dec_rep(n / 10).push(digit_char((n % 10) as int))
    }
}

fn push_digit(s: &mut String, d: u64)
    requires
        d < 10,
    ensures
        final(s)@ == old(s)@ + seq![digit_char(d as int)],
{
    proof {
        reveal_strlit("0");
        reveal_strlit("1");
        reveal_strlit("2");
        reveal_strlit("3");
        reveal_strlit("4");
        reveal_strlit("5");
        reveal_strlit("6");
        reveal_strlit("7");
        reveal_strlit("8");
        reveal_strlit("9");
    }
    match d {
        0 => s.append("0"),
        1 => s.append("1"),
        2 => s.append("2"),
        3 => s.append("3"),
        4 => s.append("4"),
        5 => s.append("5"),
        6 => s.append("6"),
        7 => s.append("7"),
        8 => s.append("8"),
        _ => s.append("9"),
    }
    assert(final(s)@ =~= old(s)@ + seq![digit_char(d as int)]);
}

/// Render `n` in decimal.
pub fn u64_to_string(n: u64) -> (r: String)
    ensures
        r@ == dec_rep(n as nat),
    decreases n,
{
    if n < 10 {
        let mut s = String::new();
        push_digit(&mut s, n);
        assert(s@ =~= dec_rep(n as nat));
        s
    } else {
        let mut s = u64_to_string(n / 10);
        push_digit(&mut s, n % 10);
        assert(s@ =~= dec_rep(n as nat));
        s
    }
}

/// Decimal representation of a signed number: a minus sign when negative.
pub open spec fn dec_rep_signed(n: int) -> Seq<char> {
    if n < 0 {
        seq!['-'] + dec_rep((-n) as nat)
    } else {
        dec_rep(n as nat)
    }
}

/// Render a signed number in decimal.
pub fn i64_to_string(n: i64) -> (r: String)
    requires
        n > i64::MIN,
    ensures
        r@ == dec_rep_signed(n as int),
{
    if n < 0 {
        proof {
            reveal_strlit("-");
        }
        let mut s = String::from_str("-");
        let rest = u64_to_string((-n) as u64);
        s.append(rest.as_str());
        assert(s@ =~= dec_rep_signed(n as int));
        s
    } else {
        u64_to_string(n as u64)
    }
}

} // verus!
