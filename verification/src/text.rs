//! Character and substring primitives used by link classification and
//! content rewriting: ASCII case folding, substring search, and exact
//! string comparison, all specified over `Seq<char>` views.

use vstd::prelude::*;

verus! {

/// A whitespace character: space, tab, newline, carriage return,
/// vertical tab or form feed.
pub open spec fn is_space_char(c: char) -> bool {
    c == ' ' || c == '\t' || c == '\n' || c == '\r' || c == '\u{b}' || c == '\u{c}'
}

/// Executable test for `is_space_char`.
pub fn is_space(c: char) -> (r: bool)
    ensures
        r == is_space_char(c),
{
    c == ' ' || c == '\t' || c == '\n' || c == '\r' || c == '\u{b}' || c == '\u{c}'
}

/// ASCII lower-casing of one character: `'A'..='Z'` map to `'a'..='z'`,
/// everything else is unchanged.
pub open spec fn lower_char(c: char) -> char {
    if 'A' <= c && c <= 'Z' {
        ((c as u32) + 32) as char
    } else {
        c
    }
}

/// ASCII lower-casing of a character sequence, pointwise.
pub open spec fn lower_seq(s: Seq<char>) -> Seq<char> {
    s.map_values(|c: char| lower_char(c))
}

/// Decides `lower_char(a) == b` without constructing the folded character.
pub fn char_eq_folded(a: char, b: char) -> (r: bool)
    ensures
        r == (lower_char(a) == b),
{
    let ua = a as u32;
    let la: u32 = if 'A' <= a && a <= 'Z' {
        ua + 32
    } else {
        ua
    };
    la == b as u32
}

/// `needle` occurs in `hay` starting at position `i`.
pub open spec fn matches_at(hay: Seq<char>, needle: Seq<char>, i: int) -> bool {
    &&& 0 <= i
    &&& i + needle.len() <= hay.len()
    &&& forall|j: int| 0 <= j < needle.len() ==> hay[i + j] == needle[j]
}

/// `needle` occurs somewhere in `hay`.
pub open spec fn contains_seq(hay: Seq<char>, needle: Seq<char>) -> bool {
    exists|i: int| matches_at(hay, needle, i)
}

/// `s` begins with `prefix`.
pub open spec fn starts_with(s: Seq<char>, prefix: Seq<char>) -> bool {
    matches_at(s, prefix, 0)
}

/// `s` ends with `suffix`.
pub open spec fn ends_with(s: Seq<char>, suffix: Seq<char>) -> bool {
    &&& suffix.len() <= s.len()
    &&& matches_at(s, suffix, s.len() - suffix.len())
}

/// Exact string equality, decided character by character.
pub fn str_eq(a: &str, b: &str) -> (r: bool)
    ensures
        r == (a@ == b@),
{
    let an = a.unicode_len();
    let bn = b.unicode_len();
    if an != bn {
        return false;
    }
    let mut j: usize = 0;
    while j < an
        invariant
            an == a@.len(),
            an == b@.len(),
            0 <= j <= an,
            forall|k: int| 0 <= k < j ==> a@[k] == b@[k],
        decreases an - j,
    {
        if a.get_char(j) != b.get_char(j) {
            return false;
        }
        j = j + 1;
    }
    proof {
        assert(a@ =~= b@);
    }
    true
}

/// Whether the case-folded view of `hay` matches `needle` at position `i`:
/// decides `matches_at(lower_seq(hay@), needle@, i)`.
fn match_at_folded(hay: &str, needle: &str, i: usize, needle_len: usize) -> (r: bool)
    requires
        needle_len == needle@.len(),
        i + needle_len <= hay@.len(),
        hay@.len() <= usize::MAX,
    ensures
        r == matches_at(lower_seq(hay@), needle@, i as int),
{
    let mut j: usize = 0;
    while j < needle_len
        invariant
            needle_len == needle@.len(),
            i + needle_len <= hay@.len(),
            hay@.len() <= usize::MAX,
            0 <= j <= needle_len,
            forall|k: int| 0 <= k < j ==> lower_seq(hay@)[i + k] == needle@[k],
        decreases needle_len - j,
    {
        if !char_eq_folded(hay.get_char(i + j), needle.get_char(j)) {
            proof {
                assert(lower_seq(hay@)[i + j] != needle@[j as int]);
            }
            return false;
        }
        j = j + 1;
    }
    true
}

/// Whether `hay` matches `needle` exactly at position `i`:
/// decides `matches_at(hay@, needle@, i)`.
pub fn match_at_exact(hay: &str, needle: &str, i: usize, needle_len: usize) -> (r: bool)
    requires
        needle_len == needle@.len(),
        i + needle_len <= hay@.len(),
        hay@.len() <= usize::MAX,
    ensures
        r == matches_at(hay@, needle@, i as int),
{
    let mut j: usize = 0;
    while j < needle_len
        invariant
            needle_len == needle@.len(),
            i + needle_len <= hay@.len(),
            hay@.len() <= usize::MAX,
            0 <= j <= needle_len,
            forall|k: int| 0 <= k < j ==> hay@[i + k] == needle@[k],
        decreases needle_len - j,
    {
        if hay.get_char(i + j) != needle.get_char(j) {
            return false;
        }
        j = j + 1;
    }
    true
}

/// Case-insensitive (on `hay` only) substring search: decides
/// `contains_seq(lower_seq(hay@), needle@)`. The needle is expected
/// already lower-case.
pub fn contains_folded(hay: &str, needle: &str) -> (r: bool)
    ensures
        r == contains_seq(lower_seq(hay@), needle@),
{
    let n = hay.unicode_len();
    let m = needle.unicode_len();
    if m > n {
        proof {
            assert forall|i: int| !matches_at(lower_seq(hay@), needle@, i) by {}
        }
        return false;
    }
    let mut i: usize = 0;
    while i <= n - m
        invariant
            n == hay@.len(),
            m == needle@.len(),
            m <= n,
            0 <= i <= n - m + 1,
            forall|k: int| 0 <= k < i ==> !matches_at(lower_seq(hay@), needle@, k),
        decreases n - m + 1 - i,
    {
        if match_at_folded(hay, needle, i, m) {
            return true;
        }
        i = i + 1;
    }
    proof {
        assert forall|k: int| !matches_at(lower_seq(hay@), needle@, k) by {
            if 0 <= k < i {
            } else {
            }
        }
    }
    false
}

/// Decides `lower_char(a) == lower_char(b)` without constructing the
/// folded characters.
pub fn char_eq_folded_both(a: char, b: char) -> (r: bool)
    ensures
        r == (lower_char(a) == lower_char(b)),
{
    let ua = a as u32;
    let la: u32 = if 'A' <= a && a <= 'Z' {
        ua + 32
    } else {
        ua
    };
    let ub = b as u32;
    let lb: u32 = if 'A' <= b && b <= 'Z' {
        ub + 32
    } else {
        ub
    };
    la == lb
}

/// Whether the case-folded view of `hay` matches the case-folded view of
/// `needle` at position `i`: decides
/// `matches_at(lower_seq(hay@), lower_seq(needle@), i)`.
fn match_at_folded_both(hay: &str, needle: &str, i: usize, needle_len: usize) -> (r: bool)
    requires
        needle_len == needle@.len(),
        i + needle_len <= hay@.len(),
        hay@.len() <= usize::MAX,
    ensures
        r == matches_at(lower_seq(hay@), lower_seq(needle@), i as int),
{
    let mut j: usize = 0;
    while j < needle_len
        invariant
            needle_len == needle@.len(),
            i + needle_len <= hay@.len(),
            hay@.len() <= usize::MAX,
            0 <= j <= needle_len,
            forall|k: int| 0 <= k < j ==> lower_seq(hay@)[i + k] == lower_seq(needle@)[k],
        decreases needle_len - j,
    {
        if !char_eq_folded_both(hay.get_char(i + j), needle.get_char(j)) {
            proof {
                assert(lower_seq(hay@)[i + j] != lower_seq(needle@)[j as int]);
            }
            return false;
        }
        j = j + 1;
    }
    true
}

/// Case-insensitive (on both sides) substring search: decides
/// `contains_seq(lower_seq(hay@), lower_seq(needle@))`.
pub fn contains_folded_both(hay: &str, needle: &str) -> (r: bool)
    ensures
        r == contains_seq(lower_seq(hay@), lower_seq(needle@)),
{
    let n = hay.unicode_len();
    let m = needle.unicode_len();
    if m > n {
        proof {
            assert forall|i: int| !matches_at(lower_seq(hay@), lower_seq(needle@), i) by {}
        }
        return false;
    }
    let mut i: usize = 0;
    while i <= n - m
        invariant
            n == hay@.len(),
            m == needle@.len(),
            m <= n,
            0 <= i <= n - m + 1,
            forall|k: int| 0 <= k < i ==> !matches_at(lower_seq(hay@), lower_seq(needle@), k),
        decreases n - m + 1 - i,
    {
        if match_at_folded_both(hay, needle, i, m) {
            return true;
        }
        i = i + 1;
    }
    proof {
        assert forall|k: int| !matches_at(lower_seq(hay@), lower_seq(needle@), k) by {
            if 0 <= k < i {
            } else {
            }
        }
    }
    false
}

/// Case-insensitive (on `s` only) suffix test: decides
/// `ends_with(lower_seq(s@), suffix@)`.
pub fn ends_with_folded(s: &str, suffix: &str) -> (r: bool)
    ensures
        r == ends_with(lower_seq(s@), suffix@),
{
    let n = s.unicode_len();
    let m = suffix.unicode_len();
    if m > n {
        return false;
    }
    match_at_folded(s, suffix, n - m, m)
}

/// Case-insensitive (on `s` only) prefix test: decides
/// `starts_with(lower_seq(s@), prefix@)`.
pub fn starts_with_folded(s: &str, prefix: &str) -> (r: bool)
    ensures
        r == starts_with(lower_seq(s@), prefix@),
{
    let n = s.unicode_len();
    let m = prefix.unicode_len();
    if m > n {
        return false;
    }
    match_at_folded(s, prefix, 0, m)
}

/// What remains of `s` after its first `sep`-delimited field (the
/// delimiter itself is consumed; a text without the delimiter leaves
/// nothing).
pub open spec fn split_tail(s: Seq<char>, sep: char) -> Seq<char>
    decreases s.len(),
{
    if s.len() == 0 {
        s
    } else if s[0] == sep {
        s.skip(1)
    } else {
        split_tail(s.skip(1), sep)
    }
}

/// The first `sep`-delimited field of `s`, up to but not including the
/// first delimiter.
pub open spec fn split_head(s: Seq<char>, sep: char) -> Seq<char>
    decreases s.len(),
{
    if s.len() == 0 {
        Seq::<char>::empty()
    } else if s[0] == sep {
        Seq::<char>::empty()
    } else {
        seq![s[0]] + split_head(s.skip(1), sep)
    }
}

/// Characterizes `split_head` and `split_tail` by the position `k` of the
/// first delimiter (`k == s.len()` when there is none).
pub proof fn lemma_split_at(s: Seq<char>, sep: char, k: int)
    requires
        0 <= k <= s.len(),
        forall|j: int| 0 <= j < k ==> s[j] != sep,
        k == s.len() || s[k] == sep,
    ensures
        split_head(s, sep) == s.take(k),
        k == s.len() ==> split_tail(s, sep) == Seq::<char>::empty(),
        k < s.len() ==> split_tail(s, sep) == s.skip(k + 1),
    decreases k,
{
    if s.len() == 0 {
        assert(split_head(s, sep) =~= s.take(0));
    } else if k == 0 {
        assert(s[0] == sep);
        assert(split_head(s, sep) =~= s.take(0));
    } else {
        assert(s[0] != sep);
        lemma_split_at(s.skip(1), sep, k - 1);
        assert(split_head(s, sep) == seq![s[0]] + split_head(s.skip(1), sep));
        assert(seq![s[0]] + s.skip(1).take(k - 1) =~= s.take(k));
        if k < s.len() {
            assert(s.skip(1).skip(k) =~= s.skip(k + 1));
        }
    }
}

/// The decimal digit character for `d` (zero when out of range).
pub open spec fn dec_digit(d: int) -> char {
    if d == 0 {
        '0'
    } else if d == 1 {
        '1'
    } else if d == 2 {
        '2'
    } else if d == 3 {
        '3'
    } else if d == 4 {
        '4'
    } else if d == 5 {
        '5'
    } else if d == 6 {
        '6'
    } else if d == 7 {
        '7'
    } else if d == 8 {
        '8'
    } else {
        '9'
    }
}

/// The decimal rendering of `n`, most significant digit first, no sign
/// and no leading zero (a single zero for zero itself).
pub open spec fn dec_str(n: nat) -> Seq<char>
    decreases n,
{
    if n < 10 {
        seq![dec_digit(n as int)]
    } else {
        dec_str(n / 10) + seq![dec_digit((n % 10) as int)]
    }
}

/// The one-character string for a decimal digit.
fn digit_str(d: u64) -> (r: &'static str)
    requires
        d < 10,
    ensures
        r@ == seq![dec_digit(d as int)],
{
    proof {
        reveal_strlit("0");
        reveal_strlit("1");
        reveal_strlit("2");
        reveal_strlit("3");
        reveal_strlit("4");
        reveal_strlit("5");
        reveal_strlit("6");
        reveal_strlit("7");
        reveal_strlit("8");
        reveal_strlit("9");
    }
    let r = match d {
        0 => "0",
        1 => "1",
        2 => "2",
        3 => "3",
        4 => "4",
        5 => "5",
        6 => "6",
        7 => "7",
        8 => "8",
        _ => "9",
    };
    proof {
        assert(r@ =~= seq![dec_digit(d as int)]);
    }
    r
}

/// Renders `n` in decimal: `r@ == dec_str(n as nat)`.
pub fn u64_to_dec(n: u64) -> (r: String)
    ensures
        r@ == dec_str(n as nat),
    decreases n,
{
    if n < 10 {
        digit_str(n).to_owned()
    } else {
        let mut s = u64_to_dec(n / 10);
        s.append(digit_str(n % 10));
        s
    }
}

} // verus!
