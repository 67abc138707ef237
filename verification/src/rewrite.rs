//! Content rewriting: removal of every literal occurrence of the matched
//! link strings, followed by whitespace normalization (runs of whitespace
//! collapse to single spaces, ends trimmed).
//!
//! Removal is textual only: it does not parse markup, and a matched
//! substring recurring inside unrelated text is stripped as well. Removal
//! is repeated until no occurrence of any matched string remains, so a
//! removal that butts two fragments of a new occurrence together does not
//! leave that occurrence behind.

use vstd::prelude::*;

use crate::text::{contains_seq, is_space, is_space_char, match_at_exact, matches_at, starts_with};

verus! {

/// One greedy left-to-right pass removing occurrences of `p` from `s`.
pub open spec fn remove_pass(s: Seq<char>, p: Seq<char>) -> Seq<char>
    decreases s.len(),
{
    if p.len() == 0 || s.len() < p.len() {
        s
    } else if starts_with(s, p) {
        remove_pass(s.skip(p.len() as int), p)
    } else {
        seq![s[0]] + remove_pass(s.skip(1), p)
    }
}

/// Removal of `p` from `s`, repeated until no pass shortens the text.
pub open spec fn remove_all(s: Seq<char>, p: Seq<char>) -> Seq<char>
    decreases s.len(),
{
    if p.len() == 0 {
        s
    } else {
        let r = remove_pass(s, p);
        if r.len() < s.len() {
            remove_all(r, p)
        } else {
            s
        }
    }
}

/// A pass never lengthens the text.
pub proof fn lemma_remove_pass_len(s: Seq<char>, p: Seq<char>)
    ensures
        remove_pass(s, p).len() <= s.len(),
    decreases s.len(),
{
    if p.len() == 0 || s.len() < p.len() {
    } else if starts_with(s, p) {
        lemma_remove_pass_len(s.skip(p.len() as int), p);
    } else {
        lemma_remove_pass_len(s.skip(1), p);
    }
}

/// A match of `p` somewhere past the front of `s` is a match in `s.skip(1)`.
proof fn lemma_matches_shift(s: Seq<char>, p: Seq<char>, i: int)
    requires
        matches_at(s, p, i),
        i >= 1,
    ensures
        matches_at(s.skip(1), p, i - 1),
{
    assert forall|j: int| 0 <= j < p.len() implies s.skip(1)[i - 1 + j] == p[j] by {
        assert(s[i + j] == p[j]);
    }
}

/// A pass that removes nothing certifies that `p` does not occur in `s`.
pub proof fn lemma_remove_pass_stable(s: Seq<char>, p: Seq<char>)
    requires
        p.len() > 0,
        remove_pass(s, p).len() == s.len(),
    ensures
        !contains_seq(s, p),
        remove_pass(s, p) == s,
    decreases s.len(),
{
    if s.len() < p.len() {
        assert forall|i: int| !matches_at(s, p, i) by {}
    } else if starts_with(s, p) {
        lemma_remove_pass_len(s.skip(p.len() as int), p);
        assert(false);
    } else {
        lemma_remove_pass_len(s.skip(1), p);
        lemma_remove_pass_stable(s.skip(1), p);
        assert forall|i: int| !matches_at(s, p, i) by {
            if i == 0 {
                assert(!starts_with(s, p));
            } else if i >= 1 && matches_at(s, p, i) {
                lemma_matches_shift(s, p, i);
            }
        }
        assert(remove_pass(s, p) =~= s);
    }
}

/// After exhaustive removal, `p` does not occur in the result.
pub proof fn lemma_remove_all_complete(s: Seq<char>, p: Seq<char>)
    requires
        p.len() > 0,
    ensures
        !contains_seq(remove_all(s, p), p),
    decreases s.len(),
{
    let r = remove_pass(s, p);
    lemma_remove_pass_len(s, p);
    if r.len() < s.len() {
        lemma_remove_all_complete(r, p);
    } else {
        lemma_remove_pass_stable(s, p);
    }
}

/// One greedy pass, executed: `r@ == remove_pass(s@, p@)`.
pub fn remove_pass_str(s: &str, p: &str) -> (r: String)
    ensures
        r@ == remove_pass(s@, p@),
{
    let n = s.unicode_len();
    let m = p.unicode_len();
    let mut out = String::new();
    if m == 0 {
        proof {
            assert(remove_pass(s@, p@) == s@);
        }
        return s.to_owned();
    }
    let mut i: usize = 0;
    proof {
        assert(s@.skip(0) =~= s@);
        assert(out@ + remove_pass(s@, p@) =~= remove_pass(s@, p@));
    }
    while i < n
        invariant
            n == s@.len(),
            m == p@.len(),
            m > 0,
            0 <= i <= n,
            remove_pass(s@, p@) == out@ + remove_pass(s@.skip(i as int), p@),
        decreases n - i,
    {
        proof {
            assert(s@.skip(i as int).len() == n - i);
        }
        if m <= n - i && match_at_exact(s, p, i, m) {
            proof {
                let suf = s@.skip(i as int);
                assert forall|j: int| 0 <= j < p@.len() implies suf[j] == p@[j] by {
                    assert(s@[i + j] == p@[j]);
                }
                assert(starts_with(suf, p@));
                assert(suf.skip(m as int) =~= s@.skip(i + m));
            }
            i = i + m;
        } else {
            proof {
                let suf = s@.skip(i as int);
                if m <= n - i {
                    assert(!matches_at(s@, p@, i as int));
                    if starts_with(suf, p@) {
                        assert forall|j: int| 0 <= j < p@.len() implies s@[i + j] == p@[j] by {
                            assert(suf[j] == p@[j]);
                        }
                        assert(false);
                    }
                } else {
                    assert(suf.len() < p@.len());
                }
                assert(suf.skip(1) =~= s@.skip(i + 1));
                if suf.len() < p@.len() {
                    assert(remove_pass(suf, p@) == suf);
                    assert(suf =~= seq![s@[i as int]] + remove_pass(suf.skip(1), p@));
                } else {
                    assert(remove_pass(suf, p@) == seq![s@[i as int]] + remove_pass(suf.skip(1), p@));
                }
            }
            let piece = s.substring_char(i, i + 1);
            proof {
                assert(piece@ =~= seq![s@[i as int]]);
            }
            out.append(piece);
            i = i + 1;
        }
    }
    proof {
        assert(s@.skip(n as int) =~= Seq::<char>::empty());
        assert(remove_pass(Seq::<char>::empty(), p@) == Seq::<char>::empty());
        assert(remove_pass(s@, p@) =~= out@);
    }
    out
}

/// Exhaustive removal, executed: `r@ == remove_all(s@, p@)`.
pub fn remove_all_str(s: &str, p: &str) -> (r: String)
    ensures
        r@ == remove_all(s@, p@),
{
    let m = p.unicode_len();
    if m == 0 {
        return s.to_owned();
    }
    let mut cur = s.to_owned();
    let mut cur_len = s.unicode_len();
    loop
        invariant
            m == p@.len(),
            m > 0,
            cur_len == cur@.len(),
            remove_all(s@, p@) == remove_all(cur@, p@),
        decreases cur@.len(),
    {
        let next = remove_pass_str(cur.as_str(), p);
        let next_len = next.as_str().unicode_len();
        proof {
            lemma_remove_pass_len(cur@, p@);
        }
        if next_len < cur_len {
            proof {
                assert(remove_all(cur@, p@) == remove_all(next@, p@));
            }
            cur = next;
            cur_len = next_len;
        } else {
            proof {
                assert(remove_all(cur@, p@) == cur@);
            }
            return cur;
        }
    }
}

/// Exhaustive removal never lengthens the text.
pub proof fn lemma_remove_all_len(s: Seq<char>, p: Seq<char>)
    ensures
        remove_all(s, p).len() <= s.len(),
    decreases s.len(),
{
    if p.len() == 0 {
    } else {
        let r = remove_pass(s, p);
        lemma_remove_pass_len(s, p);
        if r.len() < s.len() {
            lemma_remove_all_len(r, p);
        }
    }
}

/// Exhaustive removal that keeps the length certifies that `p` (if
/// non-empty) does not occur in `s`, and changes nothing.
pub proof fn lemma_remove_all_stable(s: Seq<char>, p: Seq<char>)
    requires
        p.len() > 0,
        remove_all(s, p).len() == s.len(),
    ensures
        remove_all(s, p) == s,
        !contains_seq(s, p),
{
    let r = remove_pass(s, p);
    lemma_remove_pass_len(s, p);
    if r.len() < s.len() {
        lemma_remove_all_len(r, p);
        assert(false);
    } else {
        lemma_remove_pass_stable(s, p);
    }
}

/// One pass over the whole matched-link list: each pattern removed
/// exhaustively, in order.
pub open spec fn remove_list_pass(s: Seq<char>, pats: Seq<Seq<char>>) -> Seq<char>
    decreases pats.len(),
{
    if pats.len() == 0 {
        s
    } else {
        remove_list_pass(remove_all(s, pats[0]), pats.skip(1))
    }
}

/// Removal of every pattern of `pats`, repeated until no pass shortens
/// the text.
pub open spec fn remove_list(s: Seq<char>, pats: Seq<Seq<char>>) -> Seq<char>
    decreases s.len(),
{
    let r = remove_list_pass(s, pats);
    if r.len() < s.len() {
        remove_list(r, pats)
    } else {
        s
    }
}

/// A list pass never lengthens the text.
pub proof fn lemma_remove_list_pass_len(s: Seq<char>, pats: Seq<Seq<char>>)
    ensures
        remove_list_pass(s, pats).len() <= s.len(),
    decreases pats.len(),
{
    if pats.len() == 0 {
    } else {
        lemma_remove_all_len(s, pats[0]);
        lemma_remove_list_pass_len(remove_all(s, pats[0]), pats.skip(1));
    }
}

/// A list pass that keeps the length certifies that no non-empty pattern
/// occurs in `s`.
pub proof fn lemma_remove_list_pass_stable(s: Seq<char>, pats: Seq<Seq<char>>)
    requires
        remove_list_pass(s, pats).len() == s.len(),
    ensures
        forall|i: int| 0 <= i < pats.len() && pats[i].len() > 0 ==> !contains_seq(s, pats[i]),
    decreases pats.len(),
{
    if pats.len() == 0 {
    } else {
        let p0 = pats[0];
        let s1 = remove_all(s, p0);
        lemma_remove_all_len(s, p0);
        lemma_remove_list_pass_len(s1, pats.skip(1));
        assert(s1.len() == s.len());
        if p0.len() > 0 {
            lemma_remove_all_stable(s, p0);
            assert(s1 == s);
        } else {
            assert(s1 == s);
        }
        lemma_remove_list_pass_stable(s, pats.skip(1));
        assert forall|i: int| 0 <= i < pats.len() && pats[i].len() > 0 implies !contains_seq(
            s,
            pats[i],
        ) by {
            if i >= 1 {
                assert(pats.skip(1)[i - 1] == pats[i]);
            }
        }
    }
}

/// After exhaustive list removal, no non-empty pattern occurs in the
/// result.
pub proof fn lemma_remove_list_complete(s: Seq<char>, pats: Seq<Seq<char>>)
    ensures
        forall|i: int|
            0 <= i < pats.len() && pats[i].len() > 0 ==> !contains_seq(
                remove_list(s, pats),
                pats[i],
            ),
    decreases s.len(),
{
    let r = remove_list_pass(s, pats);
    lemma_remove_list_pass_len(s, pats);
    if r.len() < s.len() {
        lemma_remove_list_complete(r, pats);
    } else {
        lemma_remove_list_pass_stable(s, pats);
    }
}

/// One list pass, executed: `r@ == remove_list_pass(s@, pats.deep_view())`.
fn remove_list_pass_str(s: &str, pats: &Vec<String>) -> (r: String)
    ensures
        r@ == remove_list_pass(s@, pats.deep_view()),
{
    let pv = Ghost(pats.deep_view());
    let mut cur = s.to_owned();
    let mut j: usize = 0;
    proof {
        assert(pv@.skip(0) =~= pv@);
    }
    while j < pats.len()
        invariant
            pv@ == pats.deep_view(),
            pv@.len() == pats@.len(),
            0 <= j <= pats@.len(),
            remove_list_pass(s@, pv@) == remove_list_pass(cur@, pv@.skip(j as int)),
        decreases pats@.len() - j,
    {
        proof {
            assert(pv@.skip(j as int)[0] == pv@[j as int]);
            assert(pv@[j as int] == pats@[j as int]@);
            assert(pv@.skip(j as int).skip(1) =~= pv@.skip(j + 1));
        }
        let next = remove_all_str(cur.as_str(), pats[j].as_str());
        cur = next;
        j = j + 1;
    }
    proof {
        assert(pv@.skip(pats@.len() as int) =~= Seq::<Seq<char>>::empty());
    }
    cur
}

/// Exhaustive list removal, executed: `r@ == remove_list(s@, pats.deep_view())`.
pub fn remove_list_str(s: &str, pats: &Vec<String>) -> (r: String)
    ensures
        r@ == remove_list(s@, pats.deep_view()),
{
    let mut cur = s.to_owned();
    let mut cur_len = s.unicode_len();
    loop
        invariant
            cur_len == cur@.len(),
            remove_list(s@, pats.deep_view()) == remove_list(cur@, pats.deep_view()),
        decreases cur@.len(),
    {
        let next = remove_list_pass_str(cur.as_str(), pats);
        let next_len = next.as_str().unicode_len();
        proof {
            lemma_remove_list_pass_len(cur@, pats.deep_view());
        }
        if next_len < cur_len {
            cur = next;
            cur_len = next_len;
        } else {
            return cur;
        }
    }
}

/// The cleaned text: every matched link removed, then whitespace
/// normalized.
pub open spec fn rewrite_spec(text: Seq<char>, pats: Seq<Seq<char>>) -> Seq<char> {
    normalize_space(remove_list(text, pats))
}

/// Every whitespace character replaced by a plain space, pointwise.
pub open spec fn space_mapped(s: Seq<char>) -> Seq<char> {
    s.map_values(|c: char| if is_space_char(c) { ' ' } else { c })
}

/// Runs of spaces collapsed to a single space.
pub open spec fn squeeze(s: Seq<char>) -> Seq<char>
    decreases s.len(),
{
    if s.len() <= 1 {
        s
    } else if s[0] == ' ' && s[1] == ' ' {
        squeeze(s.skip(1))
    } else {
        seq![s[0]] + squeeze(s.skip(1))
    }
}

/// Leading spaces dropped.
pub open spec fn trim_start(s: Seq<char>) -> Seq<char>
    decreases s.len(),
{
    if s.len() > 0 && s[0] == ' ' {
        trim_start(s.skip(1))
    } else {
        s
    }
}

/// Trailing spaces dropped.
pub open spec fn trim_end(s: Seq<char>) -> Seq<char>
    decreases s.len(),
{
    if s.len() > 0 && s[s.len() - 1] == ' ' {
        trim_end(s.take(s.len() - 1))
    } else {
        s
    }
}

/// Whitespace normalization: runs of whitespace collapse to one space and
/// the ends are trimmed.
pub open spec fn normalize_space(s: Seq<char>) -> Seq<char> {
    trim_end(trim_start(squeeze(space_mapped(s))))
}

/// `trim_start` drops exactly the leading run of spaces.
proof fn lemma_trim_start_skip(s: Seq<char>, k: int)
    requires
        0 <= k <= s.len(),
        forall|j: int| 0 <= j < k ==> s[j] == ' ',
        k == s.len() || s[k] != ' ',
    ensures
        trim_start(s) == s.skip(k),
    decreases k,
{
    if k == 0 {
        assert(s.skip(0) =~= s);
    } else {
        assert(s[0] == ' ');
        lemma_trim_start_skip(s.skip(1), k - 1);
        assert(s.skip(1).skip(k - 1) =~= s.skip(k));
    }
}

/// `trim_end` drops exactly the trailing run of spaces.
proof fn lemma_trim_end_take(s: Seq<char>, k: int)
    requires
        0 <= k <= s.len(),
        forall|j: int| k <= j < s.len() ==> s[j] == ' ',
        k == 0 || s[k - 1] != ' ',
    ensures
        trim_end(s) == s.take(k),
    decreases s.len() - k,
{
    if k == s.len() {
        assert(s.take(k) =~= s);
    } else {
        assert(s[s.len() - 1] == ' ');
        lemma_trim_end_take(s.take(s.len() - 1), k);
        assert(s.take(s.len() - 1).take(k) =~= s.take(k));
    }
}

/// Maps every whitespace character of `s` to a plain space:
/// `r@ == space_mapped(s@)`.
fn space_map_str(s: &str) -> (r: String)
    ensures
        r@ == space_mapped(s@),
{
    let n = s.unicode_len();
    let mut out = String::new();
    let mut i: usize = 0;
    while i < n
        invariant
            n == s@.len(),
            0 <= i <= n,
            out@ =~= space_mapped(s@).take(i as int),
        decreases n - i,
    {
        let c = s.get_char(i);
        if is_space(c) {
            out.append(" ");
            proof {
                reveal_strlit(" ");
                assert(out@ =~= space_mapped(s@).take(i + 1));
            }
        } else {
            let piece = s.substring_char(i, i + 1);
            proof {
                assert(piece@ =~= seq![s@[i as int]]);
            }
            out.append(piece);
            proof {
                assert(out@ =~= space_mapped(s@).take(i + 1));
            }
        }
        i = i + 1;
    }
    proof {
        assert(space_mapped(s@).take(n as int) =~= space_mapped(s@));
    }
    out
}

/// Collapses runs of spaces in `s` to single spaces: `r@ == squeeze(s@)`.
fn squeeze_str(s: &str) -> (r: String)
    ensures
        r@ == squeeze(s@),
{
    let n = s.unicode_len();
    let mut out = String::new();
    let mut i: usize = 0;
    proof {
        assert(s@.skip(0) =~= s@);
        assert(out@ + squeeze(s@) =~= squeeze(s@));
    }
    while i < n
        invariant
            n == s@.len(),
            0 <= i <= n,
            squeeze(s@) == out@ + squeeze(s@.skip(i as int)),
        decreases n - i,
    {
        let c = s.get_char(i);
        let drop_this = i + 1 < n && c == ' ' && s.get_char(i + 1) == ' ';
        proof {
            let suf = s@.skip(i as int);
            assert(suf.len() == n - i);
            assert(suf[0] == s@[i as int]);
            if suf.len() > 1 {
                assert(suf[1] == s@[i + 1]);
            }
            assert(suf.skip(1) =~= s@.skip(i + 1));
            if drop_this {
                assert(squeeze(suf) == squeeze(suf.skip(1)));
            } else {
                if suf.len() <= 1 {
                    assert(squeeze(suf) == suf);
                    assert(suf =~= seq![s@[i as int]] + squeeze(suf.skip(1)));
                } else {
                    assert(squeeze(suf) == seq![s@[i as int]] + squeeze(suf.skip(1)));
                }
            }
        }
        if !drop_this {
            let piece = s.substring_char(i, i + 1);
            proof {
                assert(piece@ =~= seq![s@[i as int]]);
            }
            out.append(piece);
        }
        i = i + 1;
    }
    proof {
        assert(s@.skip(n as int) =~= Seq::<char>::empty());
        assert(squeeze(s@) =~= out@);
    }
    out
}

/// Drops leading and trailing spaces: `r@ == trim_end(trim_start(s@))`.
fn trim_str(s: &str) -> (r: String)
    ensures
        r@ == trim_end(trim_start(s@)),
{
    let n = s.unicode_len();
    let mut lo: usize = 0;
    while lo < n && s.get_char(lo) == ' '
        invariant
            n == s@.len(),
            0 <= lo <= n,
            forall|j: int| 0 <= j < lo ==> s@[j] == ' ',
        decreases n - lo,
    {
        lo = lo + 1;
    }
    proof {
        lemma_trim_start_skip(s@, lo as int);
    }
    if lo == n {
        proof {
            assert(s@.skip(n as int) =~= Seq::<char>::empty());
            assert(trim_end(Seq::<char>::empty()) == Seq::<char>::empty());
        }
        return String::new();
    }
    let mut hi: usize = n;
    while hi > lo + 1 && s.get_char(hi - 1) == ' '
        invariant
            n == s@.len(),
            lo < n,
            s@[lo as int] != ' ',
            lo + 1 <= hi <= n,
            forall|j: int| hi <= j < n ==> s@[j] == ' ',
        decreases hi,
    {
        hi = hi - 1;
    }
    proof {
        let t = s@.skip(lo as int);
        if s@[hi - 1] == ' ' {
            assert(hi == lo + 1);
            assert(false);
        }
        assert forall|j: int| hi - lo <= j < t.len() implies t[j] == ' ' by {
            assert(t[j] == s@[lo + j]);
        }
        assert(t[hi - lo - 1] == s@[hi - 1]);
        lemma_trim_end_take(t, hi - lo);
    }
    let r = s.substring_char(lo, hi);
    proof {
        assert(s@.skip(lo as int).take(hi - lo) =~= s@.subrange(lo as int, hi as int));
    }
    r.to_owned()
}

/// Whitespace normalization, executed: `r@ == normalize_space(s@)`.
pub fn normalize_space_str(s: &str) -> (r: String)
    ensures
        r@ == normalize_space(s@),
{
    let mapped = space_map_str(s);
    let squeezed = squeeze_str(mapped.as_str());
    trim_str(squeezed.as_str())
}

/// Produces the cleaned version of `text` with every matched link removed
/// and whitespace normalized: `r@ == rewrite_spec(text@, pats.deep_view())`.
pub fn rewrite(text: &str, pats: &Vec<String>) -> (r: String)
    ensures
        r@ == rewrite_spec(text@, pats.deep_view()),
{
    let stripped = remove_list_str(text, pats);
    normalize_space_str(stripped.as_str())
}

/// A pattern that holds no whitespace character (true of every URL).
pub open spec fn space_free(p: Seq<char>) -> bool {
    forall|j: int| 0 <= j < p.len() ==> !is_space_char(p[j])
}

/// A match of `p` in `s.skip(1)` is a match in `s`, one position later.
proof fn lemma_matches_unshift(s: Seq<char>, p: Seq<char>, k: int)
    requires
        matches_at(s.skip(1), p, k),
        s.len() >= 1,
    ensures
        matches_at(s, p, k + 1),
{
    assert forall|j: int| 0 <= j < p.len() implies s[k + 1 + j] == p[j] by {
        assert(s.skip(1)[k + j] == p[j]);
    }
}

/// Mapping whitespace to plain spaces cannot introduce a whitespace-free
/// pattern.
proof fn lemma_space_map_contains(s: Seq<char>, p: Seq<char>)
    requires
        space_free(p),
        contains_seq(space_mapped(s), p),
    ensures
        contains_seq(s, p),
{
    let i = choose|i: int| matches_at(space_mapped(s), p, i);
    assert forall|j: int| 0 <= j < p.len() implies s[i + j] == p[j] by {
        assert(space_mapped(s)[i + j] == p[j]);
        assert(!is_space_char(p[j]));
        assert(!is_space_char(' ') ==> false);
    }
    assert(matches_at(s, p, i));
}

/// Squeezing keeps the first character.
proof fn lemma_squeeze_first(s: Seq<char>)
    requires
        s.len() > 0,
    ensures
        squeeze(s).len() > 0,
        squeeze(s)[0] == s[0],
    decreases s.len(),
{
    if s.len() <= 1 {
    } else if s[0] == ' ' && s[1] == ' ' {
        lemma_squeeze_first(s.skip(1));
    } else {
    }
}

/// A whitespace-free pattern at the front of the squeezed text stands at
/// the front of the text itself.
proof fn lemma_squeeze_front(s: Seq<char>, p: Seq<char>)
    requires
        p.len() > 0,
        space_free(p),
        starts_with(squeeze(s), p),
    ensures
        starts_with(s, p),
    decreases s.len(),
{
    assert(!is_space_char(p[0]));
    if s.len() <= 1 {
    } else if s[0] == ' ' && s[1] == ' ' {
        lemma_squeeze_first(s);
        assert(p[0] == squeeze(s)[0]);
        assert(false);
    } else {
        assert(squeeze(s) == seq![s[0]] + squeeze(s.skip(1)));
        assert(p[0] == squeeze(s)[0]);
        assert(squeeze(s)[0] == s[0]);
        if p.len() == 1 {
            assert(matches_at(s, p, 0));
        } else {
            let p1 = p.skip(1);
            assert forall|j: int| 0 <= j < p1.len() implies squeeze(s.skip(1))[j] == p1[j] by {
                assert(squeeze(s)[1 + j] == p[1 + j]);
                assert(squeeze(s)[1 + j] == squeeze(s.skip(1))[j]);
            }
            assert(starts_with(squeeze(s.skip(1)), p1));
            lemma_squeeze_front(s.skip(1), p1);
            assert forall|j: int| 0 <= j < p.len() implies s[j] == p[j] by {
                if j >= 1 {
                    assert(s.skip(1)[j - 1] == p1[j - 1]);
                }
            }
        }
    }
}

/// Squeezing runs of spaces cannot introduce a whitespace-free pattern.
proof fn lemma_squeeze_contains(s: Seq<char>, p: Seq<char>)
    requires
        p.len() > 0,
        space_free(p),
        contains_seq(squeeze(s), p),
    ensures
        contains_seq(s, p),
    decreases s.len(),
{
    let i = choose|i: int| matches_at(squeeze(s), p, i);
    if s.len() <= 1 {
        assert(matches_at(s, p, i));
    } else if s[0] == ' ' && s[1] == ' ' {
        lemma_squeeze_contains(s.skip(1), p);
        let k = choose|k: int| matches_at(s.skip(1), p, k);
        lemma_matches_unshift(s, p, k);
    } else {
        assert(squeeze(s) == seq![s[0]] + squeeze(s.skip(1)));
        if i == 0 {
            lemma_squeeze_front(s, p);
        } else {
            assert forall|j: int| 0 <= j < p.len() implies squeeze(s.skip(1))[i - 1 + j] == p[j] by {
                assert(squeeze(s)[i + j] == p[j]);
            }
            assert(matches_at(squeeze(s.skip(1)), p, i - 1));
            lemma_squeeze_contains(s.skip(1), p);
            let k = choose|k: int| matches_at(s.skip(1), p, k);
            lemma_matches_unshift(s, p, k);
        }
    }
}

/// Trimming the front cannot introduce a pattern.
proof fn lemma_trim_start_contains(s: Seq<char>, p: Seq<char>)
    requires
        contains_seq(trim_start(s), p),
    ensures
        contains_seq(s, p),
    decreases s.len(),
{
    if s.len() > 0 && s[0] == ' ' {
        lemma_trim_start_contains(s.skip(1), p);
        let k = choose|k: int| matches_at(s.skip(1), p, k);
        lemma_matches_unshift(s, p, k);
    }
}

/// Trimming the back cannot introduce a pattern.
proof fn lemma_trim_end_contains(s: Seq<char>, p: Seq<char>)
    requires
        contains_seq(trim_end(s), p),
    ensures
        contains_seq(s, p),
    decreases s.len(),
{
    if s.len() > 0 && s[s.len() - 1] == ' ' {
        let t = s.take(s.len() - 1);
        lemma_trim_end_contains(t, p);
        let k = choose|k: int| matches_at(t, p, k);
        assert forall|j: int| 0 <= j < p.len() implies s[k + j] == p[j] by {
            assert(t[k + j] == p[j]);
        }
        assert(matches_at(s, p, k));
    }
}

/// Whitespace normalization cannot introduce an occurrence of a
/// whitespace-free pattern that the text did not hold.
pub proof fn lemma_normalize_preserves_absence(s: Seq<char>, p: Seq<char>)
    requires
        p.len() > 0,
        space_free(p),
        !contains_seq(s, p),
    ensures
        !contains_seq(normalize_space(s), p),
{
    if contains_seq(normalize_space(s), p) {
        lemma_trim_end_contains(trim_start(squeeze(space_mapped(s))), p);
        lemma_trim_start_contains(squeeze(space_mapped(s)), p);
        lemma_squeeze_contains(space_mapped(s), p);
        lemma_space_map_contains(s, p);
    }
}

/// The rewritten text holds no occurrence of any matched link: removal is
/// exhaustive, and normalization cannot reassemble a whitespace-free
/// pattern.
pub proof fn lemma_rewrite_removes_every_occurrence(text: Seq<char>, pats: Seq<Seq<char>>, i: int)
    requires
        0 <= i < pats.len(),
        pats[i].len() > 0,
        space_free(pats[i]),
    ensures
        !contains_seq(rewrite_spec(text, pats), pats[i]),
{
    lemma_remove_list_complete(text, pats);
    lemma_normalize_preserves_absence(remove_list(text, pats), pats[i]);
}

/// With no matched links, rewriting is exactly whitespace normalization:
/// collapsing runs of whitespace to single spaces and trimming the ends.
pub proof fn lemma_rewrite_no_links(text: Seq<char>)
    ensures
        rewrite_spec(text, Seq::<Seq<char>>::empty()) == normalize_space(text),
{
    assert(remove_list_pass(text, Seq::<Seq<char>>::empty()) == text);
}

/// The only whitespace character of `t` is the plain space.
pub open spec fn only_plain_spaces(t: Seq<char>) -> bool {
    forall|j: int| 0 <= j < t.len() && is_space_char(t[j]) ==> t[j] == ' '
}

/// No two adjacent spaces in `t`.
pub open spec fn no_double_spaces(t: Seq<char>) -> bool {
    forall|j: int| 0 <= j < t.len() - 1 ==> !((#[trigger] t[j]) == ' ' && t[j + 1] == ' ')
}

/// Mapping whitespace to plain spaces leaves only plain spaces.
proof fn lemma_space_mapped_only_plain(s: Seq<char>)
    ensures
        only_plain_spaces(space_mapped(s)),
{
    assert forall|j: int|
        0 <= j < space_mapped(s).len() && is_space_char(space_mapped(s)[j]) implies space_mapped(
        s,
    )[j] == ' ' by {
        assert(space_mapped(s)[j] == (if is_space_char(s[j]) {
            ' '
        } else {
            s[j]
        }));
    }
}

/// `only_plain_spaces` restricts to the tail.
proof fn lemma_only_plain_skip(s: Seq<char>)
    requires
        only_plain_spaces(s),
        s.len() >= 1,
    ensures
        only_plain_spaces(s.skip(1)),
{
    assert forall|j: int|
        0 <= j < s.skip(1).len() && is_space_char(s.skip(1)[j]) implies s.skip(1)[j] == ' ' by {
        assert(s.skip(1)[j] == s[j + 1]);
    }
}

/// `no_double_spaces` restricts to the tail.
proof fn lemma_no_double_skip(s: Seq<char>)
    requires
        no_double_spaces(s),
        s.len() >= 1,
    ensures
        no_double_spaces(s.skip(1)),
{
    assert forall|j: int|
        0 <= j < s.skip(1).len() - 1 implies !((#[trigger] s.skip(1)[j]) == ' ' && s.skip(1)[j + 1]
        == ' ') by {
        assert(s.skip(1)[j] == s[j + 1]);
        assert(s.skip(1)[j + 1] == s[j + 2]);
    }
}

/// Squeezing keeps only characters of the text, so only plain spaces
/// remain plain, and it leaves no two adjacent spaces.
proof fn lemma_squeeze_shape(s: Seq<char>)
    requires
        only_plain_spaces(s),
    ensures
        only_plain_spaces(squeeze(s)),
        no_double_spaces(squeeze(s)),
    decreases s.len(),
{
    if s.len() <= 1 {
    } else if s[0] == ' ' && s[1] == ' ' {
        lemma_only_plain_skip(s);
        lemma_squeeze_shape(s.skip(1));
    } else {
        lemma_only_plain_skip(s);
        lemma_squeeze_shape(s.skip(1));
        let t = squeeze(s);
        assert(t == seq![s[0]] + squeeze(s.skip(1)));
        assert forall|j: int| 0 <= j < t.len() && is_space_char(t[j]) implies t[j] == ' ' by {
            if j >= 1 {
                assert(t[j] == squeeze(s.skip(1))[j - 1]);
            }
        }
        assert forall|j: int| 0 <= j < t.len() - 1 implies !((#[trigger] t[j]) == ' ' && t[j + 1] == ' ') by {
            if j == 0 {
                if t.len() >= 2 {
                    lemma_squeeze_first(s.skip(1));
                    assert(t[1] == squeeze(s.skip(1))[0]);
                    assert(squeeze(s.skip(1))[0] == s[1]);
                }
            } else {
                assert(t[j] == squeeze(s.skip(1))[j - 1]);
                assert(t[j + 1] == squeeze(s.skip(1))[j]);
            }
        }
    }
}

/// Trimming the front of a text leaves one that does not start with a
/// space and whose spacing shape is kept.
proof fn lemma_trim_start_shape(s: Seq<char>)
    ensures
        trim_start(s).len() > 0 ==> trim_start(s)[0] != ' ',
        only_plain_spaces(s) ==> only_plain_spaces(trim_start(s)),
        no_double_spaces(s) ==> no_double_spaces(trim_start(s)),
        trim_start(s).len() > 0 ==> trim_start(s).last() == s.last(),
    decreases s.len(),
{
    if s.len() > 0 && s[0] == ' ' {
        if only_plain_spaces(s) {
            lemma_only_plain_skip(s);
        }
        if no_double_spaces(s) {
            lemma_no_double_skip(s);
        }
        lemma_trim_start_shape(s.skip(1));
        if trim_start(s).len() > 0 {
            assert(s.skip(1).last() == s.last());
        }
    }
}

/// Trimming the back of a text leaves one that does not end with a
/// space and whose spacing shape and first character are kept.
proof fn lemma_trim_end_shape(s: Seq<char>)
    ensures
        trim_end(s).len() > 0 ==> trim_end(s).last() != ' ',
        only_plain_spaces(s) ==> only_plain_spaces(trim_end(s)),
        no_double_spaces(s) ==> no_double_spaces(trim_end(s)),
        trim_end(s).len() > 0 ==> trim_end(s)[0] == s[0],
    decreases s.len(),
{
    if s.len() > 0 && s[s.len() - 1] == ' ' {
        let t = s.take(s.len() - 1);
        if only_plain_spaces(s) {
            assert forall|j: int|
                0 <= j < t.len() && is_space_char(t[j]) implies t[j] == ' ' by {
                assert(t[j] == s[j]);
            }
        }
        if no_double_spaces(s) {
            assert forall|j: int|
                0 <= j < t.len() - 1 implies !((#[trigger] t[j]) == ' ' && t[j + 1] == ' ') by {
                assert(t[j] == s[j]);
                assert(t[j + 1] == s[j + 1]);
            }
        }
        lemma_trim_end_shape(t);
        if trim_end(s).len() > 0 {
            assert(t[0] == s[0]);
        }
    }
}

/// A text with only plain spaces is a fixpoint of the whitespace map.
proof fn lemma_space_mapped_fixpoint(t: Seq<char>)
    requires
        only_plain_spaces(t),
    ensures
        space_mapped(t) == t,
{
    assert(space_mapped(t) =~= t);
}

/// A text without adjacent spaces is a fixpoint of squeezing.
proof fn lemma_squeeze_fixpoint(t: Seq<char>)
    requires
        no_double_spaces(t),
    ensures
        squeeze(t) == t,
    decreases t.len(),
{
    if t.len() <= 1 {
    } else {
        assert(!(t[0] == ' ' && t[1] == ' '));
        lemma_no_double_skip(t);
        lemma_squeeze_fixpoint(t.skip(1));
        assert(squeeze(t) =~= t);
    }
}

/// Whitespace normalization is idempotent: normalizing an already
/// normalized text changes nothing.
pub proof fn lemma_normalize_idempotent(s: Seq<char>)
    ensures
        normalize_space(normalize_space(s)) == normalize_space(s),
{
    let m = space_mapped(s);
    let q = squeeze(m);
    let u = trim_start(q);
    let t = trim_end(u);
    lemma_space_mapped_only_plain(s);
    lemma_squeeze_shape(m);
    lemma_trim_start_shape(q);
    lemma_trim_end_shape(u);
    lemma_space_mapped_fixpoint(t);
    lemma_squeeze_fixpoint(t);
    if t.len() > 0 {
        assert(t[0] == u[0]);
        assert(t[0] != ' ');
    }
    assert(trim_start(t) == t);
    assert(trim_end(trim_start(t)) == t);
}

/// With no matched links, rewriting is idempotent: a second rewrite of
/// the cleaned text gives it back unchanged.
pub proof fn lemma_rewrite_no_links_idempotent(text: Seq<char>)
    ensures
        rewrite_spec(
            rewrite_spec(text, Seq::<Seq<char>>::empty()),
            Seq::<Seq<char>>::empty(),
        ) == rewrite_spec(text, Seq::<Seq<char>>::empty()),
{
    lemma_rewrite_no_links(text);
    lemma_rewrite_no_links(normalize_space(text));
    lemma_normalize_idempotent(text);
}

} // verus!
