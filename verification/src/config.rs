//! Configuration values, as the environment supplies them: the required
//! destination channel identifier, the grace delay (malformed values fall
//! back to the default rather than failing startup), and the
//! semicolon-separated domain and media-type lists. Reading the
//! environment is the application's business; the parsing is here.

use vstd::prelude::*;

use crate::text::{split_head, split_tail};

verus! {

/// A decimal digit character.
pub open spec fn is_digit_char(c: char) -> bool {
    '0' <= c && c <= '9'
}

/// The numeric value of a digit character (zero when out of range).
pub open spec fn digit_val(c: char) -> nat {
    if is_digit_char(c) {
        (c as int - '0' as int) as nat
    } else {
        0
    }
}

/// Every character of `s` is a decimal digit.
pub open spec fn all_digits(s: Seq<char>) -> bool {
    forall|j: int| 0 <= j < s.len() ==> is_digit_char(s[j])
}

/// The value of a decimal digit string, most significant digit first.
pub open spec fn dec_value(s: Seq<char>) -> nat
    decreases s.len(),
{
    if s.len() == 0 {
        0
    } else {
        dec_value(s.drop_last()) * 10 + digit_val(s.last())
    }
}

/// A longer digit prefix never has a smaller value.
proof fn lemma_dec_value_prefix(s: Seq<char>, i: int)
    requires
        0 <= i <= s.len(),
    ensures
        dec_value(s.take(i)) <= dec_value(s),
    decreases s.len() - i,
{
    if i == s.len() {
        assert(s.take(i) =~= s);
    } else {
        assert(s.take(i + 1).drop_last() =~= s.take(i));
        assert(s.take(i + 1).last() == s[i]);
        assert(dec_value(s.take(i + 1)) == dec_value(s.take(i)) * 10 + digit_val(s[i]));
        lemma_dec_value_prefix(s, i + 1);
    }
}

/// Parses a decimal unsigned integer. Returns the value iff the text is
/// a non-empty all-digit string whose value fits; returns nothing for an
/// empty text, a non-digit character, or a value too large.
pub fn parse_u64_dec(s: &str) -> (r: Option<u64>)
    ensures
        match r {
            Option::Some(v) => {
                &&& s@.len() > 0
                &&& all_digits(s@)
                &&& v == dec_value(s@)
            },
            Option::None => s@.len() == 0 || !all_digits(s@) || dec_value(s@) > u64::MAX,
        },
{
    let n = s.unicode_len();
    if n == 0 {
        return Option::None;
    }
    let mut value: u64 = 0;
    let mut i: usize = 0;
    proof {
        assert(s@.take(0) =~= Seq::<char>::empty());
    }
    while i < n
        invariant
            n == s@.len(),
            0 <= i <= n,
            forall|j: int| 0 <= j < i ==> is_digit_char(s@[j]),
            value == dec_value(s@.take(i as int)),
        decreases n - i,
    {
        let c = s.get_char(i);
        if !('0' <= c && c <= '9') {
            return Option::None;
        }
        let d: u64 = (c as u32 - '0' as u32) as u64;
        proof {
            assert(d == digit_val(s@[i as int]));
        }
        if value > (u64::MAX - d) / 10 {
            proof {
                assert(value * 10 + d > u64::MAX) by {
                    assert(value >= (u64::MAX - d) / 10 + 1);
                    assert(((u64::MAX - d) / 10 + 1) * 10 == ((u64::MAX - d) / 10) * 10 + 10);
                    assert(((u64::MAX - d) / 10) * 10 + 10 > u64::MAX - d);
                }
                assert(s@.take(i + 1).drop_last() =~= s@.take(i as int));
                assert(s@.take(i + 1).last() == s@[i as int]);
                assert(dec_value(s@.take(i + 1)) > u64::MAX);
                lemma_dec_value_prefix(s@, i + 1);
            }
            return Option::None;
        }
        proof {
            assert(value <= (u64::MAX - d) / 10);
            assert(value * 10 <= ((u64::MAX - d) / 10) * 10);
            assert(((u64::MAX - d) / 10) * 10 <= u64::MAX - d);
            assert(s@.take(i + 1).drop_last() =~= s@.take(i as int));
            assert(s@.take(i + 1).last() == s@[i as int]);
        }
        value = value * 10 + d;
        i = i + 1;
    }
    proof {
        assert(s@.take(n as int) =~= s@);
    }
    Option::Some(value)
}

/// The non-empty fields of a `sep`-separated list, in order. An empty
/// field (a doubled or trailing separator) is dropped: an empty entry in
/// the domain allow-list would match every URL.
pub open spec fn fields_spec(s: Seq<char>, sep: char) -> Seq<Seq<char>>
    decreases s.len(),
{
    if s.len() == 0 {
        Seq::<Seq<char>>::empty()
    } else {
        let head = split_head(s, sep);
        let tail = split_tail(s, sep);
        let rest = if tail.len() < s.len() {
            fields_spec(tail, sep)
        } else {
            Seq::<Seq<char>>::empty()
        };
        if head.len() > 0 {
            seq![head] + rest
        } else {
            rest
        }
    }
}

/// Splits a semicolon-separated list into its non-empty fields.
pub fn split_list(s: &str) -> (r: Vec<String>)
    ensures
        r.deep_view() == fields_spec(s@, ';'),
{
    let n = s.unicode_len();
    let mut out: Vec<String> = Vec::new();
    let mut i: usize = 0;
    proof {
        assert(s@.skip(0) =~= s@);
        assert(out.deep_view() + fields_spec(s@, ';') =~= fields_spec(s@, ';'));
    }
    while i < n
        invariant
            n == s@.len(),
            0 <= i <= n,
            fields_spec(s@, ';') == out.deep_view() + fields_spec(s@.skip(i as int), ';'),
        decreases n - i,
    {
        let mut k: usize = i;
        while k < n && s.get_char(k) != ';'
            invariant
                n == s@.len(),
                i <= k <= n,
                forall|j: int| i <= j < k ==> s@[j] != ';',
            decreases n - k,
        {
            k = k + 1;
        }
        let ghost suf = s@.skip(i as int);
        proof {
            assert(suf.len() == n - i);
            assert forall|j: int| 0 <= j < k - i implies suf[j] != ';' by {
                assert(s@[i + j] != ';');
            }
            if k < n {
                assert(suf[k - i] == s@[k as int]);
            }
            crate::text::lemma_split_at(suf, ';', k - i);
            assert(suf.take(k - i) =~= s@.subrange(i as int, k as int));
        }
        let ghost prev = out.deep_view();
        if k > i {
            let field = s.substring_char(i, k);
            out.push(field.to_owned());
            proof {
                assert(out.deep_view() =~= prev + seq![split_head(suf, ';')]);
            }
        }
        proof {
            let rest = split_tail(suf, ';');
            if k < n {
                assert(rest =~= s@.skip(k + 1));
                assert(rest.len() < suf.len());
            } else {
                assert(rest =~= Seq::<char>::empty());
                assert(rest.len() < suf.len());
                assert(fields_spec(rest, ';') =~= Seq::<Seq<char>>::empty());
            }
            if k > i {
                assert(fields_spec(suf, ';') == seq![split_head(suf, ';')] + fields_spec(
                    rest,
                    ';',
                ));
                assert(prev + (seq![split_head(suf, ';')] + fields_spec(rest, ';')) =~= (prev
                    + seq![split_head(suf, ';')]) + fields_spec(rest, ';'));
            } else {
                assert(split_head(suf, ';').len() == 0);
                assert(fields_spec(suf, ';') == fields_spec(rest, ';'));
            }
        }
        if k == n {
            proof {
                assert(out.deep_view() + fields_spec(split_tail(suf, ';'), ';') =~= out.deep_view());
            }
            return out;
        }
        i = k + 1;
    }
    proof {
        assert(s@.skip(n as int) =~= Seq::<char>::empty());
        assert(out.deep_view() + fields_spec(Seq::<char>::empty(), ';') =~= out.deep_view());
    }
    out
}

/// The default grace delay before relocation, in milliseconds (ten
/// seconds).
pub open spec fn default_grace_millis() -> u64 {
    10000
}

/// The grace delay from the configured value, in milliseconds. The value
/// is whole seconds; an absent, malformed or oversized value falls back
/// to the default rather than failing startup.
pub fn grace_millis_from_value(v: &Option<String>) -> (r: u64)
    ensures
        match v {
            Option::Some(s) => {
                if s@.len() > 0 && all_digits(s@) && dec_value(s@) * 1000 <= u64::MAX {
                    r == dec_value(s@) * 1000
                } else {
                    r == default_grace_millis()
                }
            },
            Option::None => r == default_grace_millis(),
        },
{
    match v {
        Option::Some(s) => match parse_u64_dec(s.as_str()) {
            Option::Some(secs) => {
                if secs <= u64::MAX / 1000 {
                    proof {
                        assert(secs * 1000 <= (u64::MAX / 1000) * 1000);
                    }
                    secs * 1000
                } else {
                    proof {
                        assert(secs >= u64::MAX / 1000 + 1);
                        assert((u64::MAX / 1000 + 1) * 1000 == (u64::MAX / 1000) * 1000 + 1000);
                        assert(secs * 1000 >= (u64::MAX / 1000 + 1) * 1000);
                    }
                    10000
                }
            },
            Option::None => 10000,
        },
        Option::None => 10000,
    }
}

/// The destination channel identifier from the configured value: the
/// parsed identifier, or nothing when the value is absent or invalid
/// (which is fatal at startup, the caller's business).
pub fn dest_channel_from_value(v: &Option<String>) -> (r: Option<u64>)
    ensures
        match v {
            Option::Some(s) => r == parse_u64_result(s@),
            Option::None => r is None,
        },
{
    match v {
        Option::Some(s) => parse_u64_dec(s.as_str()),
        Option::None => Option::None,
    }
}

/// What decimal parsing yields for `s`.
pub open spec fn parse_u64_result(s: Seq<char>) -> Option<u64> {
    if s.len() > 0 && all_digits(s) && dec_value(s) <= u64::MAX {
        Option::Some(dec_value(s) as u64)
    } else {
        Option::None
    }
}

/// The domain allow-list from the configured value: its non-empty
/// semicolon-separated fields, or the default pair of gif-hosting
/// domains when the value is absent.
pub fn domains_from_value(v: &Option<String>) -> (r: Vec<String>)
    ensures
        match v {
            Option::Some(s) => r.deep_view() == fields_spec(s@, ';'),
            Option::None => r.deep_view() =~= seq!["tenor.com"@, "giphy.com"@],
        },
{
    match v {
        Option::Some(s) => split_list(s.as_str()),
        Option::None => {
            let mut r: Vec<String> = Vec::new();
            r.push("tenor.com".to_owned());
            r.push("giphy.com".to_owned());
            proof {
                assert(r.deep_view() =~= seq!["tenor.com"@, "giphy.com"@]);
            }
            r
        },
    }
}

} // verus!
