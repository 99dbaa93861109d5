//! Byte-string helpers for variable keys: substring search, decimal numbers
//! and the integer pattern.
use vstd::prelude::*;

verus! {

/// `needle` occurs in `haystack` at position `i`.
pub open spec fn occurs_at(haystack: Seq<u8>, needle: Seq<u8>, i: int) -> bool {
    0 <= i && i + needle.len() <= haystack.len() && haystack.subrange(i, i + needle.len()) == needle
}

/// `needle` occurs somewhere in `haystack`.
pub open spec fn occurs_in(haystack: Seq<u8>, needle: Seq<u8>) -> bool {
    exists|i: int| occurs_at(haystack, needle, i)
}

/// The position of the first occurrence of `needle` in `haystack`.
#[verifier::opaque]
pub open spec fn first_occurrence(haystack: Seq<u8>, needle: Seq<u8>) -> Option<int> {
    if occurs_in(haystack, needle) {
        Some(choose|i: int| occurs_at(haystack, needle, i) && forall|j: int| 0 <= j < i ==> !occurs_at(haystack, needle, j))
    } else {
        None
    }
}

/// `memchr::memmem::find`: the index of the first occurrence of `needle` in
/// `haystack`, `None` when there is none. Claimed as its documentation gives it.
pub assume_specification[ memchr::memmem::find ](haystack: &[u8], needle: &[u8]) -> (r: Option<usize>)
    ensures
        match r {
            Some(i) => occurs_at(haystack@, needle@, i as int)
                && forall|j: int| 0 <= j < i ==> !occurs_at(haystack@, needle@, j),
            None => !occurs_in(haystack@, needle@),
        },
;

/// A first occurrence is the only position that is an occurrence with none before it.
proof fn lemma_first_occurrence(haystack: Seq<u8>, needle: Seq<u8>, i: int)
    requires
        occurs_at(haystack, needle, i),
        forall|j: int| 0 <= j < i ==> !occurs_at(haystack, needle, j),
    ensures
        first_occurrence(haystack, needle) == Some(i),
{
    reveal(first_occurrence);
    let c = choose|k: int| occurs_at(haystack, needle, k) && forall|j: int| 0 <= j < k ==> !occurs_at(haystack, needle, j);
    assert(occurs_at(haystack, needle, c) && forall|j: int| 0 <= j < c ==> !occurs_at(haystack, needle, j));
    if c < i {
        assert(!occurs_at(haystack, needle, c));
    } else if c > i {
        assert(!occurs_at(haystack, needle, i));
    }
}

/// The first position of `needle` in `haystack`.
pub fn find_bytes(haystack: &[u8], needle: &[u8]) -> (r: Option<usize>)
    ensures
        match r {
            Some(i) => first_occurrence(haystack@, needle@) == Some(i as int) && occurs_at(haystack@, needle@, i as int),
            None => first_occurrence(haystack@, needle@) is None,
        },
{
    let r = memchr::memmem::find(haystack, needle);
    proof {
        if let Some(i) = r {
            lemma_first_occurrence(haystack@, needle@, i as int);
        } else {
            reveal(first_occurrence);
        }
    }
    r
}

/// Whether `needle` occurs in `haystack`.
pub fn contains_bytes(haystack: &[u8], needle: &[u8]) -> (r: bool)
    ensures
        r == occurs_in(haystack@, needle@),
{
    memchr::memmem::find(haystack, needle).is_some()
}

/// Whether the byte `b` occurs in `s`.
pub fn contains_byte(s: &[u8], b: u8) -> (r: bool)
    ensures
        r == s@.contains(b),
{
    let mut k: usize = 0;
    while k < s.len()
        invariant
            k <= s@.len(),
            forall|i: int| 0 <= i < k ==> s@[i] != b,
        decreases s.len() - k,
    {
        if s[k] == b {
            return true;
        }
        k += 1;
    }
    false
}

/// `s` begins with `prefix`.
pub open spec fn has_prefix(s: Seq<u8>, prefix: Seq<u8>) -> bool {
    prefix.len() <= s.len() && s.subrange(0, prefix.len() as int) == prefix
}

/// `s` ends with `suffix`.
pub open spec fn has_suffix(s: Seq<u8>, suffix: Seq<u8>) -> bool {
    suffix.len() <= s.len() && s.subrange(s.len() - suffix.len(), s.len() as int) == suffix
}

/// Whether `s` begins with `prefix`.
pub fn starts_with(s: &[u8], prefix: &[u8]) -> (r: bool)
    ensures
        r == has_prefix(s@, prefix@),
{
    if prefix.len() > s.len() {
        return false;
    }
    let mut k: usize = 0;
    while k < prefix.len()
        invariant
            prefix@.len() <= s@.len(),
            k <= prefix@.len(),
            forall|i: int| 0 <= i < k ==> s@[i] == prefix@[i],
        decreases prefix.len() - k,
    {
        if s[k] != prefix[k] {
            assert(s@.subrange(0, prefix@.len() as int)[k as int] != prefix@[k as int]);
            return false;
        }
        k += 1;
    }
    assert(s@.subrange(0, prefix@.len() as int) =~= prefix@);
    true
}

/// Whether `s` ends with `suffix`.
pub fn ends_with(s: &[u8], suffix: &[u8]) -> (r: bool)
    ensures
        r == has_suffix(s@, suffix@),
{
    if suffix.len() > s.len() {
        return false;
    }
    let offset = s.len() - suffix.len();
    let mut k: usize = 0;
    while k < suffix.len()
        invariant
            suffix@.len() <= s@.len(),
            offset + suffix@.len() == s@.len(),
            offset <= s.len(),
            k <= suffix@.len(),
            forall|i: int| 0 <= i < k ==> s@[offset + i] == suffix@[i],
        decreases suffix.len() - k,
    {
        if s[offset + k] != suffix[k] {
            assert(s@.subrange(offset as int, s@.len() as int)[k as int] != suffix@[k as int]);
            return false;
        }
        k += 1;
    }
    assert(s@.subrange(offset as int, s@.len() as int) =~= suffix@);
    true
}

/// An ASCII decimal digit.
pub open spec fn is_digit(b: u8) -> bool {
    48 <= b <= 57
}

/// One or more ASCII decimal digits.
pub open spec fn all_digits(s: Seq<u8>) -> bool {
    s.len() > 0 && forall|i: int| 0 <= i < s.len() ==> is_digit(#[trigger] s[i])
}

/// The value of a string of decimal digits.
pub open spec fn digits_value(s: Seq<u8>) -> nat
    decreases s.len(),
{
    if s.len() == 0 {
        0
    } else {
        digits_value(s.drop_last()) * 10 + (s.last() - 48) as nat
    }
}

/// What `str::parse::<usize>` gives: an optional `+` and one or more digits
/// whose value fits.
pub open spec fn spec_parse_usize(s: Seq<u8>) -> Option<usize> {
    let digits = if s.len() > 0 && s[0] == 43 { s.drop_first() } else { s };
    if all_digits(digits) && digits_value(digits) <= usize::MAX {
        Some(digits_value(digits) as usize)
    } else {
        None
    }
}

/// What `str::parse::<i64>` gives: an optional `+` or `-` and one or more
/// digits whose value fits.
pub open spec fn spec_parse_i64(s: Seq<u8>) -> Option<i64> {
    if s.len() > 0 && s[0] == 45 {
        let digits = s.drop_first();
        if all_digits(digits) && digits_value(digits) <= 0x8000_0000_0000_0000 {
            Some((0 - digits_value(digits)) as i64)
        } else {
            None
        }
    } else {
        let digits = if s.len() > 0 && s[0] == 43 { s.drop_first() } else { s };
        if all_digits(digits) && digits_value(digits) <= i64::MAX {
            Some(digits_value(digits) as i64)
        } else {
            None
        }
    }
}

proof fn lemma_digits_value_step(s: Seq<u8>, k: int)
    requires
        0 <= k < s.len(),
    ensures
        digits_value(s.subrange(0, k + 1)) == digits_value(s.subrange(0, k)) * 10 + (s[k] - 48) as nat,
{
    assert(s.subrange(0, k + 1).drop_last() =~= s.subrange(0, k));
}

proof fn lemma_digits_value_grows(s: Seq<u8>, k: int)
    requires
        0 <= k <= s.len(),
        forall|i: int| 0 <= i < s.len() ==> is_digit(#[trigger] s[i]),
    ensures
        digits_value(s.subrange(0, k)) <= digits_value(s),
    decreases s.len() - k,
{
    if k < s.len() {
        lemma_digits_value_step(s, k);
        lemma_digits_value_grows(s, k + 1);
    } else {
        assert(s.subrange(0, k) =~= s);
    }
}

/// The value of the digits of `s` from `start` on, `None` when there are none,
/// when another byte occurs, or when the value exceeds `limit`.
fn digits_up_to(s: &[u8], start: usize, limit: u64) -> (r: Option<u64>)
    requires
        start <= s@.len(),
        limit >= 9,
    ensures
        match r {
            Some(v) => all_digits(s@.skip(start as int)) && digits_value(s@.skip(start as int)) == v && v <= limit,
            None => !(all_digits(s@.skip(start as int)) && digits_value(s@.skip(start as int)) <= limit),
        },
{
    let ghost digits = s@.skip(start as int);
    if start == s.len() {
        return None;
    }
    let mut value: u64 = 0;
    let mut k: usize = start;
    while k < s.len()
        invariant
            start <= k <= s@.len(),
            digits == s@.skip(start as int),
            forall|i: int| start <= i < k ==> is_digit(#[trigger] s@[i]),
            value == digits_value(digits.subrange(0, k - start)),
            value <= limit,
            limit >= 9,
        decreases s.len() - k,
    {
        let b = s[k];
        if b < 48 || b > 57 {
            assert(digits[k - start] == b);
            return None;
        }
        proof {
            lemma_digits_value_step(digits, k - start);
        }
        let d = (b - 48) as u64;
        if value > (limit - d) / 10 {
            proof {
                assert(value * 10 + d > limit) by (nonlinear_arith)
                    requires
                        value > (limit - d) / 10,
                        d <= limit || d > limit,
                        d <= 9;
                if all_digits(digits) {
                    lemma_digits_value_grows(digits, k + 1 - start);
                }
            }
            return None;
        }
        value = value * 10 + d;
        k += 1;
    }
    proof {
        assert(digits.subrange(0, k - start) =~= digits);
        assert forall|i: int| 0 <= i < digits.len() implies is_digit(#[trigger] digits[i]) by {
            assert(digits[i] == s@[start + i]);
        };
    }
    Some(value)
}

/// Parses a decimal `usize` as `str::parse::<usize>` does.
pub fn parse_usize(s: &[u8]) -> (r: Option<usize>)
    ensures
        r == spec_parse_usize(s@),
{
    let start: usize = if s.len() > 0 && s[0] == 43 { 1 } else { 0 };
    proof {
        if start == 1 {
            assert(s@.skip(1) =~= s@.drop_first());
        } else {
            assert(s@.skip(0) =~= s@);
        }
    }
    match digits_up_to(s, start, usize::MAX as u64) {
        Some(v) => Some(v as usize),
        None => None,
    }
}

/// Parses a decimal `i64` as `str::parse::<i64>` does.
pub fn parse_i64(s: &[u8]) -> (r: Option<i64>)
    ensures
        r == spec_parse_i64(s@),
{
    if s.len() > 0 && s[0] == 45 {
        proof {
            assert(s@.skip(1) =~= s@.drop_first());
        }
        match digits_up_to(s, 1, 0x8000_0000_0000_0000u64) {
            Some(v) => {
                if v == 0x8000_0000_0000_0000u64 {
                    Some(i64::MIN)
                } else {
                    Some(0 - (v as i64))
                }
            },
            None => None,
        }
    } else {
        let start: usize = if s.len() > 0 && s[0] == 43 { 1 } else { 0 };
        proof {
            if start == 1 {
                assert(s@.skip(1) =~= s@.drop_first());
            } else {
                assert(s@.skip(0) =~= s@);
            }
        }
        match digits_up_to(s, start, i64::MAX as u64) {
            Some(v) => Some(v as i64),
            None => None,
        }
    }
}

/// Whether `haystack` matches the regular expression `pattern`, as compiled by
/// `regex::bytes::Regex::new`; `None` when the pattern does not compile.
pub uninterp spec fn regex_match(pattern: Seq<char>, haystack: Seq<u8>) -> Option<bool>;

/// `^[0-9]+$`: one or more ASCII digits, and nothing else.
pub open spec fn integer_pattern() -> Seq<char> {
    "^[0-9]+$"@
}

/// Compiles `pattern` with `regex::bytes::Regex::new` and tests `haystack`
/// with `Regex::is_match`. Claimed: the outcome is a function of the pattern
/// and the haystack alone; and for the integer pattern `^[0-9]+$`, which
/// compiles, the haystack matches exactly when it is one or more ASCII
/// digits (`^` and `$` anchor at the haystack's start and end, `[0-9]` is the
/// class of the ten digits). What other patterns match is not stated.
#[verifier::external_body]
pub(crate) fn regex_is_match(pattern: &str, haystack: &[u8]) -> (r: Option<bool>)
    ensures
        r == regex_match(pattern@, haystack@),
        pattern@ == integer_pattern() ==> r == Some(all_digits(haystack@)),
{
    match regex::bytes::Regex::new(pattern) {
        Ok(re) => Some(re.is_match(haystack)),
        Err(_) => None,
    }
}

/// The decimal digits of `n`, most significant first, without leading zeros.
pub open spec fn decimal_digits(n: nat) -> Seq<u8>
    decreases n,
{
    if n < 10 {
        seq![(48 + n) as u8]
    } else {
        decimal_digits(n / 10).push((48 + n % 10) as u8)
    }
}

/// The decimal representation of `n`: its digits, after `-` when negative.
pub open spec fn decimal(n: int) -> Seq<u8> {
    if n < 0 { seq![45u8] + decimal_digits((-n) as nat) } else { decimal_digits(n as nat) }
}

/// `itoa::Buffer::format` on an `i64`: the crate converts an integer to its
/// decimal string (the digits of libcore's formatting, with `-` before a
/// negative number). The contract claims that the bytes returned are
/// `decimal(n)`.
#[verifier::external_body]
pub(crate) fn format_decimal(n: i64) -> (r: Vec<u8>)
    ensures
        r@ == decimal(n as int),
{
    let mut buffer = itoa::Buffer::new();
    buffer.format(n).as_bytes().to_vec()
}

} // verus!
