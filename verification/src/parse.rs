//! Reading a whole number out of a text box, as `str::trim` followed by
//! `u32`'s `FromStr` does: surrounding whitespace dropped, an optional `+`,
//! then decimal digits only, within `u32`.

use vstd::prelude::*;

verus! {

/// Whether `c` is whitespace in Unicode's sense (what `char::is_whitespace`
/// answers).
pub open spec fn is_ws(c: char) -> bool {
    let u = c as u32;
    (9 <= u <= 13) || u == 32 || u == 0x85 || u == 0xA0 || u == 0x1680 || (0x2000 <= u <= 0x200A)
        || u == 0x2028 || u == 0x2029 || u == 0x202F || u == 0x205F || u == 0x3000
}

/// `s` without its leading whitespace.
pub open spec fn trim_start(s: Seq<char>) -> Seq<char>
    decreases s.len(),
{
    if s.len() > 0 && is_ws(s[0]) { trim_start(s.drop_first()) } else { s }
}

/// `s` without its trailing whitespace.
pub open spec fn trim_end(s: Seq<char>) -> Seq<char>
    decreases s.len(),
{
    if s.len() > 0 && is_ws(s.last()) { trim_end(s.drop_last()) } else { s }
}

/// `s` without whitespace at either end.
pub open spec fn trim(s: Seq<char>) -> Seq<char> {
    trim_end(trim_start(s))
}

pub open spec fn is_digit(c: char) -> bool {
    '0' <= c <= '9'
}

/// The value of a run of decimal digits.
pub open spec fn digits_value(s: Seq<char>) -> nat
    decreases s.len(),
{
    if s.len() == 0 {
        0
    } else {
        digits_value(s.drop_last()) * 10 + ((s.last() as u32) - ('0' as u32)) as nat
    }
}

/// The digits of an unsigned number: past a leading `+`, unless that is all.
pub open spec fn unsigned_body(s: Seq<char>) -> Seq<char> {
    if s.len() > 1 && s[0] == '+' { s.drop_first() } else { s }
}

/// Every character is a decimal digit.
pub open spec fn all_digits(s: Seq<char>) -> bool {
    forall|i: int| 0 <= i < s.len() ==> is_digit(#[trigger] s[i])
}

/// What `u32`'s `FromStr` makes of `s`: an optional `+` (not alone), then
/// one or more decimal digits whose value fits.
pub open spec fn parse_u32_spec(s: Seq<char>) -> Option<u32> {
    let body = unsigned_body(s);
    if body.len() > 0 && all_digits(body) && digits_value(body) <= u32::MAX {
        Some(digits_value(body) as u32)
    } else {
        None
    }
}

fn char_is_ws(c: char) -> (r: bool)
    ensures
        r == is_ws(c),
{
    let u = c as u32;
    (9 <= u && u <= 13) || u == 32 || u == 0x85 || u == 0xA0 || u == 0x1680 || (0x2000 <= u && u
        <= 0x200A) || u == 0x2028 || u == 0x2029 || u == 0x202F || u == 0x205F || u == 0x3000
}

proof fn lemma_trim_start_skip(s: Seq<char>, i: int)
    requires
        0 <= i <= s.len(),
        forall|j: int| 0 <= j < i ==> is_ws(#[trigger] s[j]),
    ensures
        trim_start(s) == trim_start(s.subrange(i, s.len() as int)),
    decreases i,
{
    if i > 0 {
        assert(is_ws(s[0]));
        let t = s.drop_first();
        assert forall|j: int| 0 <= j < i - 1 implies is_ws(#[trigger] t[j]) by {
            assert(t[j] == s[j + 1]);
        }
        lemma_trim_start_skip(t, i - 1);
        assert(t.subrange(i - 1, t.len() as int) =~= s.subrange(i, s.len() as int));
    } else {
        assert(s.subrange(0, s.len() as int) =~= s);
    }
}

proof fn lemma_trim_end_skip(s: Seq<char>, k: int)
    requires
        0 <= k <= s.len(),
        forall|j: int| k <= j < s.len() ==> is_ws(#[trigger] s[j]),
    ensures
        trim_end(s) == trim_end(s.subrange(0, k)),
    decreases s.len() - k,
{
    if k < s.len() {
        assert(is_ws(s.last()));
        let t = s.drop_last();
        assert forall|j: int| k <= j < t.len() implies is_ws(#[trigger] t[j]) by {
            assert(t[j] == s[j]);
        }
        lemma_trim_end_skip(t, k);
        assert(t.subrange(0, k) =~= s.subrange(0, k));
    } else {
        assert(s.subrange(0, k) =~= s);
    }
}

/// Where `trim` leaves `s`: the bounds `lo..hi` of what remains.
pub fn trim_bounds(s: &str) -> (r: (usize, usize))
    ensures
        r.0 <= r.1 <= s@.len(),
        trim(s@) == s@.subrange(r.0 as int, r.1 as int),
{
    let n = s.unicode_len();
    let mut lo: usize = 0;
    while lo < n && char_is_ws(s.get_char(lo))
        invariant
            n == s@.len(),
            lo <= n,
            forall|j: int| 0 <= j < lo ==> is_ws(#[trigger] s@[j]),
        decreases n - lo,
    {
        lo = lo + 1;
    }
    proof {
        lemma_trim_start_skip(s@, lo as int);
        let t = s@.subrange(lo as int, n as int);
        if t.len() > 0 {
            assert(t[0] == s@[lo as int]);
        }
        assert(trim_start(s@) == t);
    }
    let mut hi: usize = n;
    while hi > lo && char_is_ws(s.get_char(hi - 1))
        invariant
            n == s@.len(),
            lo <= hi <= n,
            forall|j: int| hi <= j < n ==> is_ws(#[trigger] s@[j]),
        decreases hi - lo,
    {
        hi = hi - 1;
    }
    proof {
        let t = s@.subrange(lo as int, n as int);
        let k = hi - lo;
        assert forall|j: int| k <= j < t.len() implies is_ws(#[trigger] t[j]) by {
            assert(t[j] == s@[j + lo]);
        }
        lemma_trim_end_skip(t, k as int);
        let u = t.subrange(0, k as int);
        assert(u =~= s@.subrange(lo as int, hi as int));
        if u.len() > 0 {
            assert(u.last() == s@[hi - 1]);
        }
        assert(trim_end(u) == u);
    }
    (lo, hi)
}

proof fn lemma_digits_value_step(s: Seq<char>, i: int)
    requires
        0 <= i < s.len(),
    ensures
        digits_value(s.subrange(0, i + 1)) == digits_value(s.subrange(0, i)) * 10 + ((s[i] as u32)
            - ('0' as u32)) as nat,
{
    let t = s.subrange(0, i + 1);
    assert(t.drop_last() =~= s.subrange(0, i));
    assert(t.last() == s[i]);
}

/// `trim(text)` parsed as `u32`, as `text.trim().parse::<u32>()` would.
pub fn parse_u32_trimmed(text: &str) -> (r: Option<u32>)
    ensures
        r == parse_u32_spec(trim(text@)),
{
    let (lo, hi) = trim_bounds(text);
    let ghost t = text@.subrange(lo as int, hi as int);
    let mut start = lo;
    if hi - lo > 1 && text.get_char(lo) == '+' {
        start = lo + 1;
    }
    let ghost body = text@.subrange(start as int, hi as int);
    assert(body =~= (if t.len() > 1 && t[0] == '+' { t.drop_first() } else { t }));
    if start == hi {
        return None;
    }
    let mut value: u64 = 0;
    let mut i = start;
    while i < hi
        invariant
            lo <= start < hi <= text@.len(),
            start <= i <= hi,
            trim(text@) == t,
            t == text@.subrange(lo as int, hi as int),
            body == unsigned_body(t),
            body.len() > 0,
            body == text@.subrange(start as int, hi as int),
            forall|j: int| 0 <= j < i - start ==> is_digit(#[trigger] body[j]),
            value as nat == digits_value(body.subrange(0, i - start)),
            value <= u32::MAX,
        decreases hi - i,
    {
        let c = text.get_char(i);
        if !('0' <= c && c <= '9') {
            assert(!is_digit(body[i - start]));
            assert(!all_digits(body));
            return None;
        }
        proof {
            lemma_digits_value_step(body, i - start);
        }
        let d = (c as u32 - '0' as u32) as u64;
        let next = value * 10 + d;
        if next > u32::MAX as u64 {
            proof {
                lemma_digits_prefix_bound(body, (i - start + 1) as int);
                assert(digits_value(body.subrange(0, (i - start + 1) as int)) == next as nat);
                assert(digits_value(body) > u32::MAX);
            }
            return None;
        }
        value = next;
        i = i + 1;
    }
    assert(body.subrange(0, body.len() as int) =~= body);
    Some(value as u32)
}

/// A run of digits is worth at least any of its prefixes.
proof fn lemma_digits_prefix_bound(s: Seq<char>, k: int)
    requires
        0 <= k <= s.len(),
    ensures
        digits_value(s) >= digits_value(s.subrange(0, k)),
    decreases s.len() - k,
{
    if k < s.len() {
        lemma_digits_prefix_bound(s.drop_last(), k);
        assert(s.drop_last().subrange(0, k) =~= s.subrange(0, k));
    } else {
        assert(s.subrange(0, k) =~= s);
    }
}

/// Whether `text` is nothing but whitespace.
pub fn trim_is_empty(text: &str) -> (r: bool)
    ensures
        r == (trim(text@).len() == 0),
{
    let (lo, hi) = trim_bounds(text);
    lo == hi
}

/// `text` without whitespace at either end, as a new string.
pub fn trimmed(text: &str) -> (r: String)
    ensures
        r@ == trim(text@),
{
    let (lo, hi) = trim_bounds(text);
    String::from_str(text.substring_char(lo, hi))
}

} // verus!
