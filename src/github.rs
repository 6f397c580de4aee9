//! Identifiers carried in the remote system's addresses.
use vstd::prelude::*;
use vstd::string::*;

verus! {

/// Index where the last `/`-separated segment of `s` starts.
pub open spec fn segment_start(s: Seq<char>) -> int
    decreases s.len(),
{
    if s.len() == 0 {
        0
    } else if s.last() == '/' {
        s.len() as int
    } else {
        segment_start(s.drop_last())
    }
}

/// The text after the last `/` of `s` (all of `s` when it has none).
pub open spec fn last_segment(s: Seq<char>) -> Seq<char> {
    s.subrange(segment_start(s), s.len() as int)
}

/// `c` is an ASCII decimal digit.
pub open spec fn is_digit(c: char) -> bool {
    48 <= (c as u32) <= 57
}

/// The number that the decimal digits `d` spell.
pub open spec fn decimal_value(d: Seq<char>) -> nat
    decreases d.len(),
{
    if d.len() == 0 {
        0
    } else {
        decimal_value(d.drop_last()) * 10 + ((d.last() as u32) - 48) as nat
    }
}

/// `s` without one leading `+`, if it has one.
pub open spec fn unsigned_digits(s: Seq<char>) -> Seq<char> {
    if s.len() > 0 && s[0] == '+' {
        s.drop_first()
    } else {
        s
    }
}

/// `s` read as an unsigned 64-bit decimal number: an optional `+`, then at
/// least one digit, with a value that fits.
pub open spec fn u64_text_value(s: Seq<char>) -> Option<u64> {
    let d = unsigned_digits(s);
    if d.len() > 0 && (forall|i: int| 0 <= i < d.len() ==> is_digit(#[trigger] d[i]))
        && decimal_value(d) <= u64::MAX {
        Some(decimal_value(d) as u64)
    } else {
        None
    }
}

/// The check-run id carried by a check-run address: its last path segment,
/// read as a number.
pub open spec fn check_run_id_of(url: Seq<char>) -> Option<u64> {
    u64_text_value(last_segment(url))
}

/// A longer run of digits never spells a smaller number.
proof fn lemma_decimal_value_grows(d: Seq<char>, k: int)
    requires
        0 <= k <= d.len(),
    ensures
        decimal_value(d.subrange(0, k)) <= decimal_value(d),
    decreases d.len() - k,
{
    if k < d.len() {
        lemma_decimal_value_grows(d, k + 1);
        assert(d.subrange(0, k + 1).drop_last() == d.subrange(0, k));
    } else {
        assert(d.subrange(0, k) == d);
    }
}

/// Where the last segment of `url` starts.
fn segment_start_of(url: &str) -> (r: usize)
    ensures
        r as int == segment_start(url@),
        r <= url@.len(),
{
    let ghost s = url@;
    let n = url.unicode_len();
    let mut start: usize = n;
    assert(s.subrange(0, n as int) == s);
    while start > 0 && url.get_char(start - 1) != '/'
        invariant
            n == s.len(),
            s == url@,
            start <= n,
            segment_start(s) == segment_start(s.subrange(0, start as int)),
        decreases start,
    {
        assert(s.subrange(0, start as int).drop_last() == s.subrange(0, start - 1));
        start = start - 1;
    }
    proof {
        if start > 0 {
            assert(s.subrange(0, start as int).last() == '/');
        }
    }
    start
}

/// Reads the characters of `text` from `from` on as an unsigned number.
fn parse_u64_from(text: &str, from: usize) -> (r: Option<u64>)
    requires
        from <= text@.len(),
    ensures
        r == u64_text_value(text@.subrange(from as int, text@.len() as int)),
{
    let ghost s = text@;
    let n = text.unicode_len();
    let ghost seg = s.subrange(from as int, n as int);
    let mut k: usize = from;
    if k < n && text.get_char(k) == '+' {
        k = k + 1;
    }
    let ghost d = unsigned_digits(seg);
    assert(d == s.subrange(k as int, n as int));
    if k == n {
        return None;
    }
    let mut value: u64 = 0;
    let mut j: usize = k;
    while j < n
        invariant
            n == s.len(),
            s == text@,
            k <= j <= n,
            k < n,
            from <= n,
            seg == s.subrange(from as int, n as int),
            d == unsigned_digits(seg),
            d == s.subrange(k as int, n as int),
            forall|i: int| 0 <= i < j - k ==> is_digit(#[trigger] d[i]),
            value as nat == decimal_value(d.subrange(0, j - k)),
        decreases n - j,
    {
        let c = text.get_char(j);
        assert(d[j - k] == c);
        let code = c as u32;
        if code < 48 || code > 57 {
            assert(!is_digit(d[j - k]));
            return None;
        }
        let digit = (code - 48) as u64;
        assert(d.subrange(0, j - k + 1).drop_last() == d.subrange(0, j - k));
        assert(d.subrange(0, j - k + 1).last() == c);
        assert(decimal_value(d.subrange(0, j - k + 1)) == value as nat * 10 + digit as nat);
        if value > 1844674407370955161 || (value == 1844674407370955161 && digit > 5) {
            proof {
                lemma_decimal_value_grows(d, j - k + 1);
            }
            return None;
        }
        value = value * 10 + digit;
        j = j + 1;
    }
    assert(d.subrange(0, j - k) == d);
    Some(value)
}

/// Extracts the check-run id (the trailing path segment) from a check-run address.
pub fn check_run_id_from_url(url: &str) -> (r: Option<u64>)
    ensures
        r == check_run_id_of(url@),
{
    let start = segment_start_of(url);
    parse_u64_from(url, start)
}

} // verus!
