//! Server address strings. A client is configured with a text address of
//! the form `"a.b.c.d:port"`; an unparsable address is a configuration
//! error reported before any connection attempt is made. The accepted
//! grammar is canonical: four decimal octets and a decimal port, each
//! without leading zeroes.

use vstd::prelude::*;
use vstd::string::StrSliceExecFns;

verus! {

/// A parsed socket address: four address octets and a port.
#[derive(Clone, Copy, PartialEq, Eq, Structural, Debug)]
pub struct ServerAddress {
    pub a: u8,
    pub b: u8,
    pub c: u8,
    pub d: u8,
    pub port: u16,
}

/// Numeric value of a decimal digit character.
pub open spec fn digit_val(c: char) -> int {
    c as int - 48
}

/// Every character of `s` is a decimal digit.
pub open spec fn all_digits(s: Seq<char>) -> bool {
    forall|i: int| 0 <= i < s.len() ==> 48 <= (#[trigger] s[i]) as int <= 57
}

/// `s` is a canonical decimal numeral: digits only, nonempty, and no
/// leading zero unless it is exactly `"0"`.
pub open spec fn is_numeral(s: Seq<char>) -> bool {
    &&& all_digits(s)
    &&& s.len() > 0
    &&& (s.len() == 1 || s[0] != '0')
}

/// Value of a digit string, most significant digit first.
pub open spec fn dec_value(s: Seq<char>) -> int
    decreases s.len(),
{
    if s.len() == 0 {
        0
    } else {
        dec_value(s.drop_last()) * 10 + digit_val(s.last())
    }
}

/// Index of the first occurrence of `c` in `s` at or after `from`, or
/// `s.len()` if there is none.
pub open spec fn find_from(s: Seq<char>, c: char, from: int) -> int
    decreases s.len() - from,
{
    if from < 0 || from >= s.len() {
        s.len() as int
    } else if s[from] == c {
        from
    } else {
        find_from(s, c, from + 1)
    }
}

/// The address named by a canonical `"a.b.c.d:port"` string, if `s` is
/// one: the first three dots and the first colon after them split the
/// string into four octets and a port, each a canonical decimal numeral
/// within range.
pub open spec fn spec_parse_address(s: Seq<char>) -> Option<ServerAddress> {
    let i1 = find_from(s, '.', 0);
    let i2 = find_from(s, '.', i1 + 1);
    let i3 = find_from(s, '.', i2 + 1);
    let ic = find_from(s, ':', i3 + 1);
    if i1 < s.len() && i2 < s.len() && i3 < s.len() && ic < s.len() {
        let sa = s.subrange(0, i1);
        let sb = s.subrange(i1 + 1, i2);
        let sc = s.subrange(i2 + 1, i3);
        let sd = s.subrange(i3 + 1, ic);
        let sp = s.subrange(ic + 1, s.len() as int);
        if is_numeral(sa) && dec_value(sa) <= 255 && is_numeral(sb) && dec_value(sb) <= 255
            && is_numeral(sc) && dec_value(sc) <= 255 && is_numeral(sd) && dec_value(sd) <= 255
            && is_numeral(sp) && dec_value(sp) <= 65535 {
            Some(ServerAddress {
                a: dec_value(sa) as u8,
                b: dec_value(sb) as u8,
                c: dec_value(sc) as u8,
                d: dec_value(sd) as u8,
                port: dec_value(sp) as u16,
            })
        } else {
            None
        }
    } else {
        None
    }
}

/// `find_from` returns `i` exactly when `c` first occurs at `i`.
pub(crate) proof fn lemma_find_first(s: Seq<char>, c: char, from: int, i: int)
    requires
        0 <= from <= i <= s.len(),
        forall|j: int| from <= j < i ==> s[j] != c,
        i == s.len() || s[i] == c,
    ensures
        find_from(s, c, from) == i,
    decreases i - from,
{
    if from < i {
        lemma_find_first(s, c, from + 1, i);
    }
}

/// A digit string's value is never negative.
proof fn lemma_dec_value_nonneg(s: Seq<char>)
    requires
        all_digits(s),
    ensures
        dec_value(s) >= 0,
    decreases s.len(),
{
    if s.len() > 0 {
        assert(all_digits(s.drop_last())) by {
            assert(forall|i: int|
                0 <= i < s.len() - 1 ==> (#[trigger] s.drop_last()[i]) == s[i]);
        }
        lemma_dec_value_nonneg(s.drop_last());
    }
}

/// Extending a digit string only grows its value: once a prefix is over a
/// bound, the whole string is too.
proof fn lemma_dec_value_prefix(s: Seq<char>, k: int)
    requires
        all_digits(s),
        0 <= k <= s.len(),
    ensures
        dec_value(s) >= dec_value(s.take(k)),
    decreases s.len() - k,
{
    if k < s.len() {
        lemma_dec_value_prefix(s, k + 1);
        assert(s.take(k + 1).drop_last() =~= s.take(k));
        assert(s.take(k + 1).last() == s[k]);
        assert(all_digits(s.take(k))) by {
            assert(forall|i: int| 0 <= i < k ==> (#[trigger] s.take(k)[i]) == s[i]);
        }
        lemma_dec_value_nonneg(s.take(k));
        assert(dec_value(s.take(k + 1)) == dec_value(s.take(k)) * 10 + digit_val(s[k]));
    } else {
        assert(s.take(k) =~= s);
    }
}

/// Parses one segment `s[start..end]` as a decimal number of at most
/// `max`: returns its value exactly when the segment is a canonical
/// numeral within the bound.
fn parse_number(s: &str, start: usize, end: usize, max: u32) -> (r: Option<u32>)
    requires
        start <= end <= s@.len(),
        max <= 0xffff,
    ensures
        match r {
            Some(v) => is_numeral(s@.subrange(start as int, end as int)) && dec_value(
                s@.subrange(start as int, end as int),
            ) == v && v <= max,
            None => !(is_numeral(s@.subrange(start as int, end as int)) && dec_value(
                s@.subrange(start as int, end as int),
            ) <= max),
        },
{
    let ghost seg = s@.subrange(start as int, end as int);
    if start == end {
        return None;
    }
    let first = s.get_char(start);
    if end - start > 1 && first == '0' {
        proof {
            assert(seg[0] == first);
        }
        return None;
    }
    let mut value: u32 = 0;
    let mut i: usize = start;
    while i < end
        invariant
            start <= i <= end <= s@.len(),
            seg == s@.subrange(start as int, end as int),
            all_digits(seg.take(i - start)),
            value == dec_value(seg.take(i - start)),
            value <= max,
            max <= 0xffff,
        decreases end - i,
    {
        let c = s.get_char(i);
        let v = c as u32;
        proof {
            assert(seg[i - start] == c);
            assert(c as int == v as int);
            assert(seg.take(i - start + 1).drop_last() =~= seg.take(i - start));
            assert(seg.take(i - start + 1).last() == seg[i - start]);
        }
        if v < 48 || v > 57 {
            proof {
                assert(!all_digits(seg)) by {
                    assert(48 <= (seg[i - start]) as int <= 57 ==> false);
                }
            }
            return None;
        }
        let digit = v - 48;
        if value * 10 + digit > max {
            proof {
                assert(all_digits(seg.take(i - start + 1))) by {
                    assert(forall|j: int|
                        0 <= j < i - start ==> (#[trigger] seg.take(i - start + 1)[j])
                            == seg.take(i - start)[j]);
                }
                assert(dec_value(seg.take(i - start + 1)) == value * 10 + digit);
                assert(dec_value(seg.take(i - start + 1)) > max);
                assert(all_digits(seg) ==> dec_value(seg) > max) by {
                    if all_digits(seg) {
                        lemma_dec_value_prefix(seg, i - start + 1);
                    }
                }
            }
            return None;
        }
        value = value * 10 + digit;
        i = i + 1;
    }
    proof {
        assert(seg.take(end - start) =~= seg);
        assert(seg.len() > 0);
        if seg.len() > 1 {
            assert(seg[0] == first);
            assert(seg[0] != '0');
        }
    }
    Some(value)
}

/// Index of the first occurrence of `target` in `s[from..]`, or the
/// string's length if there is none.
fn find_char(s: &str, n: usize, target: char, from: usize) -> (r: usize)
    requires
        n == s@.len(),
        from <= n,
    ensures
        from <= r <= n,
        r < n ==> s@[r as int] == target,
        forall|j: int| from <= j < r ==> (#[trigger] s@[j]) != target,
    {
    let mut i: usize = from;
    while i < n
        invariant
            from <= i <= n,
            n == s@.len(),
            forall|j: int| from <= j < i ==> (#[trigger] s@[j]) != target,
        decreases n - i,
    {
        if s.get_char(i) == target {
            return i;
        }
        i = i + 1;
    }
    i
}

/// Parses a `"a.b.c.d:port"` server address string. Returns the address
/// exactly when the string is a canonical rendering of one; every other
/// string is a configuration error, reported before any connection
/// attempt.
pub fn parse_server_address(s: &str) -> (r: Option<ServerAddress>)
    ensures
        r == spec_parse_address(s@),
{
    let n = s.unicode_len();
    let i1 = find_char(s, n, '.', 0);
    let next1 = if i1 < n { i1 + 1 } else { n };
    let i2 = find_char(s, n, '.', next1);
    let next2 = if i2 < n { i2 + 1 } else { n };
    let i3 = find_char(s, n, '.', next2);
    let next3 = if i3 < n { i3 + 1 } else { n };
    let ic = find_char(s, n, ':', next3);
    proof {
        lemma_find_first(s@, '.', 0, i1 as int);
        if i1 < n {
            lemma_find_first(s@, '.', i1 as int + 1, i2 as int);
            if i2 < n {
                lemma_find_first(s@, '.', i2 as int + 1, i3 as int);
                if i3 < n {
                    lemma_find_first(s@, ':', i3 as int + 1, ic as int);
                }
            }
        }
    }
    if i1 >= n || i2 >= n || i3 >= n || ic >= n {
        return None;
    }
    let a = parse_number(s, 0, i1, 255);
    let b = parse_number(s, i1 + 1, i2, 255);
    let c = parse_number(s, i2 + 1, i3, 255);
    let d = parse_number(s, i3 + 1, ic, 255);
    let p = parse_number(s, ic + 1, n, 65535);
    match (a, b, c, d, p) {
        (Some(av), Some(bv), Some(cv), Some(dv), Some(pv)) => Some(ServerAddress {
            a: av as u8,
            b: bv as u8,
            c: cv as u8,
            d: dv as u8,
            port: pv as u16,
        }),
        _ => None,
    }
}

} // verus!
