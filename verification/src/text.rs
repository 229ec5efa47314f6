//! Character-level text helpers: whitespace classification, trimming,
//! last-token extraction and decimal parsing.
//!
//! The whitespace set below is the Unicode `White_Space` property, so
//! `trim_str` and `last_token` behave like `str::trim` and
//! `str::split_whitespace().last()`.

use vstd::prelude::*;

verus! {

/// Whether `c` has the Unicode `White_Space` property.
pub open spec fn is_space_char(c: char) -> bool {
    let u = c as u32;
    u == 0x9 || u == 0xA || u == 0xB || u == 0xC || u == 0xD || u == 0x20 || u == 0x85
        || u == 0xA0 || u == 0x1680 || (0x2000 <= u && u <= 0x200A) || u == 0x2028
        || u == 0x2029 || u == 0x202F || u == 0x205F || u == 0x3000
}

/// Executable check for [`is_space_char`].
pub fn is_space(c: char) -> (r: bool)
    ensures
        r == is_space_char(c),
{
    let u: u32 = c as u32;
    u == 0x9 || u == 0xA || u == 0xB || u == 0xC || u == 0xD || u == 0x20 || u == 0x85
        || u == 0xA0 || u == 0x1680 || (0x2000 <= u && u <= 0x200A) || u == 0x2028
        || u == 0x2029 || u == 0x202F || u == 0x205F || u == 0x3000
}

/// Length of `s` once trailing whitespace is dropped.
pub open spec fn rstrip_len(s: Seq<char>) -> int
    decreases s.len(),
{
    if s.len() == 0 {
        0
    } else if is_space_char(s.last()) {
        rstrip_len(s.drop_last())
    } else {
        s.len() as int
    }
}

/// Index of the first character of `s` that is not whitespace
/// (`s.len()` if every character is whitespace).
pub open spec fn lstrip_idx(s: Seq<char>) -> int
    decreases s.len(),
{
    if s.len() == 0 {
        0
    } else if is_space_char(s[0]) {
        1 + lstrip_idx(s.drop_first())
    } else {
        0
    }
}

/// Start of the run of non-whitespace characters that ends at `end`.
pub open spec fn run_start(s: Seq<char>, end: int) -> int
    recommends
        0 <= end <= s.len(),
    decreases end,
{
    if end <= 0 {
        0
    } else if is_space_char(s[end - 1]) {
        end
    } else {
        run_start(s, end - 1)
    }
}

/// `s` with leading and trailing whitespace removed, as `str::trim` leaves it.
pub open spec fn trim_spec(s: Seq<char>) -> Seq<char> {
    if rstrip_len(s) == 0 {
        Seq::empty()
    } else {
        s.subrange(lstrip_idx(s), rstrip_len(s))
    }
}

/// The last whitespace-separated token of `s`, as
/// `s.split_whitespace().last()` yields it; `None` when `s` holds no
/// non-whitespace character.
pub open spec fn last_token_spec(s: Seq<char>) -> Option<Seq<char>> {
    if rstrip_len(s) == 0 {
        None
    } else {
        Some(s.subrange(run_start(s, rstrip_len(s)), rstrip_len(s)))
    }
}

proof fn lemma_rstrip_bounds(s: Seq<char>)
    ensures
        0 <= rstrip_len(s) <= s.len(),
    decreases s.len(),
{
    if s.len() > 0 && is_space_char(s.last()) {
        lemma_rstrip_bounds(s.drop_last());
    }
}

proof fn lemma_rstrip_last_nonspace(s: Seq<char>)
    requires
        rstrip_len(s) > 0,
    ensures
        rstrip_len(s) <= s.len(),
        !is_space_char(s[rstrip_len(s) - 1]),
    decreases s.len(),
{
    lemma_rstrip_bounds(s);
    if s.len() > 0 && is_space_char(s.last()) {
        lemma_rstrip_last_nonspace(s.drop_last());
    }
}

proof fn lemma_lstrip_at(s: Seq<char>, i: int)
    requires
        0 <= i <= s.len(),
        forall|j: int| 0 <= j < i ==> is_space_char(s[j]),
        i < s.len() ==> !is_space_char(s[i]),
    ensures
        lstrip_idx(s) == i,
    decreases i,
{
    if i > 0 {
        assert(is_space_char(s[0]));
        assert(s.drop_first().len() == s.len() - 1);
        assert(forall|j: int| 0 <= j < i - 1 ==> s.drop_first()[j] == s[j + 1]);
        lemma_lstrip_at(s.drop_first(), i - 1);
    }
}

/// `str::trim` over characters: drops leading and trailing whitespace.
pub fn trim_str(s: &str) -> (r: String)
    ensures
        r@ == trim_spec(s@),
{
    let n: usize = s.unicode_len();
    let j = scan_rstrip(s, n);
    if j == 0 {
        let r = String::new();
        proof {
            assert(r@ =~= trim_spec(s@));
        }
        return r;
    }
    proof {
        lemma_rstrip_last_nonspace(s@);
    }
    let mut i: usize = 0;
    loop
        invariant
            0 <= i <= j - 1,
            1 <= j <= n,
            n == s@.len(),
            rstrip_len(s@) == j,
            !is_space_char(s@[j - 1]),
            forall|k: int| 0 <= k < i ==> is_space_char(s@[k]),
        ensures
            0 <= i < j,
            forall|k: int| 0 <= k < i ==> is_space_char(s@[k]),
            !is_space_char(s@[i as int]),
        decreases j - i,
    {
        if i == j - 1 {
            break;
        }
        let c = s.get_char(i);
        if is_space(c) {
            i = i + 1;
        } else {
            break;
        }
    }
    proof {
        lemma_lstrip_at(s@, i as int);
    }
    let t = s.substring_char(i, j);
    let r = t.to_owned();
    proof {
        assert(r@ =~= trim_spec(s@));
    }
    r
}

/// Scans trailing whitespace; returns `rstrip_len` of `s`.
fn scan_rstrip(s: &str, n: usize) -> (j: usize)
    requires
        n == s@.len(),
    ensures
        0 <= j <= n,
        rstrip_len(s@) == j as int,
        j > 0 ==> !is_space_char(s@[j - 1]),
{
    let mut j: usize = n;
    proof {
        assert(s@.take(n as int) =~= s@);
    }
    loop
        invariant
            0 <= j <= n,
            n == s@.len(),
            rstrip_len(s@) == rstrip_len(s@.take(j as int)),
        ensures
            0 <= j <= n,
            rstrip_len(s@) == j as int,
            j > 0 ==> !is_space_char(s@[j - 1]),
        decreases j,
    {
        if j == 0 {
            proof {
                assert(s@.take(0) =~= Seq::<char>::empty());
            }
            break;
        }
        let c = s.get_char(j - 1);
        if is_space(c) {
            proof {
                let t = s@.take(j as int);
                assert(t.last() == s@[j - 1]);
                assert(t.drop_last() =~= s@.take(j - 1));
            }
            j = j - 1;
        } else {
            proof {
                let t = s@.take(j as int);
                assert(t.last() == s@[j - 1]);
                assert(rstrip_len(t) == t.len());
            }
            break;
        }
    }
    j
}

/// The last whitespace-separated token of `s`, or `None` when there is none.
pub fn last_token(s: &str) -> (r: Option<String>)
    ensures
        match r {
            Some(t) => last_token_spec(s@) == Some(t@),
            None => last_token_spec(s@) is None,
        },
{
    let n: usize = s.unicode_len();
    let j = scan_rstrip(s, n);
    if j == 0 {
        return None;
    }
    let mut i: usize = j;
    loop
        invariant
            0 <= i <= j <= n,
            n == s@.len(),
            rstrip_len(s@) == j,
            run_start(s@, j as int) == run_start(s@, i as int),
        ensures
            0 <= i <= j,
            run_start(s@, j as int) == i as int,
        decreases i,
    {
        if i == 0 {
            break;
        }
        let c = s.get_char(i - 1);
        if is_space(c) {
            break;
        } else {
            i = i - 1;
        }
    }
    let t = s.substring_char(i, j);
    Some(t.to_owned())
}

/// Whether `c` is a decimal digit.
pub open spec fn is_dec_digit(c: char) -> bool {
    0x30 <= c as u32 && c as u32 <= 0x39
}

/// The value of `s` read as a decimal numeral.
pub open spec fn dec_value(s: Seq<char>) -> int
    decreases s.len(),
{
    if s.len() == 0 {
        0
    } else {
        dec_value(s.drop_last()) * 10 + (s.last() as u32 - 0x30)
    }
}

/// Whether `s` is one or more decimal digits.
pub open spec fn all_digits(s: Seq<char>) -> bool {
    s.len() > 0 && forall|i: int| 0 <= i < s.len() ==> is_dec_digit(s[i])
}

/// What `str::parse::<u64>` accepts: an optional leading `+`, then digits,
/// with a value that fits in a `u64`.
pub open spec fn parses_to_u64(s: Seq<char>) -> Option<int> {
    let body = if s.len() > 0 && s[0] == '+' {
        s.drop_first()
    } else {
        s
    };
    if all_digits(body) && dec_value(body) <= u64::MAX {
        Some(dec_value(body))
    } else {
        None
    }
}

proof fn lemma_dec_value_nonneg(s: Seq<char>)
    requires
        forall|i: int| 0 <= i < s.len() ==> is_dec_digit(s[i]),
    ensures
        dec_value(s) >= 0,
    decreases s.len(),
{
    if s.len() > 0 {
        lemma_dec_value_nonneg(s.drop_last());
    }
}

proof fn lemma_dec_value_prefix_le(s: Seq<char>, m: int)
    requires
        forall|i: int| 0 <= i < s.len() ==> is_dec_digit(s[i]),
        0 <= m <= s.len(),
    ensures
        dec_value(s.take(m)) <= dec_value(s),
    decreases s.len() - m,
{
    if m < s.len() {
        lemma_dec_value_prefix_le(s, m + 1);
        let t = s.take(m + 1);
        assert(t.drop_last() =~= s.take(m));
        lemma_dec_value_nonneg(s.take(m));
    } else {
        assert(s.take(m) =~= s);
    }
}

/// `str::parse::<u64>` over characters: `Some` exactly when `s` is an
/// optionally `+`-signed decimal numeral whose value fits in a `u64`.
pub fn parse_u64(s: &str) -> (r: Option<u64>)
    ensures
        match r {
            Some(v) => parses_to_u64(s@) == Some(v as int),
            None => parses_to_u64(s@) is None,
        },
{
    let n: usize = s.unicode_len();
    let start: usize = if n > 0 && s.get_char(0) == '+' {
        1
    } else {
        0
    };
    let ghost body: Seq<char> = s@.subrange(start as int, n as int);
    proof {
        if start == 1 {
            assert(body =~= s@.drop_first());
        } else {
            assert(body =~= s@);
        }
    }
    if start == n {
        return None;
    }
    let mut acc: u64 = 0;
    let mut i: usize = start;
    loop
        invariant
            start <= i <= n,
            n == s@.len(),
            start < n,
            body == s@.subrange(start as int, n as int),
            body == (if s@.len() > 0 && s@[0] == '+' {
                s@.drop_first()
            } else {
                s@
            }),
            forall|k: int| 0 <= k < i - start ==> is_dec_digit(body[k]),
            acc as int == dec_value(body.take(i - start)),
        ensures
            i == n,
            forall|k: int| 0 <= k < i - start ==> is_dec_digit(body[k]),
            acc as int == dec_value(body.take(i - start)),
        decreases n - i,
    {
        if i == n {
            break;
        }
        let c = s.get_char(i);
        let u: u32 = c as u32;
        if u < 0x30 || u > 0x39 {
            proof {
                assert(body[i - start] == s@[i as int]);
                assert(!is_dec_digit(body[i - start]));
                assert(!all_digits(body));
            }
            return None;
        }
        let d: u64 = (u - 0x30) as u64;
        let shifted = match acc.checked_mul(10) {
            Some(m) => m,
            None => {
                proof {
                    overflow_means_no_parse(body, i - start, acc as int, d as int);
                }
                return None;
            },
        };
        let next = match shifted.checked_add(d) {
            Some(v) => v,
            None => {
                proof {
                    overflow_means_no_parse(body, i - start, acc as int, d as int);
                }
                return None;
            },
        };
        proof {
            let t = body.take(i - start + 1);
            assert(t.drop_last() =~= body.take(i - start));
            assert(t.last() == body[i - start]);
            assert(body[i - start] == s@[i as int]);
        }
        acc = next;
        i = i + 1;
    }
    proof {
        assert(body.take(n - start) =~= body);
        assert(all_digits(body));
    }
    Some(acc)
}

/// If the next accumulation step leaves `u64`, the whole numeral does not
/// fit in a `u64` either.
proof fn overflow_means_no_parse(body: Seq<char>, m: int, acc: int, d: int)
    requires
        0 <= m < body.len(),
        forall|k: int| 0 <= k < m ==> is_dec_digit(body[k]),
        is_dec_digit(body[m]),
        acc == dec_value(body.take(m)),
        d == body[m] as u32 - 0x30,
        acc * 10 + d > u64::MAX,
    ensures
        parses_to_u64(body) is None,
        forall|pre: Seq<char>| pre.len() > 0 && pre[0] == '+' && pre.drop_first() == body
            ==> parses_to_u64(pre) is None,
{
    if all_digits(body) {
        let t = body.take(m + 1);
        assert(t.drop_last() =~= body.take(m));
        assert(t.last() == body[m]);
        assert(dec_value(t) == acc * 10 + d);
        lemma_dec_value_prefix_le(body, m + 1);
        assert(dec_value(body) > u64::MAX);
    }
}

/// `s.parse::<u64>().unwrap_or(default)`.
pub fn parse_u64_or(s: &str, default: u64) -> (r: u64)
    ensures
        match parses_to_u64(s@) {
            Some(v) => r as int == v,
            None => r == default,
        },
{
    match parse_u64(s) {
        Some(v) => v,
        None => default,
    }
}

/// `s.parse::<u16>().unwrap_or(default)`: the numeral must also fit in `u16`.
pub fn parse_u16_or(s: &str, default: u16) -> (r: u16)
    ensures
        match parses_to_u64(s@) {
            Some(v) => if v <= u16::MAX {
                r as int == v
            } else {
                r == default
            },
            None => r == default,
        },
{
    match parse_u64(s) {
        Some(v) => if v <= u16::MAX as u64 {
            v as u16
        } else {
            default
        },
        None => default,
    }
}

/// `s.parse::<usize>().unwrap_or(default)`: the numeral must also fit in
/// `usize`.
pub fn parse_usize_or(s: &str, default: usize) -> (r: usize)
    ensures
        match parses_to_u64(s@) {
            Some(v) => if v <= usize::MAX {
                r as int == v
            } else {
                r == default
            },
            None => r == default,
        },
{
    match parse_u64(s) {
        Some(v) => if v <= usize::MAX as u64 {
            v as usize
        } else {
            default
        },
        None => default,
    }
}

/// `s.parse::<u32>().unwrap_or(default)`: the numeral must also fit in `u32`.
pub fn parse_u32_or(s: &str, default: u32) -> (r: u32)
    ensures
        match parses_to_u64(s@) {
            Some(v) => if v <= u32::MAX {
                r as int == v
            } else {
                r == default
            },
            None => r == default,
        },
{
    match parse_u64(s) {
        Some(v) => if v <= u32::MAX as u64 {
            v as u32
        } else {
            default
        },
        None => default,
    }
}

} // verus!
