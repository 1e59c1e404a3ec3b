//! Character-level helpers shared by the header parsers.

use vstd::prelude::*;

verus! {

/// Index of the first `c` in `s`, or `s.len()` when there is none.
pub open spec fn find(s: Seq<char>, c: char) -> int
    decreases s.len(),
{
    if s.len() == 0 {
        0
    } else if s[0] == c {
        0
    } else {
        1 + find(s.drop_first(), c)
    }
}

/// Space or horizontal tab.
pub open spec fn is_blank(c: char) -> bool {
    c == ' ' || c == '\t'
}

/// `s` without its leading blanks.
pub open spec fn trim_start(s: Seq<char>) -> Seq<char>
    decreases s.len(),
{
    if s.len() > 0 && is_blank(s[0]) {
        trim_start(s.drop_first())
    } else {
        s
    }
}

/// `s` without its trailing blanks.
pub open spec fn trim_end(s: Seq<char>) -> Seq<char>
    decreases s.len(),
{
    if s.len() > 0 && is_blank(s.last()) {
        trim_end(s.drop_last())
    } else {
        s
    }
}

/// `s` without leading and trailing blanks.
pub open spec fn trim(s: Seq<char>) -> Seq<char> {
    trim_end(trim_start(s))
}

/// The value of a decimal digit.
pub open spec fn digit_value(c: char) -> nat {
    (c as nat - '0' as nat) as nat
}

pub open spec fn is_digit(c: char) -> bool {
    '0' <= c && c <= '9'
}

/// A non-empty run of decimal digits.
pub open spec fn all_digits(s: Seq<char>) -> bool {
    s.len() > 0 && forall|i: int| 0 <= i < s.len() ==> is_digit(#[trigger] s[i])
}

/// The number that a run of decimal digits denotes.
pub open spec fn decimal_value(s: Seq<char>) -> nat
    decreases s.len(),
{
    if s.len() == 0 {
        0
    } else {
        10 * decimal_value(s.drop_last()) + digit_value(s.last())
    }
}

/// `x`, or `u64::MAX` where `x` does not fit.
pub open spec fn saturate(x: nat) -> u64 {
    if x <= u64::MAX {
        x as u64
    } else {
        u64::MAX
    }
}

/// Whether `s` holds a character other than `0`.
pub open spec fn has_nonzero(s: Seq<char>) -> bool {
    exists|i: int| 0 <= i < s.len() && s[i] != '0'
}

/// A delay written as decimal seconds, `digits` or `digits.digits`, rounded up
/// to whole seconds; `None` for anything else.
pub open spec fn seconds_value(s: Seq<char>) -> Option<nat> {
    let p = find(s, '.');
    let whole = s.subrange(0, p);
    let frac = s.subrange(p + 1, s.len() as int);
    if !all_digits(whole) {
        None
    } else if p >= s.len() {
        Some(decimal_value(whole))
    } else if frac.len() > 0 && !all_digits(frac) {
        None
    } else {
        Some(decimal_value(whole) + if has_nonzero(frac) {
            1nat
        } else {
            0nat
        })
    }
}

/// The characters of `s`, one element each.
pub fn chars_of(s: &str) -> (r: Vec<char>)
    ensures
        r@ == s@,
{
    let n = s.unicode_len();
    let mut r: Vec<char> = Vec::new();
    let mut i: usize = 0;
    while i < n
        invariant
            n == s@.len(),
            i <= n,
            r@ == s@.subrange(0, i as int),
        decreases n - i,
    {
        r.push(s.get_char(i));
        i = i + 1;
        assert(r@ =~= s@.subrange(0, i as int));
    }
    assert(r@ =~= s@);
    r
}

/// First index `k` in `lo..hi` with `v[k] == c`, or `hi`.
pub fn find_in(v: &[char], lo: usize, hi: usize, c: char) -> (k: usize)
    requires
        lo <= hi <= v@.len(),
    ensures
        lo <= k <= hi,
        k - lo == find(v@.subrange(lo as int, hi as int), c),
{
    let mut k: usize = lo;
    while k < hi && v[k] != c
        invariant
            lo <= k <= hi <= v@.len(),
            find(v@.subrange(lo as int, hi as int), c) == (k - lo) + find(
                v@.subrange(k as int, hi as int),
                c,
            ),
        decreases hi - k,
    {
        assert(v@.subrange(k as int, hi as int).drop_first() =~= v@.subrange(
            k + 1,
            hi as int,
        ));
        k = k + 1;
    }
    k
}

/// Bounds of `v[lo..hi]` with its leading and trailing blanks removed.
pub fn trim_in(v: &[char], lo: usize, hi: usize) -> (r: (usize, usize))
    requires
        lo <= hi <= v@.len(),
    ensures
        lo <= r.0 <= r.1 <= hi,
        v@.subrange(r.0 as int, r.1 as int) == trim(v@.subrange(lo as int, hi as int)),
{
    let mut a: usize = lo;
    while a < hi && (v[a] == ' ' || v[a] == '\t')
        invariant
            lo <= a <= hi <= v@.len(),
            trim_start(v@.subrange(lo as int, hi as int)) == trim_start(
                v@.subrange(a as int, hi as int),
            ),
        decreases hi - a,
    {
        assert(v@.subrange(a as int, hi as int).drop_first() =~= v@.subrange(
            a + 1,
            hi as int,
        ));
        a = a + 1;
    }
    let mut b: usize = hi;
    while b > a && (v[b - 1] == ' ' || v[b - 1] == '\t')
        invariant
            lo <= a <= b <= hi <= v@.len(),
            trim_end(trim_start(v@.subrange(lo as int, hi as int))) == trim_end(
                v@.subrange(a as int, b as int),
            ),
        decreases b - a,
    {
        assert(v@.subrange(a as int, b as int).drop_last() =~= v@.subrange(
            a as int,
            b - 1,
        ));
        b = b - 1;
    }
    (a, b)
}

pub proof fn lemma_saturate_step(x: nat, d: nat)
    requires
        d < 10,
    ensures
        saturate(10 * (saturate(x) as nat) + d) == saturate(10 * x + d),
{
    if x > u64::MAX {
        assert(10 * x + d > u64::MAX) by (nonlinear_arith)
            requires
                x > u64::MAX,
        ;
        assert(10 * (u64::MAX as nat) + d > u64::MAX);
    }
}

/// `v[lo..hi]` read as decimal seconds: `None` unless it is a non-empty run of
/// digits; a value too large for `u64` saturates.
pub fn parse_decimal(v: &[char], lo: usize, hi: usize) -> (r: Option<u64>)
    requires
        lo <= hi <= v@.len(),
    ensures
        r == (if all_digits(v@.subrange(lo as int, hi as int)) {
            Some(saturate(decimal_value(v@.subrange(lo as int, hi as int))))
        } else {
            None
        }),
{
    if lo == hi {
        return None;
    }
    let mut acc: u64 = 0;
    let mut i: usize = lo;
    while i < hi
        invariant
            lo <= i <= hi <= v@.len(),
            forall|j: int| lo <= j < i ==> is_digit(#[trigger] v@[j]),
            acc == saturate(decimal_value(v@.subrange(lo as int, i as int))),
        decreases hi - i,
    {
        let c = v[i];
        if !('0' <= c && c <= '9') {
            assert(v@.subrange(lo as int, hi as int)[i - lo] == c);
            return None;
        }
        let d: u64 = (c as u32 - '0' as u32) as u64;
        proof {
            let pre = v@.subrange(lo as int, i as int);
            assert(v@.subrange(lo as int, i + 1).drop_last() =~= pre);
            lemma_saturate_step(decimal_value(pre), d as nat);
        }
        if acc > (u64::MAX - d) / 10 {
            acc = u64::MAX;
        } else {
            acc = acc * 10 + d;
        }
        i = i + 1;
    }
    assert forall|j: int| 0 <= j < hi - lo implies is_digit(
        #[trigger] v@.subrange(lo as int, hi as int)[j],
    ) by {
        assert(v@.subrange(lo as int, hi as int)[j] == v@[lo + j]);
    }
    Some(acc)
}

/// `v[lo..hi]` read as a delay by `seconds_value`, saturating at `u64::MAX`.
pub fn parse_seconds(v: &[char], lo: usize, hi: usize) -> (r: Option<u64>)
    requires
        lo <= hi <= v@.len(),
    ensures
        r == match seconds_value(v@.subrange(lo as int, hi as int)) {
            Some(x) => Some(saturate(x)),
            None => None,
        },
{
    let ghost s = v@.subrange(lo as int, hi as int);
    let p = find_in(v, lo, hi, '.');
    assert(s.subrange(0, p - lo) =~= v@.subrange(lo as int, p as int));
    let whole = match parse_decimal(v, lo, p) {
        Some(x) => x,
        None => return None,
    };
    if p == hi {
        return Some(whole);
    }
    let ghost frac = s.subrange(p - lo + 1, s.len() as int);
    assert(frac =~= v@.subrange(p + 1, hi as int));
    let mut carry = false;
    let mut i: usize = p + 1;
    while i < hi
        invariant
            lo <= p < hi,
            p + 1 <= i <= hi <= v@.len(),
            s == v@.subrange(lo as int, hi as int),
            find(s, '.') == p - lo,
            all_digits(s.subrange(0, p - lo)),
            frac == s.subrange(p - lo + 1, s.len() as int),
            frac == v@.subrange(p + 1, hi as int),
            forall|j: int| p + 1 <= j < i ==> is_digit(#[trigger] v@[j]),
            carry <==> exists|j: int| p + 1 <= j < i && v@[j] != '0',
        decreases hi - i,
    {
        let c = v[i];
        if !('0' <= c && c <= '9') {
            assert(frac[i - p - 1] == c);
            assert(!all_digits(frac));
            return None;
        }
        if c != '0' {
            carry = true;
        }
        i = i + 1;
    }
    assert forall|j: int| 0 <= j < frac.len() implies is_digit(#[trigger] frac[j]) by {
        assert(frac[j] == v@[p + 1 + j]);
    }
    if carry {
        proof {
            let j = choose|j: int| p + 1 <= j < hi && v@[j] != '0';
            assert(frac[j - p - 1] != '0');
        }
        Some(whole.saturating_add(1))
    } else {
        assert(!has_nonzero(frac)) by {
            if has_nonzero(frac) {
                let j = choose|j: int| 0 <= j < frac.len() && frac[j] != '0';
                assert(frac[j] == v@[p + 1 + j]);
            }
        }
        Some(whole)
    }
}

} // verus!
