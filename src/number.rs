//! Decimal numbers typed by the user: message ids, list indices and
//! temperatures.
//!
//! Temperatures are held in thousandths (`700` stands for `0.7`), so every
//! comparison against a configured range is exact.
use vstd::prelude::*;
use crate::text::chars_of;

verus! {

/// Whether `c` is one of `0`..`9`.
pub open spec fn is_digit(c: char) -> bool {
    48 <= c as u32 <= 57
}

/// Whether every character of `s` is a decimal digit.
pub open spec fn all_digits(s: Seq<char>) -> bool {
    forall|i: int| 0 <= i < s.len() ==> #[trigger] is_digit(s[i])
}

/// The value of a run of decimal digits.
pub open spec fn decimal_value(s: Seq<char>) -> nat
    decreases s.len(),
{
    if s.len() == 0 {
        0
    } else {
        decimal_value(s.drop_last()) * 10 + (s.last() as u32 - 48) as nat
    }
}

/// `s` without one leading `+`, the sign that `str::parse` accepts on an
/// unsigned number.
pub open spec fn unsigned_body(s: Seq<char>) -> Seq<char> {
    if s.len() > 0 && s[0] == '+' {
        s.drop_first()
    } else {
        s
    }
}

/// The unsigned number that `s` spells, if it spells one that fits in `usize`.
pub open spec fn usize_value(s: Seq<char>) -> Option<nat> {
    let d = unsigned_body(s);
    if d.len() > 0 && all_digits(d) && decimal_value(d) <= usize::MAX {
        Some(decimal_value(d))
    } else {
        None
    }
}

/// A digit string's value does not drop when more digits follow.
proof fn lemma_decimal_grows(s: Seq<char>, i: int)
    requires
        0 <= i <= s.len(),
        all_digits(s),
    ensures
        decimal_value(s.subrange(0, i)) <= decimal_value(s),
    decreases s.len() - i,
{
    if i < s.len() {
        lemma_decimal_grows(s, i + 1);
        assert(s.subrange(0, i + 1).drop_last() =~= s.subrange(0, i));
        assert(is_digit(s[i]));
    } else {
        assert(s.subrange(0, i) =~= s);
    }
}

/// The value of `cs[lo..hi]` read as a plain run of digits, if it is one and
/// fits below `limit`.
fn digits_value(cs: &Vec<char>, lo: usize, hi: usize, limit: u64) -> (r: Option<u64>)
    requires
        lo <= hi <= cs@.len(),
        9 <= limit,
    ensures
        ({
            let d = cs@.subrange(lo as int, hi as int);
            r == if all_digits(d) && decimal_value(d) <= limit {
                Some(decimal_value(d) as u64)
            } else {
                None::<u64>
            }
        }),
{
    let ghost d = cs@.subrange(lo as int, hi as int);
    let mut v: u64 = 0;
    let mut i: usize = lo;
    while i < hi
        invariant
            lo <= i <= hi <= cs@.len(),
            d == cs@.subrange(lo as int, hi as int),
            all_digits(cs@.subrange(lo as int, i as int)),
            v == decimal_value(cs@.subrange(lo as int, i as int)),
            v <= limit,
            9 <= limit,
        decreases hi - i,
    {
        let u = cs[i] as u32;
        let ghost prefix = cs@.subrange(lo as int, i + 1);
        assert(prefix.drop_last() =~= cs@.subrange(lo as int, i as int));
        assert(d.subrange(0, i - lo) =~= cs@.subrange(lo as int, i as int));
        assert(d.subrange(0, i + 1 - lo) =~= prefix);
        if u < 48 || u > 57 {
            assert(!is_digit(d[i - lo]));
            return None;
        }
        let digit: u64 = (u - 48) as u64;
        assert(digit <= 9);
        if v > (limit - digit) / 10 {
            assert(all_digits(prefix));
            assert(decimal_value(prefix) > limit) by (nonlinear_arith)
                requires
                    decimal_value(prefix) == v * 10 + digit,
                    v > (limit - digit) / 10,
                    digit <= limit || digit > limit,
            ;
            proof {
                if all_digits(d) {
                    lemma_decimal_grows(d, (i + 1 - lo) as int);
                }
            }
            return None;
        }
        assert(v * 10 + digit <= limit) by (nonlinear_arith)
            requires
                v <= (limit - digit) / 10,
                digit <= 9,
        ;
        v = v * 10 + digit;
        assert forall|j: int| 0 <= j < prefix.len() implies #[trigger] is_digit(prefix[j]) by {
            if j < prefix.len() - 1 {
                assert(prefix[j] == cs@.subrange(lo as int, i as int)[j]);
            }
        }
        i += 1;
    }
    assert(d =~= cs@.subrange(lo as int, i as int));
    Some(v)
}

/// Reads an unsigned decimal number the way `str::parse::<usize>` does: an
/// optional `+`, then one or more digits, with no other character.
pub fn parse_usize(s: &str) -> (r: Option<usize>)
    ensures
        r matches Some(v) ==> usize_value(s@) == Some(v as nat),
        r is None ==> usize_value(s@) is None,
{
    let cs = chars_of(s);
    let n = cs.len();
    let lo: usize = if n > 0 && cs[0] == '+' { 1 } else { 0 };
    assert(cs@.subrange(lo as int, n as int) =~= unsigned_body(s@));
    if lo == n {
        return None;
    }
    match digits_value(&cs, lo, n, usize::MAX as u64) {
        Some(v) => Some(v as usize),
        None => None,
    }
}

/// Where the first `.` of `s` stands, or `s.len()` when it has none.
pub open spec fn dot_position(s: Seq<char>) -> int
    decreases s.len(),
{
    if s.len() == 0 {
        0
    } else if s[0] == '.' {
        0
    } else {
        1 + dot_position(s.drop_first())
    }
}

/// `10` to the power `k`.
pub open spec fn pow10(k: nat) -> nat
    decreases k,
{
    if k == 0 {
        1
    } else {
        10 * pow10((k - 1) as nat)
    }
}

/// Whether every digit of `f` after its third is a zero.
pub open spec fn zeros_after_third(f: Seq<char>) -> bool {
    forall|i: int| 3 <= i < f.len() ==> #[trigger] f[i] == '0'
}

/// The value in thousandths of a decimal such as `0.7`, `2`, `.25` or `+1.5`,
/// if it fits in `u32`. Digits after the third after the point must be zeros.
pub open spec fn milli_value(s: Seq<char>) -> Option<nat> {
    let b = unsigned_body(s);
    let k = dot_position(b);
    let whole = b.subrange(0, k);
    let frac = if k < b.len() {
        b.subrange(k + 1, b.len() as int)
    } else {
        Seq::empty()
    };
    let f3 = if frac.len() <= 3 {
        frac
    } else {
        frac.subrange(0, 3)
    };
    let v = decimal_value(whole) * 1000 + decimal_value(f3) * pow10((3 - f3.len()) as nat);
    if (whole.len() > 0 || frac.len() > 0) && all_digits(whole) && all_digits(frac) && zeros_after_third(frac)
        && v <= u32::MAX {
        Some(v)
    } else {
        None
    }
}

/// A text that spells a value in thousandths is not empty and holds only
/// digits, a `.` and a leading `+`.
pub proof fn lemma_milli_chars(s: Seq<char>)
    requires
        milli_value(s) is Some,
    ensures
        s.len() > 0,
        forall|i: int| 0 <= i < s.len() ==> is_digit(#[trigger] s[i]) || s[i] == '.' || s[i] == '+',
{
    let b = unsigned_body(s);
    let k = dot_position(b);
    lemma_dot_position(b);
    let whole = b.subrange(0, k);
    let frac = if k < b.len() {
        b.subrange(k + 1, b.len() as int)
    } else {
        Seq::empty()
    };
    assert forall|j: int| 0 <= j < b.len() implies is_digit(#[trigger] b[j]) || b[j] == '.' by {
        if j < k {
            assert(whole[j] == b[j]);
        } else if j > k {
            assert(frac[j - k - 1] == b[j]);
        }
    }
    assert forall|i: int| 0 <= i < s.len() implies is_digit(#[trigger] s[i]) || s[i] == '.' || s[i] == '+' by {
        if s[0] == '+' {
            if i > 0 {
                assert(s[i] == b[i - 1]);
            }
        } else {
            assert(s[i] == b[i]);
        }
    }
}

proof fn lemma_dot_position(s: Seq<char>)
    ensures
        0 <= dot_position(s) <= s.len(),
        dot_position(s) < s.len() ==> s[dot_position(s)] == '.',
        forall|j: int| 0 <= j < dot_position(s) ==> s[j] != '.',
    decreases s.len(),
{
    if s.len() > 0 && s[0] != '.' {
        lemma_dot_position(s.drop_first());
        assert forall|j: int| 0 <= j < dot_position(s) implies s[j] != '.' by {
            if j > 0 {
                assert(s[j] == s.drop_first()[j - 1]);
            }
        }
    }
}

proof fn lemma_dot_position_is(s: Seq<char>, k: int)
    requires
        0 <= k <= s.len(),
        k < s.len() ==> s[k] == '.',
        forall|j: int| 0 <= j < k ==> s[j] != '.',
    ensures
        dot_position(s) == k,
    decreases k,
{
    if k > 0 {
        lemma_dot_position_is(s.drop_first(), k - 1);
    }
}

/// The index of the first `.` in `cs[lo..]`, or `cs.len()`.
fn find_dot(cs: &Vec<char>, lo: usize) -> (k: usize)
    requires
        lo <= cs@.len(),
    ensures
        lo <= k <= cs@.len(),
        k < cs@.len() ==> cs@[k as int] == '.',
        forall|j: int| lo <= j < k ==> cs@[j] != '.',
{
    let n = cs.len();
    let mut k: usize = lo;
    while k < n && cs[k] != '.'
        invariant
            lo <= k <= n == cs@.len(),
            forall|j: int| lo <= j < k ==> cs@[j] != '.',
        decreases n - k,
    {
        k += 1;
    }
    k
}

/// Reads a temperature typed as a decimal number into thousandths.
#[verifier::rlimit(40)]
pub fn parse_milli(s: &str) -> (r: Option<u32>)
    ensures
        r matches Some(v) ==> milli_value(s@) == Some(v as nat),
        r is None ==> milli_value(s@) is None,
{
    let cs = chars_of(s);
    let n = cs.len();
    let lo: usize = if n > 0 && cs[0] == '+' { 1 } else { 0 };
    let ghost b = unsigned_body(s@);
    assert(cs@.subrange(lo as int, n as int) =~= b);
    let k = find_dot(&cs, lo);
    proof {
        lemma_dot_position_is(b, k - lo);
        assert(b.subrange(0, k - lo) =~= cs@.subrange(lo as int, k as int));
        if k < n {
            assert(b.subrange(k - lo + 1, b.len() as int) =~= cs@.subrange(k + 1, n as int));
        }
    }
    let frac_lo: usize = if k < n { k + 1 } else { n };
    let frac_len: usize = n - frac_lo;
    if k == lo && frac_len == 0 {
        return None;
    }
    let ghost fs = cs@.subrange(frac_lo as int, n as int);
    let frac_hi: usize = if frac_len > 3 { frac_lo + 3 } else { n };
    let mut j: usize = frac_hi;
    while j < n && cs[j] == '0'
        invariant
            frac_hi <= j <= n == cs@.len(),
            forall|t: int| frac_hi <= t < j ==> cs@[t] == '0',
        decreases n - j,
    {
        j += 1;
    }
    if j < n {
        proof {
            assert(k < n && frac_lo == k + 1);
            assert(dot_position(b) == k - lo);
            assert(k - lo < b.len());
            assert(b.subrange(k - lo + 1, b.len() as int) =~= fs);
            assert(fs[j - frac_lo] == cs@[j as int]);
            assert(!zeros_after_third(fs));
        }
        return None;
    }
    let ghost f3 = cs@.subrange(frac_lo as int, frac_hi as int);
    proof {
        if frac_len > 3 {
            assert(fs.subrange(0, 3) =~= f3);
        } else {
            assert(fs =~= f3);
        }
        assert forall|t: int| 3 <= t < fs.len() implies #[trigger] fs[t] == '0' by {
            assert(fs[t] == cs@[frac_lo + t]);
        }
        assert(zeros_after_third(fs));
    }
    let whole = match digits_value(&cs, lo, k, 4294967) {
        Some(w) => w,
        None => {
            assert(cs@.subrange(n as int, n as int) =~= Seq::<char>::empty());
            return None;
        },
    };
    let frac = match digits_value(&cs, frac_lo, frac_hi, 999) {
        Some(f) => f,
        None => {
            proof {
                if all_digits(f3) {
                    lemma_small_decimal(f3);
                }
                if all_digits(fs) {
                    assert forall|t: int| 0 <= t < f3.len() implies #[trigger] is_digit(f3[t]) by {
                        assert(f3[t] == fs[t]);
                    }
                }
            }
            return None;
        },
    };
    proof {
        assert forall|t: int| 0 <= t < fs.len() implies #[trigger] is_digit(fs[t]) by {
            if t < f3.len() {
                assert(fs[t] == f3[t]);
            } else {
                assert(fs[t] == cs@[frac_lo + t]);
            }
        }
    }
    let f3_len: usize = frac_hi - frac_lo;
    let scale: u64 = if f3_len == 0 { 1000 } else if f3_len == 1 { 100 } else if f3_len == 2 { 10 } else { 1 };
    proof {
        assert(pow10(0) == 1);
        assert(pow10(1) == 10);
        assert(pow10(2) == 100);
        assert(pow10(3) == 1000);
        assert(cs@.subrange(n as int, n as int) =~= Seq::<char>::empty());
    }
    assert(frac * scale <= 999000) by (nonlinear_arith)
        requires
            frac <= 999,
            scale <= 1000,
    ;
    let v = whole * 1000 + frac * scale;
    if v > u32::MAX as u64 {
        return None;
    }
    Some(v as u32)
}

/// A run of `k` digits spells less than `10^k`.
proof fn lemma_decimal_below(f: Seq<char>)
    requires
        all_digits(f),
    ensures
        decimal_value(f) < pow10(f.len()),
    decreases f.len(),
{
    if f.len() > 0 {
        lemma_decimal_below(f.drop_last());
        assert(is_digit(f[f.len() - 1]));
    }
}

/// At most three digits never spell more than `999`.
proof fn lemma_small_decimal(f: Seq<char>)
    requires
        all_digits(f),
        f.len() <= 3,
    ensures
        decimal_value(f) <= 999,
{
    lemma_decimal_below(f);
    assert(pow10(0) == 1);
    assert(pow10(1) == 10);
    assert(pow10(2) == 100);
    assert(pow10(3) == 1000);
}

} // verus!
