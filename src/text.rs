//! Character-level text helpers shared by the command parser, the input
//! buffers and the session store.
use vstd::prelude::*;
use vstd::string::*;

verus! {

/// The Unicode `White_Space` property, the set that `char::is_whitespace`
/// tests for.
pub open spec fn white_space(c: char) -> bool {
    let u = c as u32;
    ||| 0x9 <= u <= 0xD
    ||| u == 0x20
    ||| u == 0x85
    ||| u == 0xA0
    ||| u == 0x1680
    ||| 0x2000 <= u <= 0x200A
    ||| u == 0x2028
    ||| u == 0x2029
    ||| u == 0x202F
    ||| u == 0x205F
    ||| u == 0x3000
}

/// Whether `c` is a white-space character.
pub fn is_white_space(c: char) -> (r: bool)
    ensures
        r == white_space(c),
{
    let u = c as u32;
    (0x9 <= u && u <= 0xD) || u == 0x20 || u == 0x85 || u == 0xA0 || u == 0x1680
        || (0x2000 <= u && u <= 0x200A) || u == 0x2028 || u == 0x2029 || u == 0x202F
        || u == 0x205F || u == 0x3000
}

/// The characters of `s`, in order.
pub fn chars_of(s: &str) -> (r: Vec<char>)
    ensures
        r@ == s@,
{
    let n = s.unicode_len();
    let mut out: Vec<char> = Vec::new();
    let mut i: usize = 0;
    while i < n
        invariant
            n == s@.len(),
            i <= n,
            out@ == s@.subrange(0, i as int),
        decreases n - i,
    {
        out.push(s.get_char(i));
        i += 1;
    }
    assert(out@ =~= s@);
    out
}

/// Relies on `String::push`: it appends one character at the end.
#[verifier::external_body]
pub(crate) fn push_char(s: &mut String, c: char)
    ensures
        final(s)@ == old(s)@.push(c),
{
    s.push(c)
}

/// Relies on `String::pop`: it removes and returns the last character, or
/// returns `None` on an empty string.
#[verifier::external_body]
pub(crate) fn pop_char(s: &mut String) -> (r: Option<char>)
    ensures
        old(s)@.len() == 0 ==> r is None && final(s)@ == old(s)@,
        old(s)@.len() > 0 ==> r == Some(old(s)@.last()) && final(s)@ == old(s)@.drop_last(),
{
    s.pop()
}

/// A `String` holding the characters `cs[lo..hi]`.
pub fn string_of_range(cs: &Vec<char>, lo: usize, hi: usize) -> (r: String)
    requires
        lo <= hi <= cs@.len(),
    ensures
        r@ == cs@.subrange(lo as int, hi as int),
{
    let mut out = String::new();
    let mut i: usize = lo;
    while i < hi
        invariant
            lo <= i <= hi <= cs@.len(),
            out@ == cs@.subrange(lo as int, i as int),
        decreases hi - i,
    {
        push_char(&mut out, cs[i]);
        assert(cs@.subrange(lo as int, i + 1) =~= cs@.subrange(lo as int, i as int).push(cs@[i as int]));
        i += 1;
    }
    out
}

/// A `String` holding exactly the characters of `cs`.
pub fn string_of(cs: &Vec<char>) -> (r: String)
    ensures
        r@ == cs@,
{
    let r = string_of_range(cs, 0, cs.len());
    assert(cs@.subrange(0, cs@.len() as int) =~= cs@);
    r
}

/// Whether two texts hold the same characters.
pub fn same_text(a: &str, b: &str) -> (r: bool)
    ensures
        r == (a@ == b@),
{
    let n = a.unicode_len();
    if n != b.unicode_len() {
        return false;
    }
    let mut i: usize = 0;
    while i < n
        invariant
            n == a@.len() == b@.len(),
            i <= n,
            a@.subrange(0, i as int) == b@.subrange(0, i as int),
        decreases n - i,
    {
        if a.get_char(i) != b.get_char(i) {
            return false;
        }
        assert(a@.subrange(0, i + 1) =~= a@.subrange(0, i as int).push(a@[i as int]));
        assert(b@.subrange(0, i + 1) =~= b@.subrange(0, i as int).push(b@[i as int]));
        i += 1;
    }
    assert(a@ =~= a@.subrange(0, n as int));
    assert(b@ =~= b@.subrange(0, n as int));
    true
}

/// `s` without its leading white space.
pub open spec fn trim_start(s: Seq<char>) -> Seq<char>
    decreases s.len(),
{
    if s.len() > 0 && white_space(s[0]) {
        trim_start(s.drop_first())
    } else {
        s
    }
}

/// `s` without its trailing white space.
pub open spec fn trim_end(s: Seq<char>) -> Seq<char>
    decreases s.len(),
{
    if s.len() > 0 && white_space(s.last()) {
        trim_end(s.drop_last())
    } else {
        s
    }
}

/// `s` without leading or trailing white space, as `str::trim` gives it.
pub open spec fn trimmed(s: Seq<char>) -> Seq<char> {
    trim_end(trim_start(s))
}

/// `s` with white space removed at both ends.
pub fn trim(s: &str) -> (r: String)
    ensures
        r@ == trimmed(s@),
{
    let cs = chars_of(s);
    let n = cs.len();
    let mut i: usize = 0;
    assert(cs@.subrange(0, n as int) =~= cs@);
    while i < n && is_white_space(cs[i])
        invariant
            n == cs@.len(),
            i <= n,
            trim_start(cs@) == trim_start(cs@.subrange(i as int, n as int)),
        decreases n - i,
    {
        assert(cs@.subrange(i as int, n as int).drop_first() =~= cs@.subrange(i + 1, n as int));
        i += 1;
    }
    assert(trim_start(cs@) == cs@.subrange(i as int, n as int));
    let mut j: usize = n;
    while j > i && is_white_space(cs[j - 1])
        invariant
            i <= j <= n == cs@.len(),
            trim_end(cs@.subrange(i as int, n as int)) == trim_end(cs@.subrange(i as int, j as int)),
        decreases j - i,
    {
        assert(cs@.subrange(i as int, j as int).drop_last() =~= cs@.subrange(i as int, j - 1));
        j -= 1;
    }
    string_of_range(&cs, i, j)
}

/// The words of `s` read so far: those already closed by white space, and the
/// one still open.
pub open spec fn scan_words(s: Seq<char>) -> (Seq<Seq<char>>, Seq<char>)
    decreases s.len(),
{
    if s.len() == 0 {
        (Seq::empty(), Seq::empty())
    } else {
        let (done, open) = scan_words(s.drop_last());
        let c = s.last();
        if white_space(c) {
            if open.len() > 0 {
                (done.push(open), Seq::empty())
            } else {
                (done, Seq::empty())
            }
        } else {
            (done, open.push(c))
        }
    }
}

/// The maximal runs of non-white-space characters of `s`, in order, as
/// `str::split_whitespace` yields them.
pub open spec fn words(s: Seq<char>) -> Seq<Seq<char>> {
    let (done, open) = scan_words(s);
    if open.len() > 0 {
        done.push(open)
    } else {
        done
    }
}

/// White space at the end of a text adds no word.
pub proof fn lemma_words_trailing_space(s: Seq<char>, c: char)
    requires
        white_space(c),
    ensures
        words(s.push(c)) == words(s),
{
    assert(s.push(c).drop_last() =~= s);
}

/// Characters none of which is white space extend the word still open.
pub proof fn lemma_scan_extends(p: Seq<char>, t: Seq<char>)
    requires
        forall|i: int| 0 <= i < t.len() ==> !white_space(#[trigger] t[i]),
    ensures
        scan_words(p + t) == (scan_words(p).0, scan_words(p).1 + t),
    decreases t.len(),
{
    if t.len() == 0 {
        assert(p + t =~= p);
        assert(scan_words(p).1 + t =~= scan_words(p).1);
    } else {
        let u = t.drop_last();
        assert forall|i: int| 0 <= i < u.len() implies !white_space(#[trigger] u[i]) by {
            assert(u[i] == t[i]);
        }
        lemma_scan_extends(p, u);
        assert((p + t).drop_last() =~= p + u);
        assert((p + t).last() == t.last());
        assert((scan_words(p).1 + u).push(t.last()) =~= scan_words(p).1 + t);
    }
}

/// The character sequences that a list of strings holds.
pub open spec fn texts(v: Seq<String>) -> Seq<Seq<char>> {
    v.map_values(|w: String| w@)
}

/// The words of `s[from..]`.
pub fn split_words_from(s: &str, from: usize) -> (r: Vec<String>)
    requires
        from <= s@.len(),
    ensures
        texts(r@) == words(s@.subrange(from as int, s@.len() as int)),
{
    let cs = chars_of(s);
    let n = cs.len();
    let ghost t = cs@.subrange(from as int, n as int);
    let mut done: Vec<String> = Vec::new();
    let mut open: Vec<char> = Vec::new();
    let mut i: usize = from;
    while i < n
        invariant
            n == cs@.len(),
            cs@ == s@,
            from <= i <= n,
            t == cs@.subrange(from as int, n as int),
            (texts(done@), open@) == scan_words(cs@.subrange(from as int, i as int)),
        decreases n - i,
    {
        let c = cs[i];
        let ghost before = cs@.subrange(from as int, i as int);
        assert(cs@.subrange(from as int, i + 1).drop_last() =~= before);
        if is_white_space(c) {
            if open.len() > 0 {
                let w = string_of(&open);
                done.push(w);
                assert(texts(done@) =~= texts(done@.drop_last()).push(w@));
                open = Vec::new();
            }
        } else {
            open.push(c);
        }
        i += 1;
    }
    assert(cs@.subrange(from as int, n as int) =~= t);
    if open.len() > 0 {
        let w = string_of(&open);
        done.push(w);
        assert(texts(done@) =~= texts(done@.drop_last()).push(w@));
    }
    done
}

/// Whether `n` occurs in `h` as a contiguous run.
pub open spec fn is_infix(n: Seq<char>, h: Seq<char>) -> bool {
    exists|k: int| 0 <= k && k + n.len() <= h.len() && #[trigger] h.subrange(k, k + n.len()) == n
}

/// Whether `needle` occurs in `hay`, as `str::contains` tests it.
pub fn contains_text(hay: &str, needle: &str) -> (r: bool)
    ensures
        r == is_infix(needle@, hay@),
{
    let h = chars_of(hay);
    let nd = chars_of(needle);
    let hn = h.len();
    let nn = nd.len();
    if nn > hn {
        return false;
    }
    let mut k: usize = 0;
    while k <= hn - nn
        invariant
            h@ == hay@,
            nd@ == needle@,
            hn == h@.len(),
            nn == nd@.len(),
            nn <= hn,
            k <= hn - nn + 1,
            forall|j: int| 0 <= j < k ==> #[trigger] h@.subrange(j, j + nn) != nd@,
        decreases hn - nn + 1 - k,
    {
        let mut m: usize = 0;
        while m < nn && h[k + m] == nd[m]
            invariant
                hn == h@.len(),
                nn == nd@.len(),
                k + nn <= hn,
                m <= nn,
                h@.subrange(k as int, k + m) == nd@.subrange(0, m as int),
            decreases nn - m,
        {
            assert(h@.subrange(k as int, k + m + 1) =~= h@.subrange(k as int, k + m).push(h@[k + m]));
            assert(nd@.subrange(0, m + 1) =~= nd@.subrange(0, m as int).push(nd@[m as int]));
            m += 1;
        }
        if m == nn {
            assert(nd@.subrange(0, nn as int) =~= nd@);
            assert(h@.subrange(k as int, k + nn) == nd@);
            return true;
        }
        assert(h@.subrange(k as int, k + nn)[m as int] != nd@[m as int]);
        k += 1;
    }
    assert forall|j: int| 0 <= j && j + nd@.len() <= h@.len() implies #[trigger] h@.subrange(j, j + nd@.len()) != nd@ by {
        assert(j < k);
    }
    false
}


/// The decimal digit character for `d < 10`.
pub open spec fn digit_char(d: nat) -> char {
    (d + 48) as char
}

/// The decimal spelling of `n`, without leading zeros.
pub open spec fn decimal_spelling(n: nat) -> Seq<char>
    decreases n,
{
    if n < 10 {
        seq![digit_char(n)]
    } else {
        decimal_spelling(n / 10).push(digit_char(n % 10))
    }
}

/// The character of the decimal digit `d`.
fn digit_for(d: usize) -> (c: char)
    requires
        d < 10,
    ensures
        c == digit_char(d as nat),
{
    match d {
        0 => '0',
        1 => '1',
        2 => '2',
        3 => '3',
        4 => '4',
        5 => '5',
        6 => '6',
        7 => '7',
        8 => '8',
        _ => '9',
    }
}

/// Appends the decimal spelling of `n` to `out`.
pub fn push_decimal(out: &mut String, n: usize)
    ensures
        final(out)@ == old(out)@ + decimal_spelling(n as nat),
    decreases n,
{
    if n >= 10 {
        push_decimal(out, n / 10);
    }
    push_char(out, digit_for(n % 10));
    assert(decimal_spelling(n as nat) =~= if n < 10 {
        Seq::<char>::empty().push(digit_char(n as nat))
    } else {
        decimal_spelling((n / 10) as nat).push(digit_char((n % 10) as nat))
    });
}


/// The decimal spelling of `n`.
pub fn decimal_text(n: usize) -> (r: String)
    ensures
        r@ == decimal_spelling(n as nat),
{
    let mut s = String::new();
    push_decimal(&mut s, n);
    assert(s@ =~= decimal_spelling(n as nat));
    s
}

/// The decimal spelling of a signed number, with `-` before a negative one.
pub open spec fn signed_spelling(v: int) -> Seq<char> {
    if v < 0 {
        seq!['-'] + decimal_spelling((-v) as nat)
    } else {
        decimal_spelling(v as nat)
    }
}

/// The decimal spelling of `v`.
pub fn signed_text(v: i32) -> (r: String)
    ensures
        r@ == signed_spelling(v as int),
{
    let mut s = String::new();
    if v < 0 {
        push_char(&mut s, '-');
        let m: i64 = 0 - (v as i64);
        push_decimal(&mut s, m as usize);
    } else {
        push_decimal(&mut s, v as usize);
    }
    assert(s@ =~= signed_spelling(v as int));
    s
}

} // verus!
