//! Character-level text helpers shared by the parsers and formatters.
//!
//! Text is handled as `Vec<char>` in executable code and as `Seq<char>` in
//! specifications; `chars_of` and `string_of` move between `str`/`String`
//! and that representation.
use vstd::prelude::*;

verus! {

// ───────────────────────── conversion ─────────────────────────

/// The characters of `s`, in order.
pub fn chars_of(s: &str) -> (v: Vec<char>)
    ensures
        v@ == s@,
{
    let mut v: Vec<char> = Vec::new();
    for c in it: s.chars()
        invariant
            v@ == it.seq().take(it.index() as int),
    {
        v.push(c);
    }
    v
}

/// `String::from_iter` over the characters of `v`: a `String` holding exactly
/// those characters, in order.
#[verifier::external_body]
pub(crate) fn string_of(v: &Vec<char>) -> (s: String)
    ensures
        s@ == v@,
{
    v.iter().collect::<String>()
}

/// The characters of `v[lo..hi]` as a new vector.
pub fn subvec(v: &Vec<char>, lo: usize, hi: usize) -> (r: Vec<char>)
    requires
        lo <= hi <= v@.len(),
    ensures
        r@ == v@.subrange(lo as int, hi as int),
{
    let mut r: Vec<char> = Vec::new();
    let mut i = lo;
    while i < hi
        invariant
            lo <= i <= hi <= v@.len(),
            r@ == v@.subrange(lo as int, i as int),
        decreases hi - i,
    {
        r.push(v[i]);
        i = i + 1;
    }
    r
}

/// Appends the characters of `src` to `dst`.
pub fn push_all(dst: &mut Vec<char>, src: &Vec<char>)
    ensures
        final(dst)@ == old(dst)@ + src@,
{
    let mut i: usize = 0;
    while i < src.len()
        invariant
            i <= src@.len(),
            dst@ == old(dst)@ + src@.take(i as int),
        decreases src@.len() - i,
    {
        dst.push(src[i]);
        i = i + 1;
    }
}

/// Appends the characters of `s` to `dst`.
pub fn push_str(dst: &mut Vec<char>, s: &str)
    ensures
        final(dst)@ == old(dst)@ + s@,
{
    let cs = chars_of(s);
    push_all(dst, &cs);
}

/// Whether two character sequences are equal.
pub fn chars_eq(a: &Vec<char>, b: &Vec<char>) -> (r: bool)
    ensures
        r == (a@ == b@),
{
    if a.len() != b.len() {
        return false;
    }
    let mut i: usize = 0;
    while i < a.len()
        invariant
            a@.len() == b@.len(),
            i <= a@.len(),
            forall|j: int| 0 <= j < i ==> a@[j] == b@[j],
        decreases a@.len() - i,
    {
        if a[i] != b[i] {
            return false;
        }
        i = i + 1;
    }
    assert(a@ =~= b@);
    true
}

/// `s` begins with `p`.
pub open spec fn starts_with(s: Seq<char>, p: Seq<char>) -> bool {
    p.len() <= s.len() && s.take(p.len() as int) == p
}

/// Whether `s` begins with `p`.
pub fn has_prefix(s: &Vec<char>, p: &Vec<char>) -> (r: bool)
    ensures
        r == starts_with(s@, p@),
{
    if p.len() > s.len() {
        return false;
    }
    let mut i: usize = 0;
    while i < p.len()
        invariant
            p@.len() <= s@.len(),
            i <= p@.len(),
            forall|j: int| 0 <= j < i ==> s@[j] == p@[j],
        decreases p@.len() - i,
    {
        if s[i] != p[i] {
            assert(s@.take(p@.len() as int)[i as int] != p@[i as int]);
            return false;
        }
        i = i + 1;
    }
    assert(s@.take(p@.len() as int) =~= p@);
    true
}

// ───────────────────────── white space and trimming ─────────────────────────

/// The Unicode `White_Space` property, which `char::is_whitespace` and
/// `str::trim` go by.
pub open spec fn is_white_space(c: char) -> bool {
    let u = c as u32;
    ||| 0x9 <= u <= 0xd
    ||| u == 0x20
    ||| u == 0x85
    ||| u == 0xa0
    ||| u == 0x1680
    ||| 0x2000 <= u <= 0x200a
    ||| u == 0x2028
    ||| u == 0x2029
    ||| u == 0x202f
    ||| u == 0x205f
    ||| u == 0x3000
}

/// Whether `c` has the Unicode `White_Space` property.
pub fn white_space(c: char) -> (r: bool)
    ensures
        r == is_white_space(c),
{
    let u = c as u32;
    (0x9 <= u && u <= 0xd) || u == 0x20 || u == 0x85 || u == 0xa0 || u == 0x1680 || (0x2000
        <= u && u <= 0x200a) || u == 0x2028 || u == 0x2029 || u == 0x202f || u == 0x205f || u
        == 0x3000
}

/// `s` without its leading white space.
pub open spec fn trim_start(s: Seq<char>) -> Seq<char>
    decreases s.len(),
{
    if s.len() > 0 && is_white_space(s[0]) {
        trim_start(s.drop_first())
    } else {
        s
    }
}

/// `s` without its trailing white space.
pub open spec fn trim_end(s: Seq<char>) -> Seq<char>
    decreases s.len(),
{
    if s.len() > 0 && is_white_space(s.last()) {
        trim_end(s.drop_last())
    } else {
        s
    }
}

/// `s` without leading and trailing white space (`str::trim`).
pub open spec fn trim(s: Seq<char>) -> Seq<char> {
    trim_end(trim_start(s))
}

/// The bounds `(a, b)` of the part of `v[lo..hi]` that `trim` keeps.
pub fn trim_bounds(v: &Vec<char>, lo: usize, hi: usize) -> (r: (usize, usize))
    requires
        lo <= hi <= v@.len(),
    ensures
        lo <= r.0 <= r.1 <= hi,
        trim_start(v@.subrange(lo as int, hi as int)) == v@.subrange(r.0 as int, hi as int),
        trim(v@.subrange(lo as int, hi as int)) == v@.subrange(r.0 as int, r.1 as int),
{
    let mut a = lo;
    while a < hi && white_space(v[a])
        invariant
            lo <= a <= hi <= v@.len(),
            trim_start(v@.subrange(lo as int, hi as int)) == trim_start(
                v@.subrange(a as int, hi as int),
            ),
        decreases hi - a,
    {
        assert(v@.subrange(a as int, hi as int).drop_first() =~= v@.subrange(
            a + 1,
            hi as int,
        ));
        a = a + 1;
    }
    let mut b = hi;
    while b > a && white_space(v[b - 1])
        invariant
            lo <= a <= b <= hi <= v@.len(),
            trim_end(v@.subrange(a as int, hi as int)) == trim_end(
                v@.subrange(a as int, b as int),
            ),
        decreases b - a,
    {
        assert(v@.subrange(a as int, b as int).drop_last() =~= v@.subrange(
            a as int,
            b - 1,
        ));
        b = b - 1;
    }
    (a, b)
}

/// `trim` of `v`, as a new vector.
pub fn trimmed(v: &Vec<char>) -> (r: Vec<char>)
    ensures
        r@ == trim(v@),
{
    let (a, b) = trim_bounds(v, 0, v.len());
    assert(v@.subrange(0, v@.len() as int) =~= v@);
    subvec(v, a, b)
}

/// `trim_start` of `v`, as a new vector.
pub fn trimmed_start(v: &Vec<char>) -> (r: Vec<char>)
    ensures
        r@ == trim_start(v@),
{
    let (a, _b) = trim_bounds(v, 0, v.len());
    assert(v@.subrange(0, v@.len() as int) =~= v@);
    subvec(v, a, v.len())
}

// ───────────────────────── ASCII case ─────────────────────────

/// ASCII lower-casing of one character (`char::to_ascii_lowercase`).
pub open spec fn ascii_lower(c: char) -> char {
    if 'A' <= c <= 'Z' {
        ((c as u32) + 32) as char
    } else {
        c
    }
}

/// `a` and `b` are equal up to ASCII case (`str::eq_ignore_ascii_case`).
pub open spec fn ascii_ci_eq(a: Seq<char>, b: Seq<char>) -> bool {
    a.len() == b.len() && forall|i: int| 0 <= i < a.len() ==> ascii_lower(a[i]) == ascii_lower(b[i])
}

/// Whether `a` and `b` are the same character up to ASCII case.
pub fn char_ci_eq(a: char, b: char) -> (r: bool)
    ensures
        r == (ascii_lower(a) == ascii_lower(b)),
{
    let x = a as u32;
    let y = b as u32;
    let lx = if 0x41 <= x && x <= 0x5a { x + 32 } else { x };
    let ly = if 0x41 <= y && y <= 0x5a { y + 32 } else { y };
    assert(('A' <= a <= 'Z') == (0x41 <= x <= 0x5a));
    assert(('A' <= b <= 'Z') == (0x41 <= y <= 0x5a));
    lx == ly
}

/// Whether `s[at..at + p.len()]` equals `p` up to ASCII case.
pub fn ci_match_at(s: &Vec<char>, at: usize, p: &Vec<char>) -> (r: bool)
    requires
        at + p@.len() <= s@.len(),
    ensures
        r == ascii_ci_eq(s@.subrange(at as int, at + p@.len()), p@),
{
    let n = s.len();
    let mut i: usize = 0;
    while i < p.len()
        invariant
            n == s@.len(),
            at + p@.len() <= s@.len(),
            i <= p@.len(),
            forall|j: int|
                0 <= j < i ==> ascii_lower(#[trigger] s@[at + j]) == ascii_lower(p@[j]),
        decreases p@.len() - i,
    {
        if !char_ci_eq(s[at + i], p[i]) {
            assert(s@.subrange(at as int, at + p@.len())[i as int] == s@[at + i]);
            return false;
        }
        i = i + 1;
    }
    assert forall|j: int| 0 <= j < p@.len() implies ascii_lower(
        s@.subrange(at as int, at + p@.len())[j],
    ) == ascii_lower(p@[j]) by {
        assert(s@.subrange(at as int, at + p@.len())[j] == s@[at + j]);
    }
    true
}

// ───────────────────────── decimal text ─────────────────────────

/// The ASCII digit for `d < 10`.
pub open spec fn digit_char(d: nat) -> char {
    ((48 + d) as u32) as char
}

/// The decimal digits of `n`, most significant first, without leading
/// zeros (`"0"` for zero): what `n.to_string()` gives for an unsigned `n`.
pub open spec fn decimal(n: nat) -> Seq<char>
    decreases n,
{
    if n < 10 {
        seq![digit_char(n)]
    } else {
        decimal(n / 10).push(digit_char(n % 10))
    }
}

/// `n.to_string()` for a signed `n`: a `-` before the digits of `|n|`.
pub open spec fn signed_decimal(n: int) -> Seq<char> {
    if n < 0 {
        seq!['-'] + decimal((-n) as nat)
    } else {
        decimal(n as nat)
    }
}

fn digit(d: u64) -> (c: char)
    requires
        d < 10,
    ensures
        c == digit_char(d as nat),
{
    let b: u8 = 48u8 + (d as u8);
    let c = b as char;
    assert(c == digit_char(d as nat)) by {
        assert(b as u32 == 48 + d);
    }
    c
}

/// The decimal text of `n`.
pub fn u64_text(n: u64) -> (r: Vec<char>)
    ensures
        r@ == decimal(n as nat),
    decreases n,
{
    if n < 10 {
        let mut r: Vec<char> = Vec::new();
        r.push(digit(n));
        assert(r@ =~= seq![digit_char(n as nat)]);
        r
    } else {
        let mut r = u64_text(n / 10);
        r.push(digit(n % 10));
        r
    }
}

/// The decimal text of `n`, with a leading `-` when it is negative.
pub fn i64_text(n: i64) -> (r: Vec<char>)
    ensures
        r@ == signed_decimal(n as int),
{
    if n < 0 {
        let mag: u64 = if n == i64::MIN {
            9223372036854775808u64
        } else {
            (-n) as u64
        };
        let mut r: Vec<char> = Vec::new();
        r.push('-');
        let ds = u64_text(mag);
        push_all(&mut r, &ds);
        r
    } else {
        u64_text(n as u64)
    }
}

// ───────────────────────── integer parsing ─────────────────────────

/// `c` is an ASCII digit.
pub open spec fn is_digit(c: char) -> bool {
    '0' <= c <= '9'
}

/// Every character of `s` is an ASCII digit.
pub open spec fn all_digits(s: Seq<char>) -> bool {
    forall|i: int| 0 <= i < s.len() ==> is_digit(#[trigger] s[i])
}

/// The number that the digit string `s` denotes (0 for the empty string).
pub open spec fn digits_value(s: Seq<char>) -> nat
    decreases s.len(),
{
    if s.len() == 0 {
        0
    } else {
        digits_value(s.drop_last()) * 10 + ((s.last() as u32) - 48) as nat
    }
}

/// `str::parse::<u64>`: an optional `+`, then one or more ASCII digits whose
/// value fits in `u64`.
pub open spec fn parse_u64(s: Seq<char>) -> Option<u64> {
    let ds = if s.len() > 0 && s[0] == '+' {
        s.drop_first()
    } else {
        s
    };
    if ds.len() > 0 && all_digits(ds) && digits_value(ds) <= u64::MAX {
        Some(digits_value(ds) as u64)
    } else {
        None
    }
}

/// `str::parse::<i64>`: an optional `+` or `-`, then one or more ASCII
/// digits whose signed value fits in `i64`.
pub open spec fn parse_i64(s: Seq<char>) -> Option<i64> {
    let neg = s.len() > 0 && s[0] == '-';
    let ds = if s.len() > 0 && (s[0] == '+' || s[0] == '-') {
        s.drop_first()
    } else {
        s
    };
    let v: int = if neg {
        -(digits_value(ds) as int)
    } else {
        digits_value(ds) as int
    };
    if ds.len() > 0 && all_digits(ds) && i64::MIN <= v <= i64::MAX {
        Some(v as i64)
    } else {
        None
    }
}

/// The value of the digit string `v[lo..hi]`, capped at `cap`, and whether
/// all of its characters are digits.
fn capped_digits(v: &Vec<char>, lo: usize, hi: usize, cap: u64) -> (r: (bool, u64))
    requires
        lo <= hi <= v@.len(),
        cap <= u64::MAX / 16,
    ensures
        r.0 == all_digits(v@.subrange(lo as int, hi as int)),
        r.0 ==> r.1 == if digits_value(v@.subrange(lo as int, hi as int)) < cap {
            digits_value(v@.subrange(lo as int, hi as int))
        } else {
            cap as nat
        },
{
    let mut i = lo;
    let mut acc: u64 = 0;
    while i < hi
        invariant
            lo <= i <= hi <= v@.len(),
            cap <= u64::MAX / 16,
            all_digits(v@.subrange(lo as int, i as int)),
            acc == if digits_value(v@.subrange(lo as int, i as int)) < cap {
                digits_value(v@.subrange(lo as int, i as int))
            } else {
                cap as nat
            },
        decreases hi - i,
    {
        let c = v[i];
        if !('0' <= c && c <= '9') {
            assert(!is_digit(v@.subrange(lo as int, hi as int)[i - lo]));
            return (false, 0);
        }
        let d = (c as u32 - 48) as u64;
        let ghost prev = v@.subrange(lo as int, i as int);
        let ghost next = v@.subrange(lo as int, i + 1);
        assert(next.drop_last() =~= prev);
        assert(next.last() == c);
        let nv = acc * 10 + d;
        acc = if nv < cap {
            nv
        } else {
            cap
        };
        i = i + 1;
        assert forall|j: int| 0 <= j < next.len() implies is_digit(#[trigger] next[j]) by {
            if j < prev.len() {
                assert(next[j] == prev[j]);
            }
        }
    }
    (true, acc)
}

/// `str::parse::<u64>` of the characters `v[lo..hi]`.
pub fn parse_u64_at(v: &Vec<char>, lo: usize, hi: usize) -> (r: Option<u64>)
    requires
        lo <= hi <= v@.len(),
    ensures
        r == parse_u64(v@.subrange(lo as int, hi as int)),
{
    let ghost s = v@.subrange(lo as int, hi as int);
    let start = if lo < hi && v[lo] == '+' {
        lo + 1
    } else {
        lo
    };
    let ghost ds = v@.subrange(start as int, hi as int);
    assert(ds =~= (if s.len() > 0 && s[0] == '+' {
        s.drop_first()
    } else {
        s
    }));
    if start == hi {
        return None;
    }
    let cap: u64 = 0x0fff_ffff_ffff_ffff;
    let (ok, val) = capped_digits(v, start, hi, cap);
    if !ok {
        return None;
    }
    // the capped value is exact below the cap; past it only an overflow check
    // on the full value remains, done in 128-bit arithmetic
    if val < cap {
        return Some(val);
    }
    big_digits_u64(v, start, hi)
}

/// `Some(value)` of the all-digit string `v[lo..hi]` when it fits in `u64`.
fn big_digits_u64(v: &Vec<char>, lo: usize, hi: usize) -> (r: Option<u64>)
    requires
        lo < hi <= v@.len(),
        all_digits(v@.subrange(lo as int, hi as int)),
    ensures
        r == (if digits_value(v@.subrange(lo as int, hi as int)) <= u64::MAX {
            Some(digits_value(v@.subrange(lo as int, hi as int)) as u64)
        } else {
            None::<u64>
        }),
{
    let mut i = lo;
    let mut acc: u128 = 0;
    while i < hi
        invariant
            lo <= i <= hi <= v@.len(),
            all_digits(v@.subrange(lo as int, hi as int)),
            acc == digits_value(v@.subrange(lo as int, i as int)),
            acc <= u64::MAX,
        decreases hi - i,
    {
        let c = v[i];
        assert(is_digit(v@.subrange(lo as int, hi as int)[i - lo]));
        let d = (c as u32 - 48) as u128;
        let ghost prev = v@.subrange(lo as int, i as int);
        let ghost next = v@.subrange(lo as int, i + 1);
        assert(next.drop_last() =~= prev);
        let nv = acc * 10 + d;
        if nv > 0xffff_ffff_ffff_ffffu128 {
            proof {
                lemma_digits_value_prefix(v@.subrange(lo as int, hi as int), i + 1 - lo);
                assert(v@.subrange(lo as int, hi as int).take(i + 1 - lo) =~= next);
            }
            return None;
        }
        acc = nv;
        i = i + 1;
    }
    assert(v@.subrange(lo as int, i as int) =~= v@.subrange(lo as int, hi as int));
    Some(acc as u64)
}

/// A digit string is worth at least any of its prefixes.
pub proof fn lemma_digits_value_prefix(s: Seq<char>, k: int)
    requires
        0 <= k <= s.len(),
    ensures
        digits_value(s.take(k)) <= digits_value(s),
    decreases s.len() - k,
{
    if k < s.len() {
        lemma_digits_value_prefix(s, k + 1);
        assert(s.take(k + 1).drop_last() =~= s.take(k));
    } else {
        assert(s.take(k) =~= s);
    }
}

/// `str::parse::<i64>` of the characters `v[lo..hi]`.
pub fn parse_i64_at(v: &Vec<char>, lo: usize, hi: usize) -> (r: Option<i64>)
    requires
        lo <= hi <= v@.len(),
    ensures
        r == parse_i64(v@.subrange(lo as int, hi as int)),
{
    let ghost s = v@.subrange(lo as int, hi as int);
    let neg = lo < hi && v[lo] == '-';
    let start = if lo < hi && (v[lo] == '+' || v[lo] == '-') {
        lo + 1
    } else {
        lo
    };
    let ghost ds = v@.subrange(start as int, hi as int);
    assert(ds =~= (if s.len() > 0 && (s[0] == '+' || s[0] == '-') {
        s.drop_first()
    } else {
        s
    }));
    if start == hi {
        return None;
    }
    let (ok, val) = capped_digits(v, start, hi, 0x0fff_ffff_ffff_ffff);
    if !ok {
        return None;
    }
    if val == 0x0fff_ffff_ffff_ffff {
        match big_digits_u64(v, start, hi) {
            None => {
                return None;
            },
            Some(m) => {
                if neg {
                    if m <= 9223372036854775808u64 {
                        if m == 9223372036854775808u64 {
                            return Some(i64::MIN);
                        }
                        return Some(-(m as i64));
                    }
                    return None;
                } else {
                    if m <= 9223372036854775807u64 {
                        return Some(m as i64);
                    }
                    return None;
                }
            },
        }
    }
    if neg {
        Some(-(val as i64))
    } else {
        Some(val as i64)
    }
}

// ───────────────────────── splitting and joining ─────────────────────────

/// The pieces of `s` finished so far and the piece still open, after
/// reading `s` left to right and cutting at every character in `seps`.
pub open spec fn split_state(s: Seq<char>, seps: Seq<char>) -> (Seq<Seq<char>>, Seq<char>)
    decreases s.len(),
{
    if s.len() == 0 {
        (seq![], seq![])
    } else {
        let (done, cur) = split_state(s.drop_last(), seps);
        if seps.contains(s.last()) {
            (done.push(cur), seq![])
        } else {
            (done, cur.push(s.last()))
        }
    }
}

/// `str::split` at any character of `seps`: the text between consecutive
/// separators, so `k` separators give `k + 1` pieces.
pub open spec fn split_on(s: Seq<char>, seps: Seq<char>) -> Seq<Seq<char>> {
    let (done, cur) = split_state(s, seps);
    done.push(cur)
}

/// Whether `c` occurs in `seps`.
pub fn contains_char(seps: &Vec<char>, c: char) -> (r: bool)
    ensures
        r == seps@.contains(c),
{
    let mut i: usize = 0;
    while i < seps.len()
        invariant
            i <= seps@.len(),
            forall|j: int| 0 <= j < i ==> seps@[j] != c,
        decreases seps@.len() - i,
    {
        if seps[i] == c {
            assert(seps@[i as int] == c);
            return true;
        }
        i = i + 1;
    }
    false
}

/// The pieces of `v` cut at every character of `seps` (`str::split`).
pub fn split_pieces(v: &Vec<char>, seps: &Vec<char>) -> (r: Vec<Vec<char>>)
    ensures
        r@.len() == split_on(v@, seps@).len(),
        forall|k: int| 0 <= k < r@.len() ==> #[trigger] r@[k]@ == split_on(v@, seps@)[k],
{
    let mut done: Vec<Vec<char>> = Vec::new();
    let mut cur: Vec<char> = Vec::new();
    let mut i: usize = 0;
    while i < v.len()
        invariant
            i <= v@.len(),
            done@.len() == split_state(v@.take(i as int), seps@).0.len(),
            forall|k: int|
                0 <= k < done@.len() ==> #[trigger] done@[k]@ == split_state(
                    v@.take(i as int),
                    seps@,
                ).0[k],
            cur@ == split_state(v@.take(i as int), seps@).1,
        decreases v@.len() - i,
    {
        assert(v@.take(i + 1).drop_last() =~= v@.take(i as int));
        assert(v@.take(i + 1).last() == v@[i as int]);
        let c = v[i];
        if contains_char(seps, c) {
            let piece = cur;
            done.push(piece);
            cur = Vec::new();
            assert(cur@ =~= seq![]);
        } else {
            cur.push(c);
        }
        i = i + 1;
    }
    assert(v@.take(v@.len() as int) =~= v@);
    done.push(cur);
    done
}

/// `parts` joined with `sep` between consecutive parts (`[T]::join`).
pub open spec fn join(parts: Seq<Seq<char>>, sep: Seq<char>) -> Seq<char>
    decreases parts.len(),
{
    if parts.len() == 0 {
        seq![]
    } else if parts.len() == 1 {
        parts[0]
    } else {
        join(parts.drop_last(), sep) + sep + parts.last()
    }
}

/// `parts` joined with `sep` between consecutive parts.
pub fn join_chars(parts: &Vec<Vec<char>>, sep: &str) -> (r: Vec<char>)
    ensures
        r@ == join(parts@.map_values(|v: Vec<char>| v@), sep@),
{
    let ghost ps = parts@.map_values(|v: Vec<char>| v@);
    let mut out: Vec<char> = Vec::new();
    let mut k: usize = 0;
    while k < parts.len()
        invariant
            k <= parts@.len(),
            ps == parts@.map_values(|v: Vec<char>| v@),
            out@ == join(ps.take(k as int), sep@),
        decreases parts@.len() - k,
    {
        assert(ps.take(k + 1).drop_last() =~= ps.take(k as int));
        assert(ps.take(k + 1).last() == parts@[k as int]@);
        if k > 0 {
            push_str(&mut out, sep);
        } else {
            assert(ps.take(k + 1) =~= seq![parts@[0]@]);
        }
        push_all(&mut out, &parts[k]);
        k = k + 1;
    }
    assert(ps.take(parts@.len() as int) =~= ps);
    out
}

} // verus!

verus! {

// ───────────────────────── Unicode case mapping ─────────────────────────

/// What `str::to_uppercase` gives for the characters `s`: the Unicode
/// upper-case mapping of each character, which may change the length.
pub uninterp spec fn uppercase(s: Seq<char>) -> Seq<char>;

/// The ASCII upper case of `c`: `a`–`z` become `A`–`Z`, anything else
/// stays.
pub open spec fn ascii_upper(c: char) -> char {
    if 'a' <= c <= 'z' {
        ((c as u32) - 32) as char
    } else {
        c
    }
}

/// `str::to_uppercase`. The contract says that the result is the Unicode
/// upper-case mapping of `s`, a function of `s` alone, and that on ASCII
/// text it maps `a`–`z` to `A`–`Z` and keeps every other character; which
/// non-ASCII characters map to which is left to the Unicode tables and not
/// stated.
#[verifier::external_body]
pub(crate) fn to_uppercase(s: &str) -> (r: String)
    ensures
        r@ == uppercase(s@),
        (forall|i: int| 0 <= i < s@.len() ==> (#[trigger] s@[i] as u32) < 128) ==> r@
            == s@.map_values(|c: char| ascii_upper(c)),
{
    s.to_uppercase()
}

/// Whether the string is empty.
pub fn is_empty_string(s: &String) -> (r: bool)
    ensures
        r == (s@.len() == 0),
{
    s.as_str().is_empty()
}

/// `s` itself when it is not empty, otherwise the literal `default`.
pub fn or_default(s: &String, default: &str) -> (r: String)
    ensures
        r@ == (if s@.len() == 0 {
            default@
        } else {
            s@
        }),
{
    if is_empty_string(s) {
        String::from_str(default)
    } else {
        s.clone()
    }
}

} // verus!
