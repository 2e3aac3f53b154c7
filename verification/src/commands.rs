//! The logic behind the commands that the front end invokes: cleaning up a
//! pasted MiMo cookie and checking a theme name.
use vstd::prelude::*;

use crate::text::{
    ascii_ci_eq, chars_of, ci_match_at, join, push_all, push_str, split_on, split_pieces,
    string_of, subvec, trim, trim_end, trim_start, trimmed, trimmed_start,
};
use crate::config::{loaded_theme, theme_accepted, valid_theme};

verus! {

/// The header name that introduces a cookie value, matched up to ASCII case.
pub open spec fn cookie_marker() -> Seq<char> {
    "cookie:"@
}

/// The characters at which a cookie value is cut into pairs.
pub open spec fn cookie_separators() -> Seq<char> {
    seq![';', '\r', '\n']
}

/// When `s` begins with `Cookie:` (any ASCII case), the rest of `s` without
/// its leading white space.
pub open spec fn header_rest(s: Seq<char>) -> Option<Seq<char>> {
    if s.len() >= 7 && ascii_ci_eq(s.take(7), cookie_marker()) {
        Some(trim_start(s.skip(7)))
    } else {
        None
    }
}

/// `cookie:` (any ASCII case) occurs in `s` at index `i`.
pub open spec fn marker_at(s: Seq<char>, i: int) -> bool {
    0 <= i && i + 7 <= s.len() && ascii_ci_eq(s.subrange(i, i + 7), cookie_marker())
}

/// The last index below `k` at which `cookie:` occurs in `s`.
pub open spec fn last_marker_below(s: Seq<char>, k: int) -> Option<int>
    decreases k,
{
    if k <= 0 {
        None
    } else if marker_at(s, k - 1) {
        Some(k - 1)
    } else {
        last_marker_below(s, k - 1)
    }
}

/// The index of the first quote (`'` or `"`) in `r` at or after `k`, or the
/// length of `r` when there is none.
pub open spec fn quote_from(r: Seq<char>, k: int) -> int
    decreases r.len() - k,
{
    if k < 0 || k >= r.len() {
        r.len() as int
    } else if r[k] == '\'' || r[k] == '"' {
        k
    } else {
        quote_from(r, k + 1)
    }
}

/// The value of the last `cookie:` header in a cURL command line: the text
/// after the last `cookie:` up to the closing quote or the end, trimmed.
pub open spec fn curl_cookie(s: Seq<char>) -> Option<Seq<char>> {
    match last_marker_below(s, s.len() as int) {
        Some(i) => {
            let rest = s.skip(i + 7);
            Some(trim(rest.take(quote_from(rest, 0))))
        },
        None => None,
    }
}

/// The cookie text of a trimmed, non-empty input: after a `Cookie:` prefix,
/// or taken out of a cURL command, or the input itself.
pub open spec fn extracted_cookie(t: Seq<char>) -> Seq<char> {
    match header_rest(t) {
        Some(r) => r,
        None => match curl_cookie(t) {
            Some(v) => v,
            None => t,
        },
    }
}

/// The trimmed, non-empty ones among `parts`, in order.
pub open spec fn kept_parts(parts: Seq<Seq<char>>) -> Seq<Seq<char>>
    decreases parts.len(),
{
    if parts.len() == 0 {
        seq![]
    } else if trim(parts.last()).len() > 0 {
        kept_parts(parts.drop_last()).push(trim(parts.last()))
    } else {
        kept_parts(parts.drop_last())
    }
}

/// The cleaned-up cookie: empty for blank input; otherwise the extracted
/// cookie text cut at `;`, CR and LF, each pair trimmed, empty pairs
/// dropped, and the pairs joined with `"; "`.
pub open spec fn normalized_cookie(raw: Seq<char>) -> Seq<char> {
    let t = trim(raw);
    if t.len() == 0 {
        seq![]
    } else {
        join(kept_parts(split_on(extracted_cookie(t), cookie_separators())), "; "@)
    }
}

/// When `s` begins with `Cookie:` in any ASCII case, the rest of `s` with
/// its leading white space removed.
pub fn strip_leading_cookie_header(s: &str) -> (r: Option<String>)
    ensures
        opt_chars(r) == header_rest(s@),
{
    let v = chars_of(s);
    if v.len() >= 7 {
        let marker = chars_of("cookie:");
        proof {
            reveal_strlit("cookie:");
        }
        if ci_match_at(&v, 0, &marker) {
            assert(v@.subrange(0, 7) =~= v@.take(7));
            let rest = subvec(&v, 7, v.len());
            assert(rest@ =~= v@.skip(7));
            let t = trimmed_start(&rest);
            return Some(string_of(&t));
        }
        assert(v@.subrange(0, 7) =~= v@.take(7));
    }
    None
}

/// The view of an optional string.
pub open spec fn opt_chars(o: Option<String>) -> Option<Seq<char>> {
    match o {
        Some(s) => Some(s@),
        None => None,
    }
}

/// The value of the last `Cookie:` header (any ASCII case) in a cURL
/// command line, up to the closing quote, trimmed.
///
/// The header name is matched with ASCII case folding only: a name spelt
/// with a non-ASCII letter that lower-cases to an ASCII one (such as the
/// Kelvin sign `K` in `cooKie:`) is not a cookie header here. Matching by
/// Unicode lower-casing and then cutting the original text at the
/// lower-cased text's index would cut at the wrong place wherever
/// lower-casing changes a character's length.
pub fn extract_cookie_from_curl(s: &str) -> (r: Option<String>)
    ensures
        opt_chars(r) == curl_cookie(s@),
{
    let v = chars_of(s);
    let marker = chars_of("cookie:");
    proof {
        reveal_strlit("cookie:");
    }
    let n = v.len();
    if n < 7 {
        assert(last_marker_below(v@, n as int) == None::<int>) by {
            lemma_no_marker_below(v@, n as int);
        }
        return None;
    }
    // scan candidate start indices from the last one down
    proof {
        lemma_marker_top(v@);
    }
    let mut k: usize = n - 6;
    while k > 0 && !ci_match_at(&v, k - 1, &marker)
        invariant
            n == v@.len(),
            n >= 7,
            k <= n - 6,
            marker@ == cookie_marker(),
            marker@.len() == 7,
            last_marker_below(v@, n as int) == last_marker_below(v@, k as int),
        decreases k,
    {
        k = k - 1;
    }
    if k == 0 {
        return None;
    }
    let i = k - 1;
    let rest = subvec(&v, i + 7, n);
    assert(rest@ =~= v@.skip(i + 7));
    let mut e: usize = 0;
    while e < rest.len() && rest[e] != '\'' && rest[e] != '"'
        invariant
            e <= rest@.len(),
            quote_from(rest@, 0) == quote_from(rest@, e as int),
        decreases rest@.len() - e,
    {
        e = e + 1;
    }
    let head = subvec(&rest, 0, e);
    assert(head@ =~= rest@.take(e as int));
    let t = trimmed(&head);
    Some(string_of(&t))
}

/// No occurrence of the seven-character marker can start in the last six
/// positions, so the scan may start at `len - 6`.
proof fn lemma_marker_top(s: Seq<char>)
    requires
        s.len() >= 7,
    ensures
        last_marker_below(s, s.len() as int) == last_marker_below(s, s.len() - 6),
{
    lemma_marker_skip(s, s.len() as int, s.len() - 6);
}

proof fn lemma_marker_skip(s: Seq<char>, k: int, lo: int)
    requires
        0 <= lo <= k <= s.len(),
        lo >= s.len() - 6,
    ensures
        last_marker_below(s, k) == last_marker_below(s, lo),
    decreases k - lo,
{
    if k > lo {
        assert(!marker_at(s, k - 1));
        lemma_marker_skip(s, k - 1, lo);
    }
}

proof fn lemma_no_marker_below(s: Seq<char>, k: int)
    requires
        0 <= k <= s.len(),
        s.len() < 7,
    ensures
        last_marker_below(s, k) == None::<int>,
    decreases k,
{
    if k > 0 {
        assert(!marker_at(s, k - 1));
        lemma_no_marker_below(s, k - 1);
    }
}

/// Cleans up a cookie pasted by the user. Accepts the bare value
/// (`a=1; b=2`), the value behind a `Cookie:` header, or a whole cURL
/// command; folds line breaks and evens out the spacing around `;`.
/// Blank input gives the empty string, which clears the setting.
pub fn normalize_cookie(raw: &str) -> (r: String)
    ensures
        r@ == normalized_cookie(raw@),
{
    let v = chars_of(raw);
    let t = trimmed(&v);
    if t.len() == 0 {
        return String::new();
    }
    let ts = string_of(&t);
    let ex: Vec<char> = match strip_leading_cookie_header(ts.as_str()) {
        Some(rest) => chars_of(rest.as_str()),
        None => match extract_cookie_from_curl(ts.as_str()) {
            Some(c) => chars_of(c.as_str()),
            None => t,
        },
    };
    let mut seps: Vec<char> = Vec::new();
    seps.push(';');
    seps.push('\r');
    seps.push('\n');
    assert(seps@ =~= cookie_separators());
    let pieces = split_pieces(&ex, &seps);
    let ghost ps = split_on(ex@, seps@);
    let mut out: Vec<char> = Vec::new();
    let mut any = false;
    let mut k: usize = 0;
    while k < pieces.len()
        invariant
            k <= pieces@.len(),
            pieces@.len() == ps.len(),
            forall|j: int| 0 <= j < pieces@.len() ==> #[trigger] pieces@[j]@ == ps[j],
            any == (kept_parts(ps.take(k as int)).len() > 0),
            out@ == join(kept_parts(ps.take(k as int)), "; "@),
        decreases pieces@.len() - k,
    {
        assert(ps.take(k + 1).drop_last() =~= ps.take(k as int));
        assert(ps.take(k + 1).last() == ps[k as int]);
        let p = trimmed(&pieces[k]);
        if p.len() > 0 {
            let ghost prev = kept_parts(ps.take(k as int));
            assert(kept_parts(ps.take(k + 1)) == prev.push(p@));
            if any {
                push_str(&mut out, "; ");
                assert(prev.push(p@).drop_last() =~= prev);
            } else {
                assert(prev.push(p@) =~= seq![p@]);
            }
            push_all(&mut out, &p);
            any = true;
        }
        k = k + 1;
    }
    assert(ps.take(ps.len() as int) =~= ps);
    string_of(&out)
}

/// Checks a theme name before it is saved: `Ok` for `system`, `dark` and
/// `light`, otherwise the message `invalid theme: {theme}`.
pub fn check_theme(theme: &str) -> (r: Result<(), String>)
    ensures
        r is Ok <==> valid_theme(theme@),
        r matches Err(msg) ==> msg@ == "invalid theme: "@ + theme@,
{
    if theme_accepted(theme) {
        Ok(())
    } else {
        let mut m = chars_of("invalid theme: ");
        push_str(&mut m, theme);
        Err(string_of(&m))
    }
}

// ───────────────────────── cleaning a clean cookie changes nothing ─────────────────────────

/// `trim_start` drops a prefix and `trim_end` a suffix.
proof fn lemma_trim_shapes(s: Seq<char>)
    ensures
        trim_start(s).len() <= s.len(),
        trim_start(s) == s.skip(s.len() - trim_start(s).len()),
        trim_end(s).len() <= s.len(),
        trim_end(s) == s.take(trim_end(s).len() as int),
        trim_start(s).len() > 0 ==> !crate::text::is_white_space(trim_start(s)[0]),
        trim_end(s).len() > 0 ==> !crate::text::is_white_space(trim_end(s).last()),
    decreases s.len(),
{
    if s.len() > 0 {
        if crate::text::is_white_space(s[0]) {
            lemma_trim_shapes(s.drop_first());
            assert(s.drop_first().skip(s.drop_first().len() - trim_start(s).len()) =~= s.skip(
                s.len() - trim_start(s).len(),
            ));
        } else {
            assert(s.skip(0) =~= s);
        }
        if crate::text::is_white_space(s.last()) {
            lemma_trim_shapes(s.drop_last());
            assert(s.drop_last().take(trim_end(s).len() as int) =~= s.take(
                trim_end(s).len() as int,
            ));
        } else {
            assert(s.take(s.len() as int) =~= s);
        }
    } else {
        assert(s.skip(0) =~= s);
        assert(s.take(0) =~= s);
    }
}

/// A trimmed text is a piece of the input, starts and ends with a
/// non-space character, and trimming it again changes nothing.
proof fn lemma_trim_facts(x: Seq<char>)
    ensures
        trim(trim(x)) == trim(x),
        forall|c: char| trim(x).contains(c) ==> x.contains(c),
        trim(x).len() > 0 ==> !crate::text::is_white_space(trim(x)[0]) && !crate::text::is_white_space(
            trim(x).last(),
        ),
{
    let u = trim_start(x);
    let t = trim_end(u);
    lemma_trim_shapes(x);
    lemma_trim_shapes(u);
    assert forall|c: char| t.contains(c) implies x.contains(c) by {
        let i = choose|i: int| 0 <= i < t.len() && t[i] == c;
        assert(u[i] == c);
        assert(x[(x.len() - u.len()) + i] == c);
    }
    if t.len() > 0 {
        assert(t[0] == u[0]);
        lemma_trim_shapes(t);
        assert(trim_start(t) == t);
        assert(trim_end(t) == t) by {
            if trim_end(t).len() < t.len() {
                // the last character of t is not white space, so trim_end keeps it
                assert(!crate::text::is_white_space(t.last()));
            }
        }
    } else {
        assert(trim(t) =~= t);
    }
}

/// Trimming removes a leading blank in front of a trimmed text.
proof fn lemma_trim_space_prefixed(k: Seq<char>)
    requires
        k.len() > 0,
        trim(k) == k,
    ensures
        trim(seq![' '] + k) == k,
{
    lemma_trim_shapes(k);
    lemma_trim_facts(k);
    assert((seq![' '] + k).drop_first() =~= k);
    assert(crate::text::is_white_space(' '));
    assert(trim_start(seq![' '] + k) == trim_start(k));
    assert(trim_start(k) == k);
}

/// The text is one that cleaning produced: a non-empty, trimmed piece
/// without separators.
pub open spec fn clean_part(k: Seq<char>) -> bool {
    &&& k.len() > 0
    &&& trim(k) == k
    &&& forall|c: char| k.contains(c) ==> !cookie_separators().contains(c)
}

/// Reading past text without separators extends the open piece.
proof fn lemma_split_no_sep(p: Seq<char>, q: Seq<char>)
    requires
        forall|i: int| 0 <= i < q.len() ==> !cookie_separators().contains(#[trigger] q[i]),
    ensures
        crate::text::split_state(p + q, cookie_separators()) == (
            crate::text::split_state(p, cookie_separators()).0,
            crate::text::split_state(p, cookie_separators()).1 + q,
        ),
    decreases q.len(),
{
    if q.len() == 0 {
        assert(p + q =~= p);
        assert(crate::text::split_state(p, cookie_separators()).1 + q =~= crate::text::split_state(
            p,
            cookie_separators(),
        ).1);
    } else {
        lemma_split_no_sep(p, q.drop_last());
        assert((p + q).drop_last() =~= p + q.drop_last());
        assert((p + q).last() == q.last());
        assert(crate::text::split_state(p, cookie_separators()).1 + q.drop_last() + seq![q.last()]
            =~= crate::text::split_state(p, cookie_separators()).1 + q);
    }
}

/// Every piece that splitting produces is free of separators.
proof fn lemma_split_pieces_clean(s: Seq<char>)
    ensures
        forall|i: int|
            0 <= i < crate::text::split_state(s, cookie_separators()).0.len() ==> forall|c: char|
                (#[trigger] crate::text::split_state(s, cookie_separators()).0[i]).contains(c)
                    ==> !cookie_separators().contains(c),
        forall|c: char|
            crate::text::split_state(s, cookie_separators()).1.contains(c)
                ==> !cookie_separators().contains(c),
    decreases s.len(),
{
    if s.len() > 0 {
        lemma_split_pieces_clean(s.drop_last());
        let (done, cur) = crate::text::split_state(s.drop_last(), cookie_separators());
        if !cookie_separators().contains(s.last()) {
            assert forall|c: char| cur.push(s.last()).contains(c) implies !cookie_separators().contains(
                c,
            ) by {
                let j = choose|j: int| 0 <= j < cur.push(s.last()).len() && cur.push(s.last())[j] == c;
                if j < cur.len() {
                    assert(cur[j] == c);
                }
            }
        } else {
            assert forall|i: int|
                0 <= i < done.push(cur).len() implies forall|c: char|
                (#[trigger] done.push(cur)[i]).contains(c) ==> !cookie_separators().contains(c) by {
                if i < done.len() {
                    assert(done.push(cur)[i] == done[i]);
                }
            }
        }
    }
}

/// The kept parts of the pieces of a text are clean.
proof fn lemma_kept_parts_clean(ps: Seq<Seq<char>>)
    requires
        forall|i: int|
            0 <= i < ps.len() ==> forall|c: char|
                (#[trigger] ps[i]).contains(c) ==> !cookie_separators().contains(c),
    ensures
        forall|i: int| 0 <= i < kept_parts(ps).len() ==> clean_part(#[trigger] kept_parts(ps)[i]),
    decreases ps.len(),
{
    if ps.len() > 0 {
        lemma_kept_parts_clean(ps.drop_last());
        let t = trim(ps.last());
        lemma_trim_facts(ps.last());
        let k = kept_parts(ps.drop_last());
        if t.len() > 0 {
            assert(ps.last() == ps[ps.len() - 1]);
            assert forall|i: int| 0 <= i < k.push(t).len() implies clean_part(#[trigger] k.push(t)[i]) by {
                if i < k.len() {
                    assert(k.push(t)[i] == k[i]);
                }
            }
        }
    }
}

/// Joined clean parts start and end with a non-space character.
proof fn lemma_join_ends(ks: Seq<Seq<char>>)
    requires
        ks.len() > 0,
        forall|i: int| 0 <= i < ks.len() ==> clean_part(#[trigger] ks[i]),
    ensures
        join(ks, "; "@).len() > 0,
        join(ks, "; "@)[0] == ks[0][0],
        join(ks, "; "@).last() == ks.last().last(),
    decreases ks.len(),
{
    assert(clean_part(ks[0]));
    assert(clean_part(ks[ks.len() - 1]));
    if ks.len() > 1 {
        assert forall|i: int| 0 <= i < ks.drop_last().len() implies clean_part(
            #[trigger] ks.drop_last()[i],
        ) by {
            assert(ks.drop_last()[i] == ks[i]);
        }
        lemma_join_ends(ks.drop_last());
    }
}

/// Splitting joined clean parts at the separators and keeping the trimmed,
/// non-empty pieces gives back the parts.
proof fn lemma_split_join(ks: Seq<Seq<char>>)
    requires
        ks.len() > 0,
        forall|i: int| 0 <= i < ks.len() ==> clean_part(#[trigger] ks[i]),
    ensures
        kept_parts(split_on(join(ks, "; "@), cookie_separators())) == ks,
    decreases ks.len(),
{
    reveal_strlit("; ");
    let k = ks.last();
    assert(clean_part(ks[ks.len() - 1]));
    assert(forall|i: int| 0 <= i < k.len() ==> !cookie_separators().contains(#[trigger] k[i])) by {
        assert forall|i: int| 0 <= i < k.len() implies !cookie_separators().contains(
            #[trigger] k[i],
        ) by {
            assert(k.contains(k[i]));
        }
    }
    if ks.len() == 1 {
        let e: Seq<char> = seq![];
        lemma_split_no_sep(e, k);
        assert(e + k =~= k);
        assert(crate::text::split_state(e, cookie_separators()) == (
            Seq::<Seq<char>>::empty(),
            e,
        ));
        assert(e + k =~= k);
        let ps = split_on(k, cookie_separators());
        assert(ps =~= seq![k]);
        assert(ps.drop_last() =~= Seq::<Seq<char>>::empty());
        assert(ps.last() == k);
        assert(trim(k) == k && k.len() > 0);
        assert(kept_parts(ps.drop_last()) =~= Seq::<Seq<char>>::empty());
        assert(kept_parts(ps) =~= Seq::<Seq<char>>::empty().push(k));
        assert(kept_parts(ps) =~= seq![k]);
        assert(join(ks, "; "@) == ks[0]);
        assert(ks =~= seq![k]);
    } else {
        let rest = ks.drop_last();
        assert forall|i: int| 0 <= i < rest.len() implies clean_part(#[trigger] rest[i]) by {
            assert(rest[i] == ks[i]);
        }
        lemma_split_join(rest);
        let jr = join(rest, "; "@);
        let q = seq![' '] + k;
        assert forall|i: int| 0 <= i < q.len() implies !cookie_separators().contains(
            #[trigger] q[i],
        ) by {
            if i > 0 {
                assert(q[i] == k[i - 1]);
            } else {
                assert(!cookie_separators().contains(' '));
            }
        }
        let p = jr.push(';');
        lemma_split_no_sep(p, q);
        assert(join(ks, "; "@) =~= p + q);
        assert(p.drop_last() =~= jr);
        let (d0, c0) = crate::text::split_state(jr, cookie_separators());
        assert(crate::text::split_state(p, cookie_separators()) == (d0.push(c0), Seq::<char>::empty()));
        let e: Seq<char> = seq![];
        assert(e + q =~= q);
        let ps = split_on(join(ks, "; "@), cookie_separators());
        assert(ps =~= split_on(jr, cookie_separators()).push(q));
        assert(ps.drop_last() =~= split_on(jr, cookie_separators()));
        lemma_trim_space_prefixed(k);
        assert(kept_parts(ps) == rest.push(k));
        assert(ks =~= rest.push(k));
    }
}

/// No `cookie:` marker at or below index `k`.
proof fn lemma_no_marker(s: Seq<char>, k: int)
    requires
        forall|i: int| !marker_at(s, i),
    ensures
        last_marker_below(s, k) == None::<int>,
    decreases k,
{
    if k > 0 {
        lemma_no_marker(s, k - 1);
    }
}

/// The cleaned cookie has no white space at either end.
proof fn lemma_normalized_is_trimmed(raw: Seq<char>)
    ensures
        trim(normalized_cookie(raw)) == normalized_cookie(raw),
{
    let y = normalized_cookie(raw);
    let t = trim(raw);
    if t.len() == 0 {
        assert(y =~= Seq::<char>::empty());
        assert(trim(y) =~= y);
    } else {
        let ex = extracted_cookie(t);
        lemma_split_pieces_clean(ex);
        let ps = split_on(ex, cookie_separators());
        let (done, cur) = crate::text::split_state(ex, cookie_separators());
        assert forall|i: int|
            0 <= i < ps.len() implies forall|c: char|
            (#[trigger] ps[i]).contains(c) ==> !cookie_separators().contains(c) by {
            if i < done.len() {
                assert(ps[i] == done[i]);
            } else {
                assert(ps[i] == cur);
            }
        }
        lemma_kept_parts_clean(ps);
        let ks = kept_parts(ps);
        if ks.len() == 0 {
            assert(y =~= Seq::<char>::empty());
            assert(trim(y) =~= y);
        } else {
            lemma_join_ends(ks);
            assert(clean_part(ks[0]));
            assert(clean_part(ks[ks.len() - 1]));
            lemma_trim_facts(ks[0]);
            lemma_trim_facts(ks[ks.len() - 1]);
            lemma_trim_shapes(y);
            assert(trim_start(y) == y);
            assert(trim(y) == y) by {
                lemma_trim_shapes(trim_start(y));
                if trim_end(y).len() < y.len() {
                    assert(!crate::text::is_white_space(y.last()));
                }
            }
        }
    }
}

/// A saved cookie is sent as it was saved: the cleaned cookie is already
/// trimmed, so the fetch neither changes it nor mistakes a non-empty one
/// for "not configured"; a blank paste clears the setting.
pub proof fn law_saved_cookie_sent_verbatim(raw: Seq<char>)
    ensures
        trim(normalized_cookie(raw)) == normalized_cookie(raw),
        trim(raw).len() == 0 ==> normalized_cookie(raw).len() == 0,
{
    lemma_normalized_is_trimmed(raw);
}

/// Cleaning a cleaned cookie again leaves it as it is, unless the cleaned
/// text still holds a `cookie:` marker (which a second pass would treat as
/// a header again).
pub proof fn law_normalize_cookie_idempotent(raw: Seq<char>)
    requires
        forall|i: int| !marker_at(normalized_cookie(raw), i),
    ensures
        normalized_cookie(normalized_cookie(raw)) == normalized_cookie(raw),
{
    let y = normalized_cookie(raw);
    let t = trim(raw);
    if t.len() == 0 {
        assert(y =~= Seq::<char>::empty());
        assert(trim(y) =~= y);
    } else {
        let ex = extracted_cookie(t);
        lemma_split_pieces_clean(ex);
        let ps = split_on(ex, cookie_separators());
        let (done, cur) = crate::text::split_state(ex, cookie_separators());
        assert forall|i: int|
            0 <= i < ps.len() implies forall|c: char|
            (#[trigger] ps[i]).contains(c) ==> !cookie_separators().contains(c) by {
            if i < done.len() {
                assert(ps[i] == done[i]);
            } else {
                assert(ps[i] == cur);
            }
        }
        lemma_kept_parts_clean(ps);
        let ks = kept_parts(ps);
        if ks.len() == 0 {
            assert(y =~= Seq::<char>::empty());
            assert(trim(y) =~= y);
        } else {
            lemma_normalized_is_trimmed(raw);
            assert(header_rest(y) is None) by {
                if y.len() >= 7 && ascii_ci_eq(y.take(7), cookie_marker()) {
                    assert(y.subrange(0, 7) =~= y.take(7));
                    assert(marker_at(y, 0));
                }
            }
            lemma_no_marker(y, y.len() as int);
            lemma_split_join(ks);
        }
    }
}

/// A theme that saving accepts is read back as itself, and reading never
/// yields a theme that saving would refuse.
pub proof fn law_theme_round_trip(t: Seq<char>)
    ensures
        valid_theme(t) ==> loaded_theme(Some(t)) == t,
        valid_theme(loaded_theme(Some(t))),
        valid_theme(loaded_theme(None)),
{
}

// ───────────────────────── the cookie taken out of a cURL command ─────────────────────────

/// `quote_from` stops at the first quote at or after `k`, or at the end.
proof fn lemma_quote_from(r: Seq<char>, k: int)
    requires
        0 <= k <= r.len(),
    ensures
        k <= quote_from(r, k) <= r.len(),
        forall|m: int| k <= m < quote_from(r, k) ==> #[trigger] r[m] != '\'' && r[m] != '"',
        quote_from(r, k) < r.len() ==> r[quote_from(r, k)] == '\'' || r[quote_from(r, k)] == '"',
    decreases r.len() - k,
{
    if k < r.len() && !(r[k] == '\'' || r[k] == '"') {
        lemma_quote_from(r, k + 1);
    }
}

/// `last_marker_below` finds the last `cookie:` starting below `k`.
proof fn lemma_last_marker_below(s: Seq<char>, k: int)
    ensures
        match last_marker_below(s, k) {
            Some(i) => 0 <= i < k && marker_at(s, i) && forall|j: int|
                i < j < k ==> !#[trigger] marker_at(s, j),
            None => forall|j: int| j < k ==> !#[trigger] marker_at(s, j),
        },
    decreases k,
{
    if k > 0 && !marker_at(s, k - 1) {
        lemma_last_marker_below(s, k - 1);
    }
}

/// The cookie taken out of a cURL command line is the text after the last
/// `cookie:` (any ASCII case) up to, not including, the first quote after
/// it (or the end), trimmed: it never holds a quote, so a later header of
/// the command never runs into it. Without any `cookie:` there is none.
pub proof fn law_curl_cookie_stops_at_the_quote(s: Seq<char>)
    ensures
        curl_cookie(s) is None <==> forall|i: int| !#[trigger] marker_at(s, i),
        match curl_cookie(s) {
            Some(v) => {
                &&& forall|k: int| 0 <= k < v.len() ==> #[trigger] v[k] != '\'' && v[k] != '"'
                &&& exists|i: int, e: int|
                    {
                        &&& #[trigger] marker_at(s, i)
                        &&& forall|j: int| i < j ==> !#[trigger] marker_at(s, j)
                        &&& i + 7 <= e <= s.len()
                        &&& forall|m: int| i + 7 <= m < e ==> #[trigger] s[m] != '\'' && s[m] != '"'
                        &&& (e == s.len() || s[e] == '\'' || s[e] == '"')
                        &&& v == trim(#[trigger] s.subrange(i + 7, e))
                    }
            },
            None => true,
        },
{
    lemma_last_marker_below(s, s.len() as int);
    assert forall|j: int| j >= s.len() implies !#[trigger] marker_at(s, j) by {}
    match last_marker_below(s, s.len() as int) {
        Some(i) => {
            let rest = s.skip(i + 7);
            lemma_quote_from(rest, 0);
            let q = quote_from(rest, 0);
            let e = i + 7 + q;
            let head = rest.take(q);
            assert(head =~= s.subrange(i + 7, e));
            assert forall|m: int| i + 7 <= m < e implies #[trigger] s[m] != '\'' && s[m] != '"' by {
                assert(s[m] == rest[m - (i + 7)]);
            }
            if e < s.len() {
                assert(s[e] == rest[q]);
            }
            let v = trim(head);
            lemma_trim_facts(head);
            assert forall|k: int| 0 <= k < v.len() implies #[trigger] v[k] != '\'' && v[k] != '"' by {
                assert(v.contains(v[k]));
                assert(head.contains(v[k]));
                let m = choose|m: int| 0 <= m < head.len() && head[m] == v[k];
                assert(head[m] == s[i + 7 + m]);
            }
            assert(marker_at(s, i) && v == trim(s.subrange(i + 7, e)));
        },
        None => {},
    }
}

} // verus!
