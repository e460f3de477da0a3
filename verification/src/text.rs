//! Character-level text operations underlying the placeholder substitution
//! engine: substring search, suffix tests, global literal replacement and
//! whitespace trimming, together with the lemmas that describe how
//! replacement interacts with substring occurrences.
use vstd::prelude::*;
use vstd::string::*;

verus! {

/// The pattern `pat` occurs in `text` starting at position `i`.
pub open spec fn match_at(text: Seq<char>, pat: Seq<char>, i: int) -> bool {
    0 <= i && i + pat.len() <= text.len() && text.subrange(i, i + pat.len() as int) == pat
}

/// The pattern `pat` occurs somewhere in `text`.
pub open spec fn contains_seq(text: Seq<char>, pat: Seq<char>) -> bool {
    exists|i: int| match_at(text, pat, i)
}

/// `p` is a prefix of `s`.
pub open spec fn is_prefix(p: Seq<char>, s: Seq<char>) -> bool {
    p.len() <= s.len() && s.subrange(0, p.len() as int) == p
}

/// `suf` is a suffix of `s`.
pub open spec fn is_suffix(suf: Seq<char>, s: Seq<char>) -> bool {
    suf.len() <= s.len() && s.subrange(s.len() - suf.len(), s.len() as int) == suf
}

/// The character `c` occurs in `s`.
pub open spec fn in_seq(c: char, s: Seq<char>) -> bool {
    exists|k: int| 0 <= k < s.len() && s[k] == c
}

/// The result of replacing every occurrence of `pat` in `text` by `rep`,
/// scanning left to right without re-examining replacement text, as a
/// literal (not rescanned) global substitution does. An empty pattern
/// replaces nothing.
pub open spec fn replace_all_seq(text: Seq<char>, pat: Seq<char>, rep: Seq<char>) -> Seq<char>
    decreases text.len(),
{
    if pat.len() == 0 || text.len() < pat.len() {
        text
    } else if text.subrange(0, pat.len() as int) == pat {
        rep + replace_all_seq(text.skip(pat.len() as int), pat, rep)
    } else {
        seq![text[0]] + replace_all_seq(text.skip(1), pat, rep)
    }
}

/// Whether two string slices hold the same characters.
pub fn str_eq(a: &str, b: &str) -> (r: bool)
    ensures
        r == (a@ == b@),
{
    let alen = a.unicode_len();
    let blen = b.unicode_len();
    if alen != blen {
        return false;
    }
    let mut i: usize = 0;
    while i < alen
        invariant
            alen == a@.len(),
            alen == b@.len(),
            i <= alen,
            forall|j: int| 0 <= j < i ==> a@[j] == b@[j],
        decreases alen - i,
    {
        if a.get_char(i) != b.get_char(i) {
            return false;
        }
        i = i + 1;
    }
    proof {
        assert(a@ =~= b@);
    }
    true
}

/// Whether `pat` occurs in `text` starting at position `i`.
fn matches_at(text: &str, pat: &str, i: usize) -> (r: bool)
    requires
        i <= text@.len(),
    ensures
        r == match_at(text@, pat@, i as int),
{
    let n = text.unicode_len();
    let m = pat.unicode_len();
    if m > n - i {
        return false;
    }
    let mut k: usize = 0;
    while k < m
        invariant
            n == text@.len(),
            m == pat@.len(),
            i + m <= n,
            k <= m,
            forall|j: int| 0 <= j < k ==> text@[i + j] == pat@[j],
        decreases m - k,
    {
        if text.get_char(i + k) != pat.get_char(k) {
            proof {
                assert(text@.subrange(i as int, i + m) != pat@) by {
                    assert(text@.subrange(i as int, i + m)[k as int] == text@[i + k]);
                }
            }
            return false;
        }
        k = k + 1;
    }
    proof {
        assert(text@.subrange(i as int, i + m) =~= pat@);
    }
    true
}

/// Whether `pat` occurs anywhere in `text`.
pub fn contains_str(text: &str, pat: &str) -> (r: bool)
    ensures
        r == contains_seq(text@, pat@),
{
    let n = text.unicode_len();
    let m = pat.unicode_len();
    if m > n {
        return false;
    }
    if m == 0 {
        proof {
            assert(text@.subrange(0, 0) =~= pat@);
            assert(match_at(text@, pat@, 0));
        }
        return true;
    }
    let mut i: usize = 0;
    while i <= n - m
        invariant
            n == text@.len(),
            m == pat@.len(),
            0 < m <= n,
            i <= n - m + 1,
            forall|j: int| 0 <= j < i ==> !match_at(text@, pat@, j),
        decreases n - m + 1 - i,
    {
        if matches_at(text, pat, i) {
            return true;
        }
        i = i + 1;
    }
    proof {
        assert forall|j: int| !match_at(text@, pat@, j) by {
            if 0 <= j && j + m <= n {
                assert(j < i);
            }
        }
    }
    false
}

/// Whether `suf` is a suffix of `text`.
pub fn ends_with_str(text: &str, suf: &str) -> (r: bool)
    ensures
        r == is_suffix(suf@, text@),
{
    let n = text.unicode_len();
    let m = suf.unicode_len();
    if m > n {
        return false;
    }
    let r = matches_at(text, suf, n - m);
    proof {
        if r {
            assert(text@.subrange(n - m, n as int) == suf@);
        } else {
            assert(text@.subrange(n - m, n as int) != suf@);
        }
    }
    r
}

/// Replaces every occurrence of `pat` in `text` by `rep`, scanning left to
/// right without re-examining replacement text.
pub fn replace_all(text: &str, pat: &str, rep: &str) -> (r: String)
    requires
        pat@.len() > 0,
    ensures
        r@ == replace_all_seq(text@, pat@, rep@),
{
    let n = text.unicode_len();
    let m = pat.unicode_len();
    let mut out = String::new();
    let mut i: usize = 0;
    proof {
        assert(text@.skip(0) =~= text@);
    }
    while i < n
        invariant
            n == text@.len(),
            m == pat@.len(),
            m > 0,
            i <= n,
            replace_all_seq(text@, pat@, rep@) == out@ + replace_all_seq(
                text@.skip(i as int),
                pat@,
                rep@,
            ),
        decreases n - i,
    {
        let ghost prev = text@.skip(i as int);
        let ghost out0 = out@;
        if m <= n - i && matches_at(text, pat, i) {
            out.append(rep);
            proof {
                assert(prev.subrange(0, m as int) =~= text@.subrange(i as int, i + m));
                assert(prev.skip(m as int) =~= text@.skip(i + m));
                assert(replace_all_seq(prev, pat@, rep@) == rep@ + replace_all_seq(
                    text@.skip(i + m),
                    pat@,
                    rep@,
                ));
                assert(out0 + (rep@ + replace_all_seq(text@.skip(i + m), pat@, rep@)) =~= (out0
                    + rep@) + replace_all_seq(text@.skip(i + m), pat@, rep@));
            }
            i = i + m;
        } else {
            let piece = text.substring_char(i, i + 1);
            out.append(piece);
            proof {
                let c = text@[i as int];
                assert(prev.skip(1) =~= text@.skip(i + 1));
                assert(piece@ =~= seq![c]);
                if prev.len() < m {
                    assert(replace_all_seq(prev, pat@, rep@) == prev);
                    assert(prev =~= seq![c] + text@.skip(i + 1));
                    assert(text@.skip(i + 1).len() < m);
                    assert(replace_all_seq(text@.skip(i + 1), pat@, rep@) == text@.skip(i + 1));
                } else {
                    assert(prev.subrange(0, m as int) =~= text@.subrange(i as int, i + m));
                    assert(prev.subrange(0, m as int) != pat@);
                    assert(prev[0] == c);
                }
                assert(replace_all_seq(prev, pat@, rep@) == seq![c] + replace_all_seq(
                    text@.skip(i + 1),
                    pat@,
                    rep@,
                ));
                assert(out0 + (seq![c] + replace_all_seq(text@.skip(i + 1), pat@, rep@)) =~= (out0
                    + seq![c]) + replace_all_seq(text@.skip(i + 1), pat@, rep@));
            }
            i = i + 1;
        }
    }
    proof {
        assert(text@.skip(n as int) =~= Seq::<char>::empty());
        assert(replace_all_seq(Seq::<char>::empty(), pat@, rep@) == Seq::<char>::empty());
        assert(out@ + Seq::<char>::empty() =~= out@);
    }
    out
}

/// Occurrences in a tail of `t` are occurrences in `t`.
pub proof fn lemma_match_at_skip(t: Seq<char>, pat: Seq<char>, k: int, i: int)
    requires
        0 <= k <= t.len(),
        0 <= i,
    ensures
        match_at(t.skip(k), pat, i) == match_at(t, pat, k + i),
{
    if i + pat.len() <= t.skip(k).len() {
        assert(t.skip(k).subrange(i, i + pat.len() as int) =~= t.subrange(
            k + i,
            k + i + pat.len() as int,
        ));
    }
}

/// If a pattern occurs in a tail of `t`, it occurs in `t`.
pub proof fn lemma_contains_skip(t: Seq<char>, pat: Seq<char>, k: int)
    requires
        0 <= k <= t.len(),
    ensures
        contains_seq(t.skip(k), pat) ==> contains_seq(t, pat),
{
    if contains_seq(t.skip(k), pat) {
        let i = choose|i: int| match_at(t.skip(k), pat, i);
        lemma_match_at_skip(t, pat, k, i);
        assert(match_at(t, pat, k + i));
    }
}

/// If a pattern occurs in `b`, it occurs in `a + b`.
pub proof fn lemma_contains_concat_right(a: Seq<char>, b: Seq<char>, pat: Seq<char>)
    requires
        contains_seq(b, pat),
    ensures
        contains_seq(a + b, pat),
{
    let i = choose|i: int| match_at(b, pat, i);
    assert((a + b).subrange(a.len() + i, a.len() + i + pat.len() as int) =~= b.subrange(
        i,
        i + pat.len() as int,
    ));
    assert(match_at(a + b, pat, a.len() + i));
}

/// Containment of substrings is transitive.
pub proof fn lemma_contains_trans(a: Seq<char>, b: Seq<char>, c: Seq<char>)
    requires
        contains_seq(a, b),
        contains_seq(b, c),
    ensures
        contains_seq(a, c),
{
    let i = choose|i: int| match_at(a, b, i);
    let j = choose|j: int| match_at(b, c, j);
    assert(a.subrange(i + j, i + j + c.len() as int) =~= b.subrange(j, j + c.len() as int)) by {
        assert forall|x: int| 0 <= x < c.len() implies #[trigger] (a.subrange(
            i + j,
            i + j + c.len() as int,
        )[x]) == b.subrange(j, j + c.len() as int)[x] by {
            assert(a[i + j + x] == a.subrange(i, i + b.len() as int)[j + x]);
        }
    }
    assert(match_at(a, c, i + j));
}

/// While no occurrence of the pattern starts before position `k`, replacement
/// leaves the first `k` characters alone and goes on with the tail.
pub proof fn lemma_replace_prefix(t: Seq<char>, pat: Seq<char>, rep: Seq<char>, k: int)
    requires
        pat.len() > 0,
        0 <= k <= t.len(),
        forall|i: int| 0 <= i < k ==> !match_at(t, pat, i),
    ensures
        replace_all_seq(t, pat, rep) == t.subrange(0, k) + replace_all_seq(t.skip(k), pat, rep),
    decreases k,
{
    if k == 0 {
        assert(t.skip(0) =~= t);
        assert(t.subrange(0, 0) + replace_all_seq(t, pat, rep) =~= replace_all_seq(t, pat, rep));
    } else {
        if t.len() < pat.len() {
            assert(replace_all_seq(t, pat, rep) == t);
            assert(t.skip(k).len() < pat.len());
            assert(replace_all_seq(t.skip(k), pat, rep) == t.skip(k));
            assert(t.subrange(0, k) + t.skip(k) =~= t);
        } else {
            assert(!match_at(t, pat, 0));
            assert(t.subrange(0, pat.len() as int) != pat);
            let t1 = t.skip(1);
            assert forall|i: int| 0 <= i < k - 1 implies !match_at(t1, pat, i) by {
                lemma_match_at_skip(t, pat, 1, i);
            }
            lemma_replace_prefix(t1, pat, rep, k - 1);
            assert(t1.skip(k - 1) =~= t.skip(k));
            assert(seq![t[0]] + (t1.subrange(0, k - 1) + replace_all_seq(t.skip(k), pat, rep))
                =~= t.subrange(0, k) + replace_all_seq(t.skip(k), pat, rep));
        }
    }
}

/// If a proper tail of `q` is a prefix of the replacement result, and the
/// replacement text cannot begin inside `q`, that tail was already a prefix
/// of the original text.
proof fn lemma_tail_prefix_from_original(
    t: Seq<char>,
    pat: Seq<char>,
    rep: Seq<char>,
    q: Seq<char>,
    d: int,
)
    requires
        pat.len() > 0,
        rep.len() > 0,
        !in_seq(rep[0], q),
        1 <= d < q.len(),
        is_prefix(q.skip(d), replace_all_seq(t, pat, rep)),
    ensures
        is_prefix(q.skip(d), t),
    decreases t.len(),
{
    let r = replace_all_seq(t, pat, rep);
    let qd = q.skip(d);
    assert(qd.len() > 0);
    assert(qd[0] == q[d]);
    if t.len() < pat.len() {
        assert(r == t);
    } else if t.subrange(0, pat.len() as int) == pat {
        assert(r == rep + replace_all_seq(t.skip(pat.len() as int), pat, rep));
        assert(r[0] == rep[0]);
        assert(q[d] == r.subrange(0, qd.len() as int)[0]);
        assert(q[d] == rep[0]);
        assert(in_seq(rep[0], q));
    } else {
        let rest = replace_all_seq(t.skip(1), pat, rep);
        assert(r == seq![t[0]] + rest);
        assert(q[d] == r.subrange(0, qd.len() as int)[0]);
        assert(q[d] == t[0]);
        if d + 1 < q.len() {
            assert(is_prefix(q.skip(d + 1), rest)) by {
                assert(rest.subrange(0, q.len() - d - 1) =~= q.skip(d + 1)) by {
                    assert forall|x: int| 0 <= x < q.len() - d - 1 implies #[trigger] (rest.subrange(
                        0,
                        q.len() - d - 1,
                    )[x]) == q.skip(d + 1)[x] by {
                        assert(rest[x] == r[x + 1]);
                        assert(r[x + 1] == r.subrange(0, qd.len() as int)[x + 1]);
                        assert(r[x + 1] == q[d + 1 + x]);
                    }
                }
            }
            lemma_tail_prefix_from_original(t.skip(1), pat, rep, q, d + 1);
            assert(t.subrange(0, q.len() - d) =~= qd) by {
                assert forall|x: int| 0 <= x < q.len() - d implies t.subrange(0, q.len() - d)[x]
                    == qd[x] by {
                    if x > 0 {
                        assert(t.skip(1).subrange(0, q.len() - d - 1)[x - 1] == q.skip(
                            d + 1,
                        )[x - 1]);
                        assert(t[x] == q[d + x]);
                    }
                }
            }
        } else {
            assert(t.subrange(0, 1) =~= qd);
        }
    }
}

/// Replacing a pattern that does not occur leaves the text unchanged.
pub proof fn lemma_replace_absent(t: Seq<char>, pat: Seq<char>, rep: Seq<char>)
    requires
        pat.len() > 0,
        !contains_seq(t, pat),
    ensures
        replace_all_seq(t, pat, rep) == t,
    decreases t.len(),
{
    if t.len() < pat.len() {
    } else if t.subrange(0, pat.len() as int) == pat {
        assert(match_at(t, pat, 0));
    } else {
        lemma_contains_skip(t, pat, 1);
        lemma_replace_absent(t.skip(1), pat, rep);
        assert(seq![t[0]] + t.skip(1) =~= t);
    }
}

/// After replacement, no occurrence of the pattern remains, provided the
/// pattern's first character does not occur in the replacement text and the
/// replacement's first character does not occur in the pattern.
pub proof fn lemma_replace_removes_pattern(t: Seq<char>, pat: Seq<char>, rep: Seq<char>)
    requires
        pat.len() > 0,
        rep.len() > 0,
        !in_seq(pat[0], rep),
        !in_seq(rep[0], pat),
    ensures
        !contains_seq(replace_all_seq(t, pat, rep), pat),
    decreases t.len(),
{
    let r = replace_all_seq(t, pat, rep);
    let m = pat.len() as int;
    if t.len() < pat.len() {
        assert forall|i: int| !match_at(r, pat, i) by {}
    } else if t.subrange(0, m) == pat {
        let rest = replace_all_seq(t.skip(m), pat, rep);
        assert(r == rep + rest);
        lemma_replace_removes_pattern(t.skip(m), pat, rep);
        assert forall|i: int| !match_at(r, pat, i) by {
            if 0 <= i && i + m <= r.len() {
                if match_at(r, pat, i) {
                    if i < rep.len() {
                        assert(pat[0] == r.subrange(i, i + m)[0]);
                        assert(r[i] == rep[i]);
                        assert(in_seq(pat[0], rep));
                    } else {
                        assert(rest.subrange(i - rep.len(), i - rep.len() + m) =~= r.subrange(
                            i,
                            i + m,
                        ));
                        assert(match_at(rest, pat, i - rep.len()));
                    }
                }
            }
        }
    } else {
        let rest = replace_all_seq(t.skip(1), pat, rep);
        assert(r == seq![t[0]] + rest);
        lemma_replace_removes_pattern(t.skip(1), pat, rep);
        assert forall|i: int| !match_at(r, pat, i) by {
            if 0 <= i && i + m <= r.len() {
                if match_at(r, pat, i) {
                    if i >= 1 {
                        assert(rest.subrange(i - 1, i - 1 + m) =~= r.subrange(i, i + m));
                        assert(match_at(rest, pat, i - 1));
                    } else {
                        assert(pat[0] == r.subrange(0, m)[0]);
                        assert(pat[0] == t[0]);
                        if m >= 2 {
                            assert(is_prefix(pat.skip(1), rest)) by {
                                assert(rest.subrange(0, m - 1) =~= pat.skip(1)) by {
                                    assert forall|x: int| 0 <= x < m - 1 implies #[trigger] (
                                    rest.subrange(0, m - 1)[x]) == pat.skip(1)[x] by {
                                        assert(rest[x] == r[x + 1]);
                                        assert(r[x + 1] == r.subrange(0, m)[x + 1]);
                                    }
                                }
                            }
                            lemma_tail_prefix_from_original(t.skip(1), pat, rep, pat, 1);
                            assert(t.subrange(0, m) =~= pat) by {
                                assert forall|x: int| 0 <= x < m implies #[trigger] (t.subrange(
                                    0,
                                    m,
                                )[x]) == pat[x] by {
                                    if x > 0 {
                                        assert(t.skip(1).subrange(0, m - 1)[x - 1] == pat.skip(
                                            1,
                                        )[x - 1]);
                                    }
                                }
                            }
                        } else {
                            assert(t.subrange(0, 1) =~= pat);
                        }
                        assert(match_at(t, pat, 0));
                    }
                }
            }
        }
    }
}

/// Replacement cannot create an occurrence of an unrelated string `q` that
/// was not there before, provided `q`'s first character does not occur in
/// the replacement text and the replacement's first character does not occur
/// in `q`.
pub proof fn lemma_replace_keeps_absent(
    t: Seq<char>,
    pat: Seq<char>,
    rep: Seq<char>,
    q: Seq<char>,
)
    requires
        pat.len() > 0,
        rep.len() > 0,
        q.len() > 0,
        !contains_seq(t, q),
        !in_seq(q[0], rep),
        !in_seq(rep[0], q),
    ensures
        !contains_seq(replace_all_seq(t, pat, rep), q),
    decreases t.len(),
{
    let r = replace_all_seq(t, pat, rep);
    let m = pat.len() as int;
    let n = q.len() as int;
    if t.len() < pat.len() {
    } else if t.subrange(0, m) == pat {
        let rest = replace_all_seq(t.skip(m), pat, rep);
        assert(r == rep + rest);
        lemma_contains_skip(t, q, m);
        lemma_replace_keeps_absent(t.skip(m), pat, rep, q);
        assert forall|i: int| !match_at(r, q, i) by {
            if 0 <= i && i + n <= r.len() {
                if match_at(r, q, i) {
                    if i < rep.len() {
                        assert(q[0] == r.subrange(i, i + n)[0]);
                        assert(r[i] == rep[i]);
                        assert(in_seq(q[0], rep));
                    } else {
                        assert(rest.subrange(i - rep.len(), i - rep.len() + n) =~= r.subrange(
                            i,
                            i + n,
                        ));
                        assert(match_at(rest, q, i - rep.len()));
                    }
                }
            }
        }
    } else {
        let rest = replace_all_seq(t.skip(1), pat, rep);
        assert(r == seq![t[0]] + rest);
        lemma_contains_skip(t, q, 1);
        lemma_replace_keeps_absent(t.skip(1), pat, rep, q);
        assert forall|i: int| !match_at(r, q, i) by {
            if 0 <= i && i + n <= r.len() {
                if match_at(r, q, i) {
                    if i >= 1 {
                        assert(rest.subrange(i - 1, i - 1 + n) =~= r.subrange(i, i + n));
                        assert(match_at(rest, q, i - 1));
                    } else {
                        assert(q[0] == r.subrange(0, n)[0]);
                        assert(q[0] == t[0]);
                        if n >= 2 {
                            assert(is_prefix(q.skip(1), rest)) by {
                                assert(rest.subrange(0, n - 1) =~= q.skip(1)) by {
                                    assert forall|x: int| 0 <= x < n - 1 implies #[trigger] (
                                    rest.subrange(0, n - 1)[x]) == q.skip(1)[x] by {
                                        assert(rest[x] == r[x + 1]);
                                        assert(r[x + 1] == r.subrange(0, n)[x + 1]);
                                    }
                                }
                            }
                            lemma_tail_prefix_from_original(t.skip(1), pat, rep, q, 1);
                            assert(t.subrange(0, n) =~= q) by {
                                assert forall|x: int| 0 <= x < n implies #[trigger] (t.subrange(
                                    0,
                                    n,
                                )[x]) == q[x] by {
                                    if x > 0 {
                                        assert(t.skip(1).subrange(0, n - 1)[x - 1] == q.skip(
                                            1,
                                        )[x - 1]);
                                    }
                                }
                            }
                        } else {
                            assert(t.subrange(0, 1) =~= q);
                        }
                        assert(match_at(t, q, 0));
                    }
                }
            }
        }
    }
}

/// If the pattern occurs in the text, the replacement text occurs in the
/// result.
pub proof fn lemma_replace_inserts_replacement(t: Seq<char>, pat: Seq<char>, rep: Seq<char>)
    requires
        pat.len() > 0,
        contains_seq(t, pat),
    ensures
        contains_seq(replace_all_seq(t, pat, rep), rep),
    decreases t.len(),
{
    let r = replace_all_seq(t, pat, rep);
    let m = pat.len() as int;
    if t.len() < pat.len() {
        let i = choose|i: int| match_at(t, pat, i);
        assert(false);
    } else if t.subrange(0, m) == pat {
        let rest = replace_all_seq(t.skip(m), pat, rep);
        assert(r == rep + rest);
        assert(r.subrange(0, rep.len() as int) =~= rep);
        assert(match_at(r, rep, 0));
    } else {
        let rest = replace_all_seq(t.skip(1), pat, rep);
        assert(r == seq![t[0]] + rest);
        let i = choose|i: int| match_at(t, pat, i);
        assert(i != 0);
        lemma_match_at_skip(t, pat, 1, i - 1);
        assert(contains_seq(t.skip(1), pat));
        lemma_replace_inserts_replacement(t.skip(1), pat, rep);
        lemma_contains_concat_right(seq![t[0]], rest, rep);
    }
}

/// Every character of a replacement result comes from the original text or
/// from the replacement text.
pub proof fn lemma_replace_chars(t: Seq<char>, pat: Seq<char>, rep: Seq<char>, c: char)
    requires
        in_seq(c, replace_all_seq(t, pat, rep)),
    ensures
        in_seq(c, t) || in_seq(c, rep),
    decreases t.len(),
{
    let r = replace_all_seq(t, pat, rep);
    let m = pat.len() as int;
    let k = choose|k: int| 0 <= k < r.len() && r[k] == c;
    if pat.len() == 0 || t.len() < pat.len() {
    } else if t.subrange(0, m) == pat {
        let rest = replace_all_seq(t.skip(m), pat, rep);
        if k >= rep.len() {
            assert(rest[k - rep.len()] == c);
            lemma_replace_chars(t.skip(m), pat, rep, c);
            if in_seq(c, t.skip(m)) {
                let x = choose|x: int| 0 <= x < t.skip(m).len() && t.skip(m)[x] == c;
                assert(t[m + x] == c);
            }
        }
    } else {
        let rest = replace_all_seq(t.skip(1), pat, rep);
        if k == 0 {
            assert(t[0] == c);
        } else {
            assert(rest[k - 1] == c);
            lemma_replace_chars(t.skip(1), pat, rep, c);
            if in_seq(c, t.skip(1)) {
                let x = choose|x: int| 0 <= x < t.skip(1).len() && t.skip(1)[x] == c;
                assert(t[1 + x] == c);
            }
        }
    }
}

/// A character occurs in a concatenation exactly when it occurs in one of
/// the parts.
pub proof fn lemma_in_seq_concat(a: Seq<char>, b: Seq<char>, c: char)
    ensures
        in_seq(c, a + b) == (in_seq(c, a) || in_seq(c, b)),
{
    if in_seq(c, a + b) {
        let k = choose|k: int| 0 <= k < (a + b).len() && (a + b)[k] == c;
        if k < a.len() {
            assert(a[k] == c);
        } else {
            assert(b[k - a.len()] == c);
        }
    }
    if in_seq(c, a) {
        let k = choose|k: int| 0 <= k < a.len() && a[k] == c;
        assert((a + b)[k] == c);
    }
    if in_seq(c, b) {
        let k = choose|k: int| 0 <= k < b.len() && b[k] == c;
        assert((a + b)[a.len() + k] == c);
    }
}

/// Occurrences of `p` and occurrences of `q` can never share a position, in
/// any text.
pub open spec fn never_overlap(p: Seq<char>, q: Seq<char>) -> bool {
    forall|t: Seq<char>, i: int, j: int|
        match_at(t, p, i) && match_at(t, q, j) ==> i + p.len() <= j || j + q.len() <= i
}

/// If `p` and `q` share no character, their occurrences can never overlap.
pub proof fn lemma_disjoint_chars_never_overlap(p: Seq<char>, q: Seq<char>)
    requires
        p.len() > 0,
        q.len() > 0,
        forall|c: char| in_seq(c, p) ==> !in_seq(c, q),
    ensures
        never_overlap(p, q),
{
    assert forall|t: Seq<char>, i: int, j: int|
        match_at(t, p, i) && match_at(t, q, j) implies i + p.len() <= j || j + q.len()
        <= i by {
        if !(i + p.len() <= j || j + q.len() <= i) {
            let x = if i <= j {
                j
            } else {
                i
            };
            assert(i <= x < i + p.len());
            assert(j <= x < j + q.len());
            assert(t.subrange(i, i + p.len() as int)[x - i] == t[x]);
            assert(t.subrange(j, j + q.len() as int)[x - j] == t[x]);
            assert(p[x - i] == q[x - j]);
            assert(in_seq(q[x - j], q));
            assert(in_seq(p[x - i], p));
        }
    }
}

/// The shape shared by the placeholder tokens: a double opening brace, a
/// body free of braces, and a double closing brace.
pub open spec fn brace_token(p: Seq<char>) -> bool {
    &&& p.len() >= 4
    &&& p[0] == '{'
    &&& p[1] == '{'
    &&& p[p.len() - 2] == '}'
    &&& p[p.len() - 1] == '}'
    &&& forall|k: int| 2 <= k < p.len() - 2 ==> p[k] != '{' && p[k] != '}'
}

/// An occurrence of one brace token cannot begin strictly inside another of
/// a different length: of two occurrences, the later one starts at or after
/// the end of the earlier one.
proof fn lemma_brace_tokens_no_inner_start(
    t: Seq<char>,
    p: Seq<char>,
    q: Seq<char>,
    i: int,
    j: int,
)
    requires
        brace_token(p),
        brace_token(q),
        p.len() != q.len(),
        match_at(t, p, i),
        match_at(t, q, j),
        i <= j,
    ensures
        i + p.len() <= j,
{
    let m = p.len() as int;
    let n = q.len() as int;
    if j < i + m {
        let d = j - i;
        assert(t[j] == t.subrange(j, j + n)[0]);
        assert(t[j] == t.subrange(i, i + m)[d]);
        assert(p[d] == q[0]);
        assert(p[d] == '{');
        assert(d == 0 || d == 1);
        if d == 1 {
            assert(t[j + 1] == t.subrange(j, j + n)[1]);
            assert(t[j + 1] == t.subrange(i, i + m)[2]);
            assert(p[2] == q[1]);
            assert(p[2] == '{');
            if m == 4 {
                assert(p[2] == '}');
            }
            assert(false);
        } else {
            assert forall|r: int| 0 <= r < m && r < n implies p[r] == q[r] by {
                assert(t[i + r] == t.subrange(i, i + m)[r]);
                assert(t[i + r] == t.subrange(j, j + n)[r]);
            }
            if m < n {
                if m + 1 < n {
                    assert(p[m - 1] == q[m - 1]);
                    assert(q[m - 1] == '}');
                    assert(2 <= m - 1 < n - 2);
                } else {
                    assert(p[m - 2] == q[m - 2]);
                    assert(q[m - 2] == '}');
                    assert(2 <= m - 2 < n - 2);
                }
            } else {
                if n + 1 < m {
                    assert(q[n - 1] == p[n - 1]);
                    assert(p[n - 1] == '}');
                    assert(2 <= n - 1 < m - 2);
                } else {
                    assert(q[n - 2] == p[n - 2]);
                    assert(p[n - 2] == '}');
                    assert(2 <= n - 2 < m - 2);
                }
            }
            assert(false);
        }
    }
}

/// Two brace tokens of different lengths can never overlap.
pub proof fn lemma_brace_tokens_never_overlap(p: Seq<char>, q: Seq<char>)
    requires
        brace_token(p),
        brace_token(q),
        p.len() != q.len(),
    ensures
        never_overlap(p, q),
{
    assert forall|t: Seq<char>, i: int, j: int|
        match_at(t, p, i) && match_at(t, q, j) implies i + p.len() <= j || j + q.len()
        <= i by {
        if !(i + p.len() <= j || j + q.len() <= i) {
            if i <= j {
                lemma_brace_tokens_no_inner_start(t, p, q, i, j);
            } else {
                lemma_brace_tokens_no_inner_start(t, q, p, j, i);
            }
        }
    }
}

/// An occurrence of `q` survives the replacement of a pattern whose
/// occurrences can never overlap those of `q`.
pub proof fn lemma_replace_keeps_occurrence(
    t: Seq<char>,
    pat: Seq<char>,
    rep: Seq<char>,
    q: Seq<char>,
)
    requires
        pat.len() > 0,
        q.len() > 0,
        contains_seq(t, q),
        never_overlap(pat, q),
    ensures
        contains_seq(replace_all_seq(t, pat, rep), q),
    decreases t.len(),
{
    let r = replace_all_seq(t, pat, rep);
    let m = pat.len() as int;
    let n = q.len() as int;
    if t.len() < pat.len() {
    } else if t.subrange(0, m) == pat {
        let rest = replace_all_seq(t.skip(m), pat, rep);
        assert(r == rep + rest);
        let j = choose|j: int| match_at(t, q, j);
        assert(match_at(t, pat, 0));
        assert(0 + m <= j || j + n <= 0);
        assert(j >= m);
        lemma_match_at_skip(t, q, m, j - m);
        assert(contains_seq(t.skip(m), q));
        lemma_replace_keeps_occurrence(t.skip(m), pat, rep, q);
        lemma_contains_concat_right(rep, rest, q);
    } else {
        let rest = replace_all_seq(t.skip(1), pat, rep);
        assert(r == seq![t[0]] + rest);
        let j = choose|j: int| match_at(t, q, j);
        if j >= 1 {
            lemma_match_at_skip(t, q, 1, j - 1);
            assert(contains_seq(t.skip(1), q));
            lemma_replace_keeps_occurrence(t.skip(1), pat, rep, q);
            lemma_contains_concat_right(seq![t[0]], rest, q);
        } else {
            assert(match_at(t, q, 0));
            assert forall|x: int| 0 <= x < n implies !match_at(t, pat, x) by {
                if match_at(t, pat, x) {
                    assert(x + m <= 0 || 0 + n <= x);
                }
            }
            lemma_replace_prefix(t, pat, rep, n);
            assert(r == t.subrange(0, n) + replace_all_seq(t.skip(n), pat, rep));
            assert(r.subrange(0, n) =~= t.subrange(0, n));
            assert(match_at(r, q, 0));
        }
    }
}

/// An ASCII whitespace character.
pub open spec fn is_space(c: char) -> bool {
    c == ' ' || c == '\t' || c == '\n' || c == '\r'
}

/// `s` with leading and trailing ASCII whitespace removed.
pub open spec fn trim_spec(s: Seq<char>) -> Seq<char>
    decreases s.len(),
{
    if s.len() == 0 {
        s
    } else if is_space(s[0]) {
        trim_spec(s.skip(1))
    } else if is_space(s[s.len() - 1]) {
        trim_spec(s.take(s.len() - 1))
    } else {
        s
    }
}

/// The trimmed text is the slice between the leading and the trailing run
/// of whitespace.
proof fn lemma_trim_bounds(s: Seq<char>, a: int, b: int)
    requires
        0 <= a <= b <= s.len(),
        forall|j: int| 0 <= j < a ==> is_space(s[j]),
        forall|j: int| b <= j < s.len() ==> is_space(s[j]),
        a < b ==> !is_space(s[a]) && !is_space(s[b - 1]),
    ensures
        trim_spec(s) == s.subrange(a, b),
    decreases s.len(),
{
    if s.len() == 0 {
        assert(s.subrange(0, 0) =~= s);
    } else if is_space(s[0]) {
        assert(a != 0 || b == 0);
        if a > 0 {
            let s1 = s.skip(1);
            lemma_trim_bounds(s1, a - 1, b - 1);
            assert(s1.subrange(a - 1, b - 1) =~= s.subrange(a, b));
        } else {
            let s1 = s.skip(1);
            lemma_trim_bounds(s1, 0, 0);
            assert(s1.subrange(0, 0) =~= s.subrange(0, 0));
        }
    } else if is_space(s[s.len() - 1]) {
        assert(a == 0);
        assert(0 < b < s.len());
        let s1 = s.take(s.len() - 1);
        lemma_trim_bounds(s1, a, b);
        assert(s1.subrange(a, b) =~= s.subrange(a, b));
    } else {
        assert(a == 0);
        assert(b == s.len());
        assert(s.subrange(0, s.len() as int) =~= s);
    }
}

/// Removes leading and trailing ASCII whitespace.
pub fn trim_str(s: &str) -> (r: String)
    ensures
        r@ == trim_spec(s@),
{
    let n = s.unicode_len();
    let mut a: usize = 0;
    loop
        invariant
            n == s@.len(),
            a <= n,
            forall|j: int| 0 <= j < a ==> is_space(s@[j]),
        ensures
            a <= n,
            forall|j: int| 0 <= j < a ==> is_space(s@[j]),
            (a < n ==> !is_space(s@[a as int])),
        decreases n - a,
    {
        if a == n {
            break;
        }
        let c = s.get_char(a);
        if !(c == ' ' || c == '\t' || c == '\n' || c == '\r') {
            break;
        }
        a = a + 1;
    }
    if a == n {
        proof {
            lemma_trim_bounds(s@, n as int, n as int);
            assert(s@.subrange(n as int, n as int) =~= Seq::<char>::empty());
        }
        return String::new();
    }
    let mut b: usize = n;
    loop
        invariant
            n == s@.len(),
            a < b <= n,
            !is_space(s@[a as int]),
            forall|j: int| b <= j < n ==> is_space(s@[j]),
        ensures
            a < b <= n,
            forall|j: int| b <= j < n ==> is_space(s@[j]),
            (!is_space(s@[b - 1])),
        decreases b,
    {
        let c = s.get_char(b - 1);
        if !(c == ' ' || c == '\t' || c == '\n' || c == '\r') {
            break;
        }
        b = b - 1;
    }
    proof {
        lemma_trim_bounds(s@, a as int, b as int);
    }
    let piece = s.substring_char(a, b);
    String::from_str(piece)
}


} // verus!
