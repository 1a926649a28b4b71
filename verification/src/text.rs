//! Character-sequence operations on names, paths and headers, with their
//! mathematical meaning as spec functions over `Seq<char>`.
use vstd::prelude::*;

verus! {

/// `p` is a prefix of `s`.
pub open spec fn has_prefix(s: Seq<char>, p: Seq<char>) -> bool {
    p.len() <= s.len() && s.take(p.len() as int) == p
}

/// `p` occurs in `s` starting at position `i`.
pub open spec fn occurs_at(s: Seq<char>, p: Seq<char>, i: int) -> bool {
    0 <= i && i + p.len() <= s.len() && s.subrange(i, i + p.len()) == p
}

/// Left-to-right replacement of every non-overlapping occurrence of the
/// non-empty pattern `pat` by `rep`, as `str::replace` performs it.
pub open spec fn replace_all(s: Seq<char>, pat: Seq<char>, rep: Seq<char>) -> Seq<char>
    decreases s.len(),
{
    if s.len() == 0 {
        Seq::empty()
    } else if pat.len() > 0 && has_prefix(s, pat) {
        rep + replace_all(s.skip(pat.len() as int), pat, rep)
    } else {
        seq![s[0]] + replace_all(s.skip(1), pat, rep)
    }
}

/// `s` with every leading repetition of the non-empty pattern `p` removed,
/// as `str::trim_start_matches` with a string pattern does.
pub open spec fn trim_prefix_all(s: Seq<char>, p: Seq<char>) -> Seq<char>
    decreases s.len(),
{
    if p.len() > 0 && has_prefix(s, p) {
        trim_prefix_all(s.skip(p.len() as int), p)
    } else {
        s
    }
}

/// `p` occurs nowhere in `s`.
pub open spec fn free_of(s: Seq<char>, p: Seq<char>) -> bool {
    forall|i: int| !#[trigger] occurs_at(s, p, i)
}

/// No character of `a` is a character of `b`.
pub open spec fn disjoint_chars(a: Seq<char>, b: Seq<char>) -> bool {
    forall|i: int, j: int| 0 <= i < a.len() && 0 <= j < b.len() ==> #[trigger] a[i] != #[trigger] b[j]
}

/// Replacing a pattern that does not occur changes nothing.
pub proof fn lemma_replace_absent(s: Seq<char>, pat: Seq<char>, rep: Seq<char>)
    requires
        pat.len() > 0,
        free_of(s, pat),
    ensures
        replace_all(s, pat, rep) == s,
    decreases s.len(),
{
    if s.len() > 0 {
        assert(s.subrange(0, pat.len() as int) =~= s.take(pat.len() as int));
        assert(!occurs_at(s, pat, 0));
        let rest = s.skip(1);
        assert forall|i: int| !#[trigger] occurs_at(rest, pat, i) by {
            if occurs_at(rest, pat, i) {
                assert(s.subrange(i + 1, i + 1 + pat.len()) =~= rest.subrange(i, i + pat.len()));
                assert(occurs_at(s, pat, i + 1));
            }
        }
        lemma_replace_absent(rest, pat, rep);
        assert(seq![s[0]] + rest =~= s);
    }
}

/// When `q` shares no character with `rep`, a prefix `q` of the replaced
/// text was already a prefix of the text before replacement.
pub proof fn lemma_replace_keeps_prefix(t: Seq<char>, pat: Seq<char>, rep: Seq<char>, q: Seq<char>)
    requires
        pat.len() > 0,
        rep.len() > 0,
        disjoint_chars(q, rep),
        has_prefix(replace_all(t, pat, rep), q),
    ensures
        has_prefix(t, q),
    decreases t.len(),
{
    let r = replace_all(t, pat, rep);
    if q.len() == 0 {
        assert(t.take(0) =~= q);
    } else if t.len() == 0 {
        assert(r.len() == 0);
    } else if has_prefix(t, pat) {
        assert(r[0] == rep[0]);
        assert(r.take(q.len() as int)[0] == q[0]);
        assert(q[0] != rep[0]);
    } else {
        let t1 = t.skip(1);
        let r1 = replace_all(t1, pat, rep);
        assert(r == seq![t[0]] + r1);
        let q1 = q.skip(1);
        assert(r1.take(q1.len() as int) =~= r.take(q.len() as int).skip(1));
        assert(disjoint_chars(q1, rep)) by {
            assert forall|i: int, j: int| 0 <= i < q1.len() && 0 <= j < rep.len() implies #[trigger] q1[i]
                != #[trigger] rep[j] by {
                assert(q1[i] == q[i + 1]);
            }
        }
        lemma_replace_keeps_prefix(t1, pat, rep, q1);
        assert(q[0] == r.take(q.len() as int)[0]);
        assert(t.take(q.len() as int) =~= seq![t[0]] + t1.take(q1.len() as int));
        assert(q =~= seq![q[0]] + q1);
    }
}

/// After replacement by text that shares no character with the pattern,
/// the pattern occurs nowhere.
pub proof fn lemma_replace_clears(s: Seq<char>, pat: Seq<char>, rep: Seq<char>)
    requires
        pat.len() > 0,
        rep.len() > 0,
        disjoint_chars(pat, rep),
    ensures
        free_of(replace_all(s, pat, rep), pat),
    decreases s.len(),
{
    lemma_replace_keeps_clear(s, pat, pat, rep);
}

/// Replacing `pat` by text that shares no character with `other` creates
/// no occurrence of `other` that was not there (and clears `pat` itself
/// when `other` is `pat`).
pub proof fn lemma_replace_keeps_clear(s: Seq<char>, other: Seq<char>, pat: Seq<char>, rep: Seq<char>)
    requires
        pat.len() > 0,
        rep.len() > 0,
        other.len() > 0,
        disjoint_chars(other, rep),
        other == pat || free_of(s, other),
    ensures
        free_of(replace_all(s, pat, rep), other),
    decreases s.len(),
{
    let r = replace_all(s, pat, rep);
    if s.len() == 0 {
        assert forall|i: int| !#[trigger] occurs_at(r, other, i) by {}
    } else if has_prefix(s, pat) {
        let s1 = s.skip(pat.len() as int);
        let r1 = replace_all(s1, pat, rep);
        assert(r == rep + r1);
        if other != pat {
            assert forall|i: int| !#[trigger] occurs_at(s1, other, i) by {
                if occurs_at(s1, other, i) {
                    assert(s.subrange(i + pat.len(), i + pat.len() + other.len()) =~= s1.subrange(
                        i,
                        i + other.len(),
                    ));
                    assert(occurs_at(s, other, i + pat.len()));
                }
            }
        }
        lemma_replace_keeps_clear(s1, other, pat, rep);
        assert forall|i: int| !#[trigger] occurs_at(r, other, i) by {
            if occurs_at(r, other, i) {
                if i < rep.len() {
                    assert(r.subrange(i, i + other.len())[0] == r[i]);
                    assert(r[i] == rep[i]);
                    assert(other[0] != rep[i]);
                } else {
                    assert(r.subrange(i, i + other.len()) =~= r1.subrange(
                        i - rep.len(),
                        i - rep.len() + other.len(),
                    ));
                    assert(occurs_at(r1, other, i - rep.len()));
                }
            }
        }
    } else {
        let s1 = s.skip(1);
        let r1 = replace_all(s1, pat, rep);
        assert(r == seq![s[0]] + r1);
        if other != pat {
            assert forall|i: int| !#[trigger] occurs_at(s1, other, i) by {
                if occurs_at(s1, other, i) {
                    assert(s.subrange(i + 1, i + 1 + other.len()) =~= s1.subrange(i, i + other.len()));
                    assert(occurs_at(s, other, i + 1));
                }
            }
        }
        lemma_replace_keeps_clear(s1, other, pat, rep);
        assert forall|i: int| !#[trigger] occurs_at(r, other, i) by {
            if occurs_at(r, other, i) {
                if i == 0 {
                    let q = other.skip(1);
                    assert(r1.take(q.len() as int) =~= r.subrange(0, other.len() as int).skip(1));
                    assert(disjoint_chars(q, rep)) by {
                        assert forall|a: int, b: int|
                            0 <= a < q.len() && 0 <= b < rep.len() implies #[trigger] q[a]
                            != #[trigger] rep[b] by {
                            assert(q[a] == other[a + 1]);
                        }
                    }
                    lemma_replace_keeps_prefix(s1, pat, rep, q);
                    assert(s.subrange(0, other.len() as int) =~= seq![s[0]] + s1.take(
                        q.len() as int,
                    ));
                    assert(other =~= seq![other[0]] + q);
                    assert(other[0] == r.subrange(0, other.len() as int)[0]);
                    assert(occurs_at(s, other, 0));
                    if other == pat {
                        assert(s.take(pat.len() as int) =~= s.subrange(0, pat.len() as int));
                    }
                } else {
                    assert(r.subrange(i, i + other.len()) =~= r1.subrange(i - 1, i - 1 + other.len()));
                    assert(occurs_at(r1, other, i - 1));
                }
            }
        }
    }
}

/// Replacement keeps the first character of a text that does not start
/// with the pattern's first character.
pub proof fn lemma_replace_keeps_head(s: Seq<char>, pat: Seq<char>, rep: Seq<char>)
    requires
        pat.len() > 0,
        s.len() > 0,
        s[0] != pat[0],
    ensures
        replace_all(s, pat, rep).len() > 0,
        replace_all(s, pat, rep)[0] == s[0],
{
    if has_prefix(s, pat) {
        assert(s.take(pat.len() as int)[0] == s[0]);
    }
}

/// The decimal digit `d` (0 to 9) as a character.
pub open spec fn digit_char(d: int) -> char {
    ('0' as int + d) as char
}

/// The decimal representation of `n`, without leading zeros.
pub open spec fn decimal(n: nat) -> Seq<char>
    decreases n,
{
    if n < 10 {
        seq![digit_char(n as int)]
    } else {
        decimal(n / 10).push(digit_char((n % 10) as int))
    }
}

/// The decimal representation of a signed integer, with a leading `-` for
/// negative values, as `{}` formats it.
pub open spec fn signed_decimal(n: int) -> Seq<char> {
    if n < 0 {
        seq!['-'] + decimal((-n) as nat)
    } else {
        decimal(n as nat)
    }
}

/// The characters of an optional string.
pub open spec fn opt_text(o: Option<String>) -> Option<Seq<char>> {
    match o {
        Some(s) => Some(s@),
        None => None,
    }
}

/// The bytes of an optional byte vector.
pub open spec fn opt_bytes(o: Option<Vec<u8>>) -> Option<Seq<u8>> {
    match o {
        Some(v) => Some(v@),
        None => None,
    }
}

/// Appends `c` to `s` (`String::push`).
#[verifier::external_body]
pub(crate) fn push_char(s: &mut String, c: char)
    ensures
        final(s)@ == old(s)@.push(c),
{
    s.push(c);
}

/// The characters of `s`, in order.
pub fn chars_of(s: &str) -> (v: Vec<char>)
    ensures
        v@ == s@,
{
    broadcast use vstd::string::group_string_axioms;

    let mut v: Vec<char> = Vec::new();
    for c in it: s.chars()
        invariant
            v@ == it.seq().take(it.index()),
    {
        v.push(c);
    }
    v
}

/// Appends the characters `v` to `s`.
pub fn push_chars(s: &mut String, v: &Vec<char>)
    ensures
        final(s)@ == old(s)@ + v@,
{
    let ghost start = s@;
    for i in 0..v.len()
        invariant
            s@ == start + v@.take(i as int),
    {
        push_char(s, v[i]);
        assert(v@.take(i + 1) == v@.take(i as int).push(v@[i as int]));
    }
    assert(v@.take(v.len() as int) == v@);
}

/// Appends the characters `w` to `v`.
pub fn extend_chars(v: &mut Vec<char>, w: &Vec<char>)
    ensures
        final(v)@ == old(v)@ + w@,
{
    let ghost start = v@;
    for i in 0..w.len()
        invariant
            v@ == start + w@.take(i as int),
    {
        v.push(w[i]);
        assert(w@.take(i + 1) == w@.take(i as int).push(w@[i as int]));
    }
    assert(w@.take(w.len() as int) == w@);
}

/// Appends the characters of `s` to `v`.
pub fn extend_str(v: &mut Vec<char>, s: &str)
    ensures
        final(v)@ == old(v)@ + s@,
{
    let w = chars_of(s);
    extend_chars(v, &w);
}

/// A `String` holding the characters `v`.
pub fn string_of(v: &Vec<char>) -> (s: String)
    ensures
        s@ == v@,
{
    let mut s = String::new();
    push_chars(&mut s, v);
    s
}

/// Whether the two character sequences are equal.
pub fn chars_eq(a: &Vec<char>, b: &Vec<char>) -> (r: bool)
    ensures
        r == (a@ == b@),
{
    if a.len() != b.len() {
        return false;
    }
    for i in 0..a.len()
        invariant
            a@.len() == b@.len(),
            forall|j: int| 0 <= j < i ==> a@[j] == b@[j],
    {
        if a[i] != b[i] {
            return false;
        }
    }
    assert(a@ =~= b@);
    true
}

/// Whether `p` occurs in `s` at position `i`.
pub fn occurs_at_exec(s: &Vec<char>, p: &Vec<char>, i: usize) -> (r: bool)
    requires
        i <= s@.len(),
    ensures
        r == occurs_at(s@, p@, i as int),
{
    if p.len() > s.len() - i {
        return false;
    }
    for k in 0..p.len()
        invariant
            i + p.len() <= s.len(),
            forall|j: int| 0 <= j < k ==> s@[i + j] == p@[j],
    {
        if s[i + k] != p[k] {
            assert(s@.subrange(i as int, i + p@.len())[k as int] != p@[k as int]);
            return false;
        }
    }
    assert(s@.subrange(i as int, i + p@.len()) =~= p@);
    true
}

proof fn lemma_prefix_is_occurrence(s: Seq<char>, p: Seq<char>, i: int)
    requires
        0 <= i <= s.len(),
    ensures
        has_prefix(s.skip(i), p) == occurs_at(s, p, i),
{
    if has_prefix(s.skip(i), p) {
        assert(s.subrange(i, i + p.len()) =~= s.skip(i).take(p.len() as int));
    }
    if occurs_at(s, p, i) {
        assert(s.subrange(i, i + p.len()) =~= s.skip(i).take(p.len() as int));
    }
}

/// `s` with every non-overlapping occurrence of `pat` replaced by `rep`,
/// scanning left to right (`str::replace`).
pub fn replace_chars(s: &Vec<char>, pat: &Vec<char>, rep: &Vec<char>) -> (r: Vec<char>)
    requires
        pat@.len() > 0,
    ensures
        r@ == replace_all(s@, pat@, rep@),
{
    let mut out: Vec<char> = Vec::new();
    let mut i: usize = 0;
    assert(s@.skip(0) == s@);
    while i < s.len()
        invariant
            i <= s@.len(),
            pat@.len() > 0,
            replace_all(s@, pat@, rep@) == out@ + replace_all(s@.skip(i as int), pat@, rep@),
        decreases s@.len() - i,
    {
        let m = occurs_at_exec(s, pat, i);
        proof {
            lemma_prefix_is_occurrence(s@, pat@, i as int);
        }
        if m {
            assert(s@.skip(i as int).skip(pat@.len() as int) =~= s@.skip(i + pat@.len()));
            let ghost before = out@;
            for k in 0..rep.len()
                invariant
                    out@ == before + rep@.take(k as int),
            {
                out.push(rep[k]);
                assert(rep@.take(k + 1) == rep@.take(k as int).push(rep@[k as int]));
            }
            assert(rep@.take(rep@.len() as int) == rep@);
            assert(out@ + replace_all(s@.skip(i + pat@.len()), pat@, rep@) == before + (rep@
                + replace_all(s@.skip(i + pat@.len()), pat@, rep@)));
            i = i + pat.len();
        } else {
            assert(s@.skip(i as int).skip(1) =~= s@.skip(i + 1));
            assert(s@.skip(i as int)[0] == s@[i as int]);
            let ghost before = out@;
            out.push(s[i]);
            assert(out@ + replace_all(s@.skip(i + 1), pat@, rep@) == before + (seq![s@[i as int]]
                + replace_all(s@.skip(i + 1), pat@, rep@)));
            i = i + 1;
        }
    }
    assert(s@.skip(i as int).len() == 0);
    assert(out@ + Seq::<char>::empty() == out@);
    out
}

/// `s` with every leading repetition of `p` removed (`str::trim_start_matches`).
pub fn trim_prefix_chars(s: &Vec<char>, p: &Vec<char>) -> (r: Vec<char>)
    requires
        p@.len() > 0,
    ensures
        r@ == trim_prefix_all(s@, p@),
{
    let mut i: usize = 0;
    assert(s@.skip(0) == s@);
    loop
        invariant
            i <= s@.len(),
            p@.len() > 0,
            trim_prefix_all(s@, p@) == trim_prefix_all(s@.skip(i as int), p@),
        ensures
            i <= s@.len(),
            trim_prefix_all(s@, p@) == s@.skip(i as int),
        decreases s@.len() - i,
    {
        let m = occurs_at_exec(s, p, i);
        proof {
            lemma_prefix_is_occurrence(s@, p@, i as int);
        }
        if m {
            assert(i + p.len() <= s.len());
            assert(s@.skip(i as int).skip(p@.len() as int) =~= s@.skip(i + p@.len()));
            i = i + p.len();
        } else {
            break;
        }
    }
    let mut out: Vec<char> = Vec::new();
    let mut k: usize = i;
    while k < s.len()
        invariant
            i <= k <= s@.len(),
            out@ == s@.subrange(i as int, k as int),
        decreases s@.len() - k,
    {
        out.push(s[k]);
        assert(s@.subrange(i as int, k + 1) == s@.subrange(i as int, k as int).push(s@[k as int]));
        k = k + 1;
    }
    assert(out@ =~= s@.skip(i as int));
    out
}

/// The decimal digit `d` as a character.
fn digit(d: u64) -> (c: char)
    requires
        d < 10,
    ensures
        c == digit_char(d as int),
{
    ((48 + d) as u8) as char
}

/// The decimal representation of `n`.
pub fn decimal_chars(n: u64) -> (v: Vec<char>)
    ensures
        v@ == decimal(n as nat),
    decreases n,
{
    if n < 10 {
        let mut v = Vec::new();
        v.push(digit(n));
        assert(v@ =~= seq![digit_char(n as int)]);
        v
    } else {
        let mut v = decimal_chars(n / 10);
        v.push(digit(n % 10));
        v
    }
}

/// The decimal representation of the signed integer `n`.
pub fn signed_decimal_chars(n: i64) -> (v: Vec<char>)
    ensures
        v@ == signed_decimal(n as int),
{
    if n < 0 {
        let m: u64 = if n == i64::MIN {
            9223372036854775808u64
        } else {
            (-n) as u64
        };
        let d = decimal_chars(m);
        let mut v = Vec::new();
        v.push('-');
        let ghost start = v@;
        for i in 0..d.len()
            invariant
                v@ == start + d@.take(i as int),
        {
            v.push(d[i]);
            assert(d@.take(i + 1) == d@.take(i as int).push(d@[i as int]));
        }
        assert(d@.take(d@.len() as int) == d@);
        assert(start == seq!['-']);
        v
    } else {
        decimal_chars(n as u64)
    }
}

} // verus!
