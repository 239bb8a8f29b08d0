//! Verified helpers over `&str` and `String`: equality, prefix and suffix
//! tests, lexicographic comparison, searching and splitting. Contracts are
//! stated over the `Seq<char>` views.

use vstd::prelude::*;
use core::cmp::Ordering;

verus! {

/// `p` is a prefix of `s`.
pub open spec fn spec_starts_with(s: Seq<char>, p: Seq<char>) -> bool {
    p.len() <= s.len() && s.subrange(0, p.len() as int) == p
}

/// `p` is a suffix of `s`.
pub open spec fn spec_ends_with(s: Seq<char>, p: Seq<char>) -> bool {
    p.len() <= s.len() && s.subrange(s.len() - p.len(), s.len() as int) == p
}

/// `n` occurs in `h` as a contiguous run.
pub open spec fn spec_contains(h: Seq<char>, n: Seq<char>) -> bool {
    exists|i: int| 0 <= i <= h.len() - n.len() && #[trigger] h.subrange(i, i + n.len()) == n
}

/// Lexicographic order on character sequences, by code point.
pub open spec fn spec_lex_cmp(a: Seq<char>, b: Seq<char>) -> Ordering
    decreases a.len(),
{
    if a.len() == 0 && b.len() == 0 {
        Ordering::Equal
    } else if a.len() == 0 {
        Ordering::Less
    } else if b.len() == 0 {
        Ordering::Greater
    } else if a[0] != b[0] {
        if (a[0] as int) < (b[0] as int) {
            Ordering::Less
        } else {
            Ordering::Greater
        }
    } else {
        spec_lex_cmp(a.skip(1), b.skip(1))
    }
}

/// Lexical comparison answers `Equal` exactly on equal sequences.
pub proof fn lemma_lex_cmp_equal(a: Seq<char>, b: Seq<char>)
    ensures
        (spec_lex_cmp(a, b) == Ordering::Equal) == (a == b),
    decreases a.len(),
{
    if a.len() != 0 && b.len() != 0 && a[0] == b[0] {
        lemma_lex_cmp_equal(a.skip(1), b.skip(1));
        if a.skip(1) == b.skip(1) {
            assert forall|i: int| 0 <= i < a.len() implies a[i] == b[i] by {
                if i > 0 {
                    assert(a[i] == a.skip(1)[i - 1]);
                    assert(b[i] == b.skip(1)[i - 1]);
                }
            }
            assert(a =~= b);
        }
    } else {
        if a.len() == 0 && b.len() == 0 {
            assert(a =~= b);
        }
        if a == b && a.len() != 0 {
            assert(a[0] == b[0]);
        }
    }
}

/// Lexical comparison flips with its arguments.
pub proof fn lemma_lex_cmp_flip(a: Seq<char>, b: Seq<char>)
    ensures
        (spec_lex_cmp(a, b) == Ordering::Less) == (spec_lex_cmp(b, a) == Ordering::Greater),
    decreases a.len(),
{
    if a.len() != 0 && b.len() != 0 && a[0] == b[0] {
        lemma_lex_cmp_flip(a.skip(1), b.skip(1));
    }
}

/// Lexical comparison is transitive in `Less`.
pub proof fn lemma_lex_cmp_trans(a: Seq<char>, b: Seq<char>, c: Seq<char>)
    requires
        spec_lex_cmp(a, b) == Ordering::Less,
        spec_lex_cmp(b, c) == Ordering::Less,
    ensures
        spec_lex_cmp(a, c) == Ordering::Less,
    decreases a.len() + b.len() + c.len(),
{
    if a.len() != 0 && b.len() != 0 && c.len() != 0 && a[0] == b[0] && b[0] == c[0] {
        lemma_lex_cmp_trans(a.skip(1), b.skip(1), c.skip(1));
    }
}

/// `n` spaces.
pub open spec fn spec_pad(n: nat) -> Seq<char>
    decreases n,
{
    if n == 0 {
        Seq::empty()
    } else {
        spec_pad((n - 1) as nat) + " "@
    }
}

/// A run of `n` spaces.
pub fn spaces(n: usize) -> (r: String)
    ensures
        r@ == spec_pad(n as nat),
{
    let mut s = String::new();
    let mut i: usize = 0;
    while i < n
        invariant
            i <= n,
            s@ == spec_pad(i as nat),
        decreases n - i,
    {
        s.append(" ");
        i = i + 1;
    }
    s
}

/// Whether two string vectors hold the same texts in the same order.
pub fn vec_str_equal(a: &Vec<String>, b: &Vec<String>) -> (r: bool)
    ensures
        r == (a@.map_values(|p: String| p@) == b@.map_values(|p: String| p@)),
{
    let ghost ma = a@.map_values(|p: String| p@);
    let ghost mb = b@.map_values(|p: String| p@);
    if a.len() != b.len() {
        proof {
            assert(ma.len() != mb.len());
        }
        return false;
    }
    let mut i: usize = 0;
    while i < a.len()
        invariant
            a@.len() == b@.len(),
            i <= a@.len(),
            ma == a@.map_values(|p: String| p@),
            mb == b@.map_values(|p: String| p@),
            forall|j: int| 0 <= j < i ==> (#[trigger] a@[j])@ == b@[j]@,
        decreases a@.len() - i,
    {
        if !str_eq(a[i].as_str(), b[i].as_str()) {
            proof {
                assert(ma[i as int] == a@[i as int]@);
                assert(mb[i as int] == b@[i as int]@);
            }
            return false;
        }
        i = i + 1;
    }
    proof {
        assert forall|j: int| 0 <= j < ma.len() implies ma[j] == mb[j] by {
            assert(ma[j] == a@[j]@);
            assert(mb[j] == b@[j]@);
        }
        assert(ma =~= mb);
    }
    true
}

/// `s` with every trailing occurrence of `c` removed.
pub open spec fn spec_trim_trailing(s: Seq<char>, c: char) -> Seq<char>
    decreases s.len(),
{
    if s.len() > 0 && s[s.len() - 1] == c {
        spec_trim_trailing(s.drop_last(), c)
    } else {
        s
    }
}

/// `s` with every leading occurrence of `c` removed.
pub open spec fn spec_trim_leading(s: Seq<char>, c: char) -> Seq<char>
    decreases s.len(),
{
    if s.len() > 0 && s[0] == c {
        spec_trim_leading(s.skip(1), c)
    } else {
        s
    }
}

/// `s` with every leading occurrence of `c` removed.
pub fn trim_leading(s: &str, c: char) -> (r: String)
    ensures
        r@ == spec_trim_leading(s@, c),
{
    let l = s.unicode_len();
    let mut from: usize = 0;
    proof {
        assert(s@.skip(0) =~= s@);
    }
    while from < l
        invariant
            from <= l,
            l == s@.len(),
            spec_trim_leading(s@, c) == spec_trim_leading(s@.skip(from as int), c),
        decreases l - from,
    {
        let ch = s.get_char(from);
        if ch != c {
            proof {
                assert(s@.skip(from as int)[0] == s@[from as int]);
            }
            let piece = s.substring_char(from, l);
            proof {
                assert(s@.skip(from as int) =~= s@.subrange(from as int, l as int));
            }
            return piece.to_owned();
        }
        proof {
            assert(s@.skip(from as int)[0] == s@[from as int]);
            assert(s@.skip(from as int).skip(1) =~= s@.skip(from + 1));
        }
        from = from + 1;
    }
    proof {
        assert(s@.skip(l as int).len() == 0);
    }
    String::new()
}

/// Whether `c` occurs in `s`.
pub open spec fn spec_contains_char(s: Seq<char>, c: char) -> bool {
    exists|i: int| 0 <= i < s.len() && s[i] == c
}

/// Whether `c` occurs in `s`.
pub fn contains_char(s: &str, c: char) -> (r: bool)
    ensures
        r == spec_contains_char(s@, c),
{
    let l = s.unicode_len();
    let mut i: usize = 0;
    while i < l
        invariant
            i <= l,
            l == s@.len(),
            forall|j: int| 0 <= j < i ==> s@[j] != c,
        decreases l - i,
    {
        if s.get_char(i) == c {
            return true;
        }
        i = i + 1;
    }
    false
}

/// The pieces of `s` between occurrences of the separator `c`; the separators
/// themselves are dropped, and `n + 1` pieces come out of `n` separators.
pub open spec fn spec_split(s: Seq<char>, c: char) -> Seq<Seq<char>>
    decreases s.len(),
{
    if s.len() == 0 {
        seq![s]
    } else if s[0] == c {
        seq![Seq::empty()] + spec_split(s.skip(1), c)
    } else {
        let rest = spec_split(s.skip(1), c);
        seq![seq![s[0]] + rest[0]] + rest.skip(1)
    }
}

/// Splitting always yields at least one piece.
pub proof fn lemma_split_len(s: Seq<char>, c: char)
    ensures
        spec_split(s, c).len() >= 1,
    decreases s.len(),
{
    if s.len() > 0 {
        lemma_split_len(s.skip(1), c);
    }
}

/// Character-count length of `s`.
pub fn str_len(s: &str) -> (r: usize)
    ensures
        r == s@.len(),
{
    s.unicode_len()
}

/// String equality, decided on the views.
pub fn str_eq(a: &str, b: &str) -> (r: bool)
    ensures
        r == (a@ == b@),
{
    let sa = a.to_owned();
    let sb = b.to_owned();
    sa == sb
}

/// Prefix test.
pub fn starts_with_str(s: &str, p: &str) -> (r: bool)
    ensures
        r == spec_starts_with(s@, p@),
{
    let sl = s.unicode_len();
    let pl = p.unicode_len();
    if pl > sl {
        return false;
    }
    let head = s.substring_char(0, pl);
    str_eq(head, p)
}

/// Suffix test.
pub fn ends_with_str(s: &str, p: &str) -> (r: bool)
    ensures
        r == spec_ends_with(s@, p@),
{
    let sl = s.unicode_len();
    let pl = p.unicode_len();
    if pl > sl {
        return false;
    }
    let tail = s.substring_char(sl - pl, sl);
    str_eq(tail, p)
}

/// Lexicographic comparison, by code point.
pub fn lex_cmp_str(a: &str, b: &str) -> (r: Ordering)
    ensures
        r == spec_lex_cmp(a@, b@),
{
    let al = a.unicode_len();
    let bl = b.unicode_len();
    let mut i: usize = 0;
    proof {
        assert(a@.skip(0) =~= a@);
        assert(b@.skip(0) =~= b@);
    }
    while i < al && i < bl
        invariant
            i <= al,
            i <= bl,
            al == a@.len(),
            bl == b@.len(),
            spec_lex_cmp(a@, b@) == spec_lex_cmp(a@.skip(i as int), b@.skip(i as int)),
        decreases al - i,
    {
        let ca = a.get_char(i);
        let cb = b.get_char(i);
        if ca != cb {
            proof {
                reveal_with_fuel(spec_lex_cmp, 2);
                assert(a@.skip(i as int)[0] == a@[i as int]);
                assert(b@.skip(i as int)[0] == b@[i as int]);
            }
            if (ca as u32) < (cb as u32) {
                return Ordering::Less;
            } else {
                return Ordering::Greater;
            }
        }
        proof {
            reveal_with_fuel(spec_lex_cmp, 2);
            assert(a@.skip(i as int)[0] == a@[i as int]);
            assert(b@.skip(i as int)[0] == b@[i as int]);
            assert(a@.skip(i as int).skip(1) =~= a@.skip(i + 1));
            assert(b@.skip(i as int).skip(1) =~= b@.skip(i + 1));
        }
        i = i + 1;
    }
    proof {
        reveal_with_fuel(spec_lex_cmp, 2);
    }
    if al == bl {
        proof {
            assert(a@.skip(i as int).len() == 0);
            assert(b@.skip(i as int).len() == 0);
        }
        Ordering::Equal
    } else if al < bl {
        Ordering::Less
    } else {
        Ordering::Greater
    }
}

/// Whether `n` occurs anywhere in `h`.
pub fn contains_str(h: &str, n: &str) -> (r: bool)
    ensures
        r == spec_contains(h@, n@),
{
    let hl = h.unicode_len();
    let nl = n.unicode_len();
    if nl > hl {
        return false;
    }
    if nl == 0 {
        proof {
            assert(h@.subrange(0, 0 + n@.len() as int) =~= n@);
        }
        return true;
    }
    let mut i: usize = 0;
    while i <= hl - nl
        invariant
            1 <= nl <= hl,
            hl == h@.len(),
            nl == n@.len(),
            i <= hl - nl + 1,
            forall|k: int| 0 <= k < i ==> #[trigger] h@.subrange(k, k + n@.len()) != n@,
        decreases hl - nl + 1 - i,
    {
        let piece = h.substring_char(i, i + nl);
        if str_eq(piece, n) {
            return true;
        }
        i = i + 1;
    }
    false
}

/// `s` with every trailing occurrence of `c` removed.
pub fn trim_trailing(s: &str, c: char) -> (r: String)
    ensures
        r@ == spec_trim_trailing(s@, c),
{
    let l = s.unicode_len();
    let mut keep: usize = l;
    proof {
        assert(s@.subrange(0, l as int) =~= s@);
    }
    while keep > 0
        invariant
            keep <= l,
            l == s@.len(),
            spec_trim_trailing(s@, c) == spec_trim_trailing(s@.subrange(0, keep as int), c),
        decreases keep,
    {
        let last = s.get_char(keep - 1);
        if last != c {
            let piece = s.substring_char(0, keep);
            proof {
                assert(s@.subrange(0, keep as int)[keep - 1] == s@[keep - 1]);
            }
            return piece.to_owned();
        }
        proof {
            assert(s@.subrange(0, keep as int).drop_last() =~= s@.subrange(0, keep - 1));
        }
        keep = keep - 1;
    }
    let piece = s.substring_char(0, 0);
    proof {
        assert(s@.subrange(0, 0).len() == 0);
    }
    piece.to_owned()
}

/// The pieces of `s` between occurrences of `c`.
pub fn split_str(s: &str, c: char) -> (r: Vec<String>)
    ensures
        r@.map_values(|p: String| p@) == spec_split(s@, c),
{
    let l = s.unicode_len();
    let mut out: Vec<String> = Vec::new();
    let mut start: usize = 0;
    let mut i: usize = 0;
    proof {
        assert(s@.skip(0) =~= s@);
    }
    while i < l
        invariant
            start <= i <= l,
            l == s@.len(),
            forall|j: int| start <= j < i ==> s@[j] != c,
            out@.map_values(|p: String| p@) + spec_split(s@.skip(start as int), c)
                =~= spec_split(s@, c),
        decreases l - i,
    {
        let ch = s.get_char(i);
        if ch == c {
            let piece = s.substring_char(start, i);
            out.push(piece.to_owned());
            proof {
                let t = s@.skip(start as int);
                assert(forall|j: int| 0 <= j < i - start ==> t[j] == s@[start + j]);
                assert(t[i - start] == s@[i as int]);
                lemma_split_head(t, i - start, c);
                assert(t.subrange(0, i - start) =~= s@.subrange(start as int, i as int));
                assert(t.skip(i - start + 1) =~= s@.skip(i + 1));
                assert(out@.map_values(|p: String| p@) + spec_split(s@.skip(i + 1), c)
                    =~= spec_split(s@, c));
            }
            start = i + 1;
        }
        i = i + 1;
    }
    let piece = s.substring_char(start, l);
    out.push(piece.to_owned());
    proof {
        let t = s@.skip(start as int);
        assert(forall|j: int| 0 <= j < t.len() ==> t[j] == s@[start + j]);
        lemma_split_none(t, c);
        assert(t =~= s@.subrange(start as int, l as int));
        assert(out@.map_values(|p: String| p@) =~= spec_split(s@, c));
    }
    out
}

/// When the first separator of `s` stands at `i`, the split is the piece
/// before `i` followed by the split of what comes after it.
proof fn lemma_split_head(s: Seq<char>, i: int, c: char)
    requires
        0 <= i < s.len(),
        forall|j: int| 0 <= j < i ==> s[j] != c,
        s[i] == c,
    ensures
        spec_split(s, c) == seq![s.subrange(0, i)] + spec_split(s.skip(i + 1), c),
    decreases i,
{
    if i == 0 {
        assert(s.subrange(0, 0) =~= Seq::<char>::empty());
        assert(s.skip(1) =~= s.skip(i + 1));
    } else {
        let t = s.skip(1);
        assert(forall|j: int| 0 <= j < i - 1 ==> t[j] == s[j + 1]);
        assert(t[i - 1] == s[i]);
        lemma_split_head(t, i - 1, c);
        lemma_split_len(t.skip(i), c);
        assert(t.skip(i) =~= s.skip(i + 1));
        let rest = spec_split(t, c);
        assert(rest[0] == t.subrange(0, i - 1));
        assert(seq![s[0]] + t.subrange(0, i - 1) =~= s.subrange(0, i));
        assert(rest.skip(1) =~= spec_split(s.skip(i + 1), c));
        assert(spec_split(s, c) =~= seq![s.subrange(0, i)] + spec_split(s.skip(i + 1), c));
    }
}

/// A string without the separator splits into itself alone.
proof fn lemma_split_none(s: Seq<char>, c: char)
    requires
        forall|j: int| 0 <= j < s.len() ==> s[j] != c,
    ensures
        spec_split(s, c) == seq![s],
    decreases s.len(),
{
    if s.len() > 0 {
        let t = s.skip(1);
        assert(forall|j: int| 0 <= j < t.len() ==> t[j] == s[j + 1]);
        lemma_split_none(t, c);
        let rest = spec_split(t, c);
        assert(rest[0] == t);
        assert(seq![s[0]] + t =~= s);
        assert(rest.skip(1) =~= Seq::<Seq<char>>::empty());
        assert(spec_split(s, c) =~= seq![s]);
    }
}

/// The members of `parts` in order with `sep` between each two.
pub open spec fn spec_join(parts: Seq<Seq<char>>, sep: Seq<char>) -> Seq<char>
    decreases parts.len(),
{
    if parts.len() == 0 {
        Seq::empty()
    } else if parts.len() == 1 {
        parts[0]
    } else {
        parts[0] + sep + spec_join(parts.skip(1), sep)
    }
}

/// Appending one part extends the join by a separator and the part.
pub proof fn lemma_join_push(parts: Seq<Seq<char>>, sep: Seq<char>, x: Seq<char>)
    ensures
        spec_join(parts.push(x), sep) == if parts.len() == 0 {
            x
        } else {
            spec_join(parts, sep) + sep + x
        },
    decreases parts.len(),
{
    let p = parts.push(x);
    if parts.len() == 0 {
        assert(p.len() == 1);
        assert(p[0] == x);
    } else {
        assert(p[0] == parts[0]);
        assert(p.skip(1) =~= parts.skip(1).push(x));
        lemma_join_push(parts.skip(1), sep, x);
        if parts.len() == 1 {
            assert(parts.skip(1).len() == 0);
            assert(spec_join(p, sep) == parts[0] + sep + x);
            assert(spec_join(parts, sep) == parts[0]);
        } else {
            assert(spec_join(p, sep) == parts[0] + sep + (spec_join(parts.skip(1), sep) + sep
                + x));
            assert(spec_join(parts, sep) + sep + x == (parts[0] + sep + spec_join(
                parts.skip(1),
                sep,
            )) + sep + x);
            assert(parts[0] + sep + (spec_join(parts.skip(1), sep) + sep + x) =~= (parts[0] + sep
                + spec_join(parts.skip(1), sep)) + sep + x);
        }
    }
}

/// Joins the parts with the separator between each two.
pub fn join_strings(parts: &Vec<String>, sep: &str) -> (r: String)
    ensures
        r@ == spec_join(parts@.map_values(|p: String| p@), sep@),
{
    let ghost m = parts@.map_values(|p: String| p@);
    let mut acc = String::new();
    let mut i: usize = 0;
    proof {
        assert(m.take(0) =~= Seq::<Seq<char>>::empty());
    }
    while i < parts.len()
        invariant
            i <= parts@.len(),
            m == parts@.map_values(|p: String| p@),
            acc@ == spec_join(m.take(i as int), sep@),
        decreases parts@.len() - i,
    {
        if i > 0 {
            acc.append(sep);
        }
        acc.append(parts[i].as_str());
        proof {
            assert(m.take(i + 1) =~= m.take(i as int).push(m[i as int]));
            lemma_join_push(m.take(i as int), sep@, m[i as int]);
            assert(m[i as int] == parts@[i as int]@);
        }
        i = i + 1;
    }
    proof {
        assert(m.take(parts@.len() as int) =~= m);
    }
    acc
}

/// A copy of a string vector with the same texts.
pub fn duplicate_strings(v: &Vec<String>) -> (r: Vec<String>)
    ensures
        r@.map_values(|p: String| p@) == v@.map_values(|p: String| p@),
{
    let mut out: Vec<String> = Vec::new();
    let mut i: usize = 0;
    while i < v.len()
        invariant
            i <= v@.len(),
            out@.len() == i,
            forall|j: int| 0 <= j < i ==> (#[trigger] out@[j])@ == v@[j]@,
        decreases v@.len() - i,
    {
        out.push(v[i].clone());
        i = i + 1;
    }
    proof {
        let a = out@.map_values(|p: String| p@);
        let b = v@.map_values(|p: String| p@);
        assert forall|j: int| 0 <= j < a.len() implies a[j] == b[j] by {
            assert(a[j] == out@[j]@);
            assert(b[j] == v@[j]@);
        }
        assert(a =~= b);
    }
    out
}

/// `a` followed by `b`.
pub fn concat_str(a: &str, b: &str) -> (r: String)
    ensures
        r@ == a@ + b@,
{
    let mut s = a.to_owned();
    s.append(b);
    s
}

/// `a`, a slash, and `b`: paths are joined with `/`.
pub fn join_path(a: &str, b: &str) -> (r: String)
    ensures
        r@ == a@ + "/"@ + b@,
{
    let mut s = a.to_owned();
    s.append("/");
    s.append(b);
    s
}

/// Whether some member of `v` equals `s`.
pub fn vec_contains_str(v: &Vec<String>, s: &str) -> (r: bool)
    ensures
        r == v@.map_values(|p: String| p@).contains(s@),
{
    let mut i: usize = 0;
    while i < v.len()
        invariant
            i <= v@.len(),
            forall|j: int| 0 <= j < i ==> (#[trigger] v@[j])@ != s@,
        decreases v@.len() - i,
    {
        if str_eq(v[i].as_str(), s) {
            proof {
                assert(v@.map_values(|p: String| p@)[i as int] == s@);
            }
            return true;
        }
        i = i + 1;
    }
    proof {
        let m = v@.map_values(|p: String| p@);
        assert forall|j: int| 0 <= j < m.len() implies m[j] != s@ by {
            assert(m[j] == v@[j]@);
        }
    }
    false
}

} // verus!
