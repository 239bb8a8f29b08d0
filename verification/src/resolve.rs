//! Workspace pattern resolution: expands the declared patterns into
//! candidate package directories, tracking exclusions and patterns that
//! matched nothing. The caller performs the directory reads and hands the
//! listings in; every decision over them is made here.

use vstd::prelude::*;
use crate::strutil::{
    spec_starts_with, spec_ends_with, spec_trim_trailing, spec_trim_leading, spec_split,
    spec_join, spec_contains_char, starts_with_str, ends_with_str, trim_trailing, trim_leading,
    split_str, join_strings, str_eq, str_len, contains_char,
};

verus! {

/// One entry of a directory listing: its name and whether it is a
/// directory.
pub struct DirEntry {
    pub name: String,
    pub is_dir: bool,
}

impl DirEntry {
    /// The entry as its name and directory flag.
    pub open spec fn view_pair(&self) -> (Seq<char>, bool) {
        (self.name@, self.is_dir)
    }
}

/// What the resolver asks the caller to look up for one pattern: list a
/// directory's entries, or probe whether a path is a directory.
pub enum Request {
    List(String),
    Probe(String),
}

/// What the caller found: the listing (or `None` when the directory could
/// not be read), or the probe's outcome.
pub enum Answer {
    Entries(Option<Vec<DirEntry>>),
    Dir(bool),
}

/// `rel` appended to `root` with a slash; an empty `rel` names `root`
/// itself.
pub open spec fn spec_join_rel(root: Seq<char>, rel: Seq<char>) -> Seq<char> {
    if rel.len() == 0 {
        root
    } else {
        root + "/"@ + rel
    }
}

/// Joins a relative path onto the root.
pub fn join_rel(root: &str, rel: &str) -> (r: String)
    ensures
        r@ == spec_join_rel(root@, rel@),
{
    if str_len(rel) == 0 {
        root.to_owned()
    } else {
        let mut s = root.to_owned();
        s.append("/");
        s.append(rel);
        s
    }
}

/// The absolute-ish path an exclusion pattern names: the pattern without its
/// leading `!`, a trailing wildcard stripped along with a trailing slash,
/// joined onto the root.
pub open spec fn spec_excl_path(root: Seq<char>, p: Seq<char>) -> Seq<char> {
    if spec_ends_with(p, "*"@) {
        spec_join_rel(
            root,
            spec_trim_trailing(spec_trim_trailing(spec_trim_leading(p, '!'), '*'), '/'),
        )
    } else {
        spec_join_rel(root, spec_trim_leading(p, '!'))
    }
}

/// The recorded exclusion paths: one per `!`-pattern, in order.
pub open spec fn spec_exclusions(root: Seq<char>, ps: Seq<Seq<char>>) -> Seq<Seq<char>>
    decreases ps.len(),
{
    if ps.len() == 0 {
        Seq::empty()
    } else {
        spec_exclusions(root, ps.drop_last()) + if spec_starts_with(ps.last(), "!"@) {
            seq![spec_excl_path(root, ps.last())]
        } else {
            Seq::empty()
        }
    }
}

/// The inclusion patterns: everything not starting with `!`, in order.
pub open spec fn spec_inclusions(ps: Seq<Seq<char>>) -> Seq<Seq<char>>
    decreases ps.len(),
{
    if ps.len() == 0 {
        Seq::empty()
    } else {
        spec_inclusions(ps.drop_last()) + if spec_starts_with(ps.last(), "!"@) {
            Seq::empty()
        } else {
            seq![ps.last()]
        }
    }
}

/// Splits the patterns into recorded exclusion paths and inclusion
/// patterns; exclusions are resolved against the root before any inclusion
/// is expanded.
pub fn partition_patterns(root: &str, patterns: &Vec<String>) -> (r: (Vec<String>, Vec<String>))
    ensures
        r.0@.map_values(|p: String| p@) == spec_exclusions(
            root@,
            patterns@.map_values(|p: String| p@),
        ),
        r.1@.map_values(|p: String| p@) == spec_inclusions(patterns@.map_values(|p: String| p@)),
{
    let ghost pv = patterns@.map_values(|p: String| p@);
    let mut exclusions: Vec<String> = Vec::new();
    let mut inclusions: Vec<String> = Vec::new();
    let mut i: usize = 0;
    proof {
        assert(pv.take(0) =~= Seq::<Seq<char>>::empty());
    }
    while i < patterns.len()
        invariant
            i <= patterns@.len(),
            pv == patterns@.map_values(|p: String| p@),
            exclusions@.map_values(|p: String| p@) == spec_exclusions(root@, pv.take(i as int)),
            inclusions@.map_values(|p: String| p@) == spec_inclusions(pv.take(i as int)),
        decreases patterns@.len() - i,
    {
        let p = &patterns[i];
        let ghost ex0 = exclusions@.map_values(|q: String| q@);
        let ghost in0 = inclusions@.map_values(|q: String| q@);
        if starts_with_str(p.as_str(), "!") {
            let body = trim_leading(p.as_str(), '!');
            let path = if ends_with_str(p.as_str(), "*") {
                let t1 = trim_trailing(body.as_str(), '*');
                let t2 = trim_trailing(t1.as_str(), '/');
                join_rel(root, t2.as_str())
            } else {
                join_rel(root, body.as_str())
            };
            exclusions.push(path);
        } else {
            inclusions.push(p.clone());
        }
        proof {
            assert(pv.take(i + 1).drop_last() =~= pv.take(i as int));
            assert(pv.take(i + 1).last() == pv[i as int]);
            assert(pv[i as int] == patterns@[i as int]@);
            let exn = exclusions@.map_values(|q: String| q@);
            let inn = inclusions@.map_values(|q: String| q@);
            if spec_starts_with(pv[i as int], "!"@) {
                assert(exn =~= ex0.push(spec_excl_path(root@, pv[i as int])));
                assert(inn =~= in0);
            } else {
                assert(exn =~= ex0);
                assert(inn =~= in0.push(pv[i as int]));
            }
            assert(exn =~= spec_exclusions(root@, pv.take(i + 1)));
            assert(inn =~= spec_inclusions(pv.take(i + 1)));
        }
        i = i + 1;
    }
    proof {
        assert(pv.take(patterns@.len() as int) =~= pv);
    }
    (exclusions, inclusions)
}

/// The first position of a `*` or `**` segment that still has segments
/// after it, or the segment count when there is none.
pub open spec fn spec_first_mid_star(parts: Seq<Seq<char>>, i: int) -> int
    decreases parts.len() - i,
{
    if i < 0 || i >= parts.len() - 1 {
        parts.len() as int
    } else if parts[i] == "*"@ || parts[i] == "**"@ {
        i
    } else {
        spec_first_mid_star(parts, i + 1)
    }
}

/// A mid-pattern wildcard, split: the fixed prefix before the `*` or `**`
/// segment and the fixed suffix after it, when the pattern has one.
pub open spec fn spec_mid_split(p: Seq<char>) -> Option<(Seq<char>, Seq<char>)> {
    let parts = spec_split(p, '/');
    let i = spec_first_mid_star(parts, 0);
    if i < parts.len() {
        Some(
            (
                spec_join(parts.take(i), "/"@),
                spec_join(parts.skip(i + 1), "/"@),
            ),
        )
    } else {
        None
    }
}

fn mid_split(p: &str) -> (r: Option<(String, String)>)
    ensures
        match r {
            Some(t) => spec_mid_split(p@) matches Some(u) && u.0 == t.0@ && u.1 == t.1@,
            None => spec_mid_split(p@) is None,
        },
{
    let parts = split_str(p, '/');
    let ghost partsv = spec_split(p@, '/');
    let n = parts.len();
    let mut i: usize = 0;
    proof {
        assert(partsv == parts@.map_values(|q: String| q@));
        crate::strutil::lemma_split_len(p@, '/');
    }
    while i + 1 < n
        invariant
            n == parts@.len(),
            n >= 1,
            i < n,
            partsv == spec_split(p@, '/'),
            partsv == parts@.map_values(|q: String| q@),
            spec_first_mid_star(partsv, 0) == spec_first_mid_star(partsv, i as int),
        decreases n - i,
    {
        proof {
            assert(partsv[i as int] == parts@[i as int]@);
        }
        if str_eq(parts[i].as_str(), "*") || str_eq(parts[i].as_str(), "**") {
            let mut before: Vec<String> = Vec::new();
            let mut k: usize = 0;
            while k < i
                invariant
                    k <= i,
                    i < n,
                    n == parts@.len(),
                    partsv == parts@.map_values(|q: String| q@),
                    before@.len() == k,
                    forall|j: int| 0 <= j < k ==> (#[trigger] before@[j])@ == partsv[j],
                decreases i - k,
            {
                before.push(parts[k].clone());
                k = k + 1;
            }
            let mut after: Vec<String> = Vec::new();
            let mut k2: usize = i + 1;
            while k2 < n
                invariant
                    i + 1 <= k2 <= n,
                    i < n,
                    n == parts@.len(),
                    partsv == parts@.map_values(|q: String| q@),
                    after@.len() == k2 - i - 1,
                    forall|j: int|
                        0 <= j < k2 - i - 1 ==> (#[trigger] after@[j])@ == partsv[i + 1 + j],
                decreases n - k2,
            {
                after.push(parts[k2].clone());
                k2 = k2 + 1;
            }
            proof {
                let bm = before@.map_values(|q: String| q@);
                let am = after@.map_values(|q: String| q@);
                assert forall|j: int| 0 <= j < bm.len() implies bm[j] == partsv.take(i as int)[j]
                    by {
                    assert(bm[j] == before@[j]@);
                }
                assert(bm =~= partsv.take(i as int));
                assert forall|j: int| 0 <= j < am.len() implies am[j] == partsv.skip(i + 1)[j] by {
                    assert(am[j] == after@[j]@);
                }
                assert(am =~= partsv.skip(i + 1));
            }
            let prefix = join_strings(&before, "/");
            let suffix = join_strings(&after, "/");
            proof {
                assert(spec_first_mid_star(partsv, i as int) == i as int);
                assert(before@.map_values(|q: String| q@) == partsv.take(i as int));
                assert(prefix@ == spec_join(partsv.take(i as int), "/"@));
                assert(suffix@ == spec_join(partsv.skip(i as int + 1), "/"@));
            }
            return Some((prefix, suffix));
        }
        proof {
            assert(partsv[i as int] != "*"@ && partsv[i as int] != "**"@) by {
                assert(parts@[i as int]@ == partsv[i as int]);
            }
        }
        i = i + 1;
    }
    proof {
        if n > 0 {
            assert(spec_first_mid_star(partsv, i as int) == partsv.len());
        }
        crate::strutil::lemma_split_len(p@, '/');
    }
    None
}

/// Where a mid-pattern wildcard asks for a listing: the prefix directory
/// joined onto the root; `None` for a pattern without one.
pub open spec fn spec_expansion_request(root: Seq<char>, p: Seq<char>) -> Option<Seq<char>> {
    match spec_mid_split(p) {
        Some(t) => Some(spec_join_rel(root, t.0)),
        None => None,
    }
}

/// The directories to list for mid-pattern wildcard expansion, one entry
/// per inclusion pattern; `None` marks a pattern without a mid-pattern
/// wildcard.
pub fn expansion_requests(root: &str, inclusions: &Vec<String>) -> (r: Vec<Option<String>>)
    ensures
        r@.len() == inclusions@.len(),
        forall|j: int|
            0 <= j < r@.len() ==> match #[trigger] r@[j] {
                Some(s) => spec_expansion_request(root@, inclusions@[j]@) matches Some(t) && t
                    == s@,
                None => spec_expansion_request(root@, inclusions@[j]@) is None,
            },
{
    let mut out: Vec<Option<String>> = Vec::new();
    let mut i: usize = 0;
    while i < inclusions.len()
        invariant
            i <= inclusions@.len(),
            out@.len() == i,
            forall|j: int|
                0 <= j < i ==> match #[trigger] out@[j] {
                    Some(s) => spec_expansion_request(root@, inclusions@[j]@) matches Some(t)
                        && t == s@,
                    None => spec_expansion_request(root@, inclusions@[j]@) is None,
                },
        decreases inclusions@.len() - i,
    {
        match mid_split(inclusions[i].as_str()) {
            Some(t) => {
                out.push(Some(join_rel(root, t.0.as_str())));
            },
            None => {
                out.push(None);
            },
        }
        i = i + 1;
    }
    out
}

/// The patterns a mid-pattern wildcard turns into: one per listed
/// subdirectory, the wildcard segment replaced by the subdirectory's name.
/// A failed listing keeps the pattern itself, so it can surface later as
/// unmatched.
pub open spec fn spec_expand_one(
    p: Seq<char>,
    answer: &Option<Vec<DirEntry>>,
) -> Seq<Seq<char>> {
    match spec_mid_split(p) {
        Some(t) => match answer {
            Some(es) => spec_expand_entries(t.0, t.1, es@.map_values(|e: DirEntry| e.view_pair())),
            None => seq![p],
        },
        None => seq![p],
    }
}

/// The expanded patterns from a listing: one per directory entry, in order.
pub open spec fn spec_expand_entries(
    prefix: Seq<char>,
    suffix: Seq<char>,
    entries: Seq<(Seq<char>, bool)>,
) -> Seq<Seq<char>>
    decreases entries.len(),
{
    if entries.len() == 0 {
        Seq::empty()
    } else {
        spec_expand_entries(prefix, suffix, entries.drop_last()) + if entries.last().1 {
            seq![spec_join_rel(prefix, entries.last().0) + "/"@ + suffix]
        } else {
            Seq::empty()
        }
    }
}

/// The whole expanded inclusion list: each pattern's expansion, in order.
pub open spec fn spec_expand_all(
    ps: Seq<Seq<char>>,
    answers: Seq<Option<Vec<DirEntry>>>,
    n: int,
) -> Seq<Seq<char>>
    decreases n,
{
    if n <= 0 {
        Seq::empty()
    } else {
        spec_expand_all(ps, answers, n - 1) + spec_expand_one(ps[n - 1], &answers[n - 1])
    }
}

/// Expands mid-pattern wildcards: each pattern with one becomes one pattern
/// per listed subdirectory of its prefix; other patterns, and patterns
/// whose prefix could not be listed, pass through unchanged.
pub fn expand_patterns(inclusions: &Vec<String>, answers: &Vec<Option<Vec<DirEntry>>>) -> (r:
    Vec<String>)
    requires
        answers@.len() == inclusions@.len(),
    ensures
        r@.map_values(|p: String| p@) == spec_expand_all(
            inclusions@.map_values(|p: String| p@),
            answers@,
            inclusions@.len() as int,
        ),
{
    let ghost pv = inclusions@.map_values(|p: String| p@);
    let mut out: Vec<String> = Vec::new();
    let mut i: usize = 0;
    while i < inclusions.len()
        invariant
            i <= inclusions@.len(),
            answers@.len() == inclusions@.len(),
            pv == inclusions@.map_values(|p: String| p@),
            out@.map_values(|p: String| p@) == spec_expand_all(pv, answers@, i as int),
        decreases inclusions@.len() - i,
    {
        let ghost out0 = out@.map_values(|p: String| p@);
        let p = &inclusions[i];
        match mid_split(p.as_str()) {
            Some(t) => {
                let (prefix, suffix) = t;
                match &answers[i] {
                    Some(es) => {
                        let ghost ev = es@.map_values(|e: DirEntry| e.view_pair());
                        let mut k: usize = 0;
                        while k < es.len()
                            invariant
                                k <= es@.len(),
                                ev == es@.map_values(|e: DirEntry| e.view_pair()),
                                out@.map_values(|q: String| q@) == out0 + spec_expand_entries(
                                    prefix@,
                                    suffix@,
                                    ev.take(k as int),
                                ),
                            decreases es@.len() - k,
                        {
                            let ghost o0 = out@.map_values(|q: String| q@);
                            if es[k].is_dir {
                                let mut s = join_rel(prefix.as_str(), es[k].name.as_str());
                                s.append("/");
                                s.append(suffix.as_str());
                                out.push(s);
                            }
                            proof {
                                assert(ev.take(k + 1).drop_last() =~= ev.take(k as int));
                                assert(ev.take(k + 1).last() == ev[k as int]);
                                assert(ev[k as int] == es@[k as int].view_pair());
                                let on = out@.map_values(|q: String| q@);
                                if es@[k as int].is_dir {
                                    assert(on =~= o0.push(
                                        spec_join_rel(prefix@, es@[k as int].name@) + "/"@
                                            + suffix@,
                                    ));
                                } else {
                                    assert(on =~= o0);
                                }
                                assert(on =~= out0 + spec_expand_entries(
                                    prefix@,
                                    suffix@,
                                    ev.take(k + 1),
                                ));
                            }
                            k = k + 1;
                        }
                        proof {
                            assert(ev.take(es@.len() as int) =~= ev);
                        }
                    },
                    None => {
                        out.push(p.clone());
                        proof {
                            assert(out@.map_values(|q: String| q@) =~= out0.push(pv[i as int]));
                        }
                    },
                }
            },
            None => {
                out.push(p.clone());
                proof {
                    assert(out@.map_values(|q: String| q@) =~= out0.push(pv[i as int]));
                }
            },
        }
        proof {
            assert(pv[i as int] == inclusions@[i as int]@);
            assert(out@.map_values(|q: String| q@) =~= spec_expand_all(pv, answers@, i + 1));
        }
        i = i + 1;
    }
    out
}

/// A trailing-wildcard pattern, decomposed: the directory to list (relative
/// to the root) and the name prefix matched entries must carry; an empty
/// prefix admits every entry.
pub open spec fn spec_star_parts(p: Seq<char>) -> (Seq<char>, Seq<char>) {
    let s = spec_trim_trailing(p, '*');
    if s.len() == 0 {
        (Seq::empty(), Seq::empty())
    } else if s.last() == '/' {
        (spec_trim_trailing(s, '/'), Seq::empty())
    } else {
        let parts = spec_split(s, '/');
        (spec_join(parts.drop_last(), "/"@), parts.last())
    }
}

fn star_parts(p: &str) -> (r: (String, String))
    requires
        spec_ends_with(p@, "*"@),
    ensures
        r.0@ == spec_star_parts(p@).0,
        r.1@ == spec_star_parts(p@).1,
{
    let s = trim_trailing(p, '*');
    let sl = str_len(s.as_str());
    if sl == 0 {
        (String::new(), String::new())
    } else if s.as_str().get_char(sl - 1) == '/' {
        proof {
            assert(s@.last() == s@[sl - 1]);
        }
        (trim_trailing(s.as_str(), '/'), String::new())
    } else {
        proof {
            assert(s@.last() == s@[sl - 1]);
        }
        let mut parts = split_str(s.as_str(), '/');
        proof {
            crate::strutil::lemma_split_len(s@, '/');
        }
        let last = parts.pop().unwrap();
        proof {
            assert(parts@.map_values(|q: String| q@) =~= spec_split(s@, '/').drop_last());
            assert(last@ == spec_split(s@, '/').last());
        }
        let parent = join_strings(&parts, "/");
        (parent, last)
    }
}

/// What resolution must look up for one inclusion pattern: a listing for a
/// trailing-wildcard pattern, a directory probe for an exact one.
pub open spec fn spec_request(root: Seq<char>, p: Seq<char>) -> (bool, Seq<char>) {
    if spec_ends_with(p, "*"@) {
        (true, spec_join_rel(root, spec_star_parts(p).0))
    } else {
        (false, spec_join_rel(root, p))
    }
}

/// The lookups resolution needs, one per expanded inclusion pattern: `List`
/// to enumerate a directory, `Probe` to test that a path is a directory.
pub fn resolution_requests(root: &str, patterns: &Vec<String>) -> (r: Vec<Request>)
    ensures
        r@.len() == patterns@.len(),
        forall|j: int|
            0 <= j < r@.len() ==> match #[trigger] r@[j] {
                Request::List(s) => spec_request(root@, patterns@[j]@) == (true, s@),
                Request::Probe(s) => spec_request(root@, patterns@[j]@) == (false, s@),
            },
{
    let mut out: Vec<Request> = Vec::new();
    let mut i: usize = 0;
    while i < patterns.len()
        invariant
            i <= patterns@.len(),
            out@.len() == i,
            forall|j: int|
                0 <= j < i ==> match #[trigger] out@[j] {
                    Request::List(s) => spec_request(root@, patterns@[j]@) == (true, s@),
                    Request::Probe(s) => spec_request(root@, patterns@[j]@) == (false, s@),
                },
        decreases patterns@.len() - i,
    {
        let p = &patterns[i];
        if ends_with_str(p.as_str(), "*") {
            let parts = star_parts(p.as_str());
            out.push(Request::List(join_rel(root, parts.0.as_str())));
        } else {
            out.push(Request::Probe(join_rel(root, p.as_str())));
        }
        i = i + 1;
    }
    out
}

/// No `/` anywhere in `s`.
pub open spec fn spec_no_slash(s: Seq<char>) -> bool {
    !spec_contains_char(s, '/')
}

/// A candidate path is excluded when it extends a recorded exclusion path
/// without opening a further path segment.
pub open spec fn spec_excluded(path: Seq<char>, excl: Seq<Seq<char>>) -> bool {
    exists|k: int|
        0 <= k < excl.len() && spec_starts_with(path, #[trigger] excl[k]) && spec_no_slash(
            path.skip(excl[k].len() as int),
        )
}

fn is_excluded(path: &str, excl: &Vec<String>) -> (r: bool)
    ensures
        r == spec_excluded(path@, excl@.map_values(|q: String| q@)),
{
    let ghost ev = excl@.map_values(|q: String| q@);
    let pl = str_len(path);
    let mut k: usize = 0;
    while k < excl.len()
        invariant
            k <= excl@.len(),
            ev == excl@.map_values(|q: String| q@),
            pl == path@.len(),
            forall|j: int|
                0 <= j < k ==> !(spec_starts_with(path@, #[trigger] ev[j]) && spec_no_slash(
                    path@.skip(ev[j].len() as int),
                )),
        decreases excl@.len() - k,
    {
        let e = &excl[k];
        proof {
            assert(ev[k as int] == excl@[k as int]@);
        }
        if starts_with_str(path, e.as_str()) {
            let el = str_len(e.as_str());
            let rest = path.substring_char(el, pl);
            proof {
                assert(rest@ =~= path@.skip(el as int));
            }
            if !contains_char(rest, '/') {
                return true;
            }
        }
        k = k + 1;
    }
    false
}

/// Whether a listed entry yields a candidate: a directory, not hidden, its
/// name carrying the pattern's prefix, its path not excluded.
pub open spec fn spec_entry_ok(
    name: Seq<char>,
    is_dir: bool,
    prefix: Seq<char>,
    path: Seq<char>,
    excl: Seq<Seq<char>>,
) -> bool {
    &&& is_dir
    &&& !spec_starts_with(name, "."@)
    &&& (prefix.len() == 0 || spec_starts_with(name, prefix))
    &&& !spec_excluded(path, excl)
}

/// The candidate paths one listing yields, in entry order.
pub open spec fn spec_list_cands(
    root: Seq<char>,
    base_rel: Seq<char>,
    prefix: Seq<char>,
    entries: Seq<(Seq<char>, bool)>,
    excl: Seq<Seq<char>>,
) -> Seq<Seq<char>>
    decreases entries.len(),
{
    if entries.len() == 0 {
        Seq::empty()
    } else {
        let path = spec_join_rel(root, spec_join_rel(base_rel, entries.last().0));
        spec_list_cands(root, base_rel, prefix, entries.drop_last(), excl) + if spec_entry_ok(
            entries.last().0,
            entries.last().1,
            prefix,
            path,
            excl,
        ) {
            seq![path]
        } else {
            Seq::empty()
        }
    }
}

/// The directory an exact pattern names is hidden: its final path segment
/// starts with a dot.
pub open spec fn spec_hidden_target(p: Seq<char>) -> bool {
    spec_starts_with(spec_split(p, '/').last(), "."@)
}

/// The candidates one pattern yields, given its answer.
pub open spec fn spec_pattern_cands(
    root: Seq<char>,
    p: Seq<char>,
    answer: &Answer,
    excl: Seq<Seq<char>>,
) -> Seq<Seq<char>> {
    if spec_ends_with(p, "*"@) {
        match answer {
            Answer::Entries(Some(es)) => spec_list_cands(
                root,
                spec_star_parts(p).0,
                spec_star_parts(p).1,
                es@.map_values(|e: DirEntry| e.view_pair()),
                excl,
            ),
            _ => Seq::empty(),
        }
    } else {
        match answer {
            Answer::Dir(true) => if spec_hidden_target(p) {
                Seq::empty()
            } else {
                seq![spec_join_rel(root, p)]
            },
            _ => Seq::empty(),
        }
    }
}

/// The unmatched record one pattern yields: the pattern itself when its
/// directory could not be enumerated or its exact path is no directory.
/// A hidden directory an exact pattern names is skipped before any read,
/// so it is neither a candidate nor unmatched.
pub open spec fn spec_pattern_unmatched(p: Seq<char>, answer: &Answer) -> Seq<Seq<char>> {
    if spec_ends_with(p, "*"@) {
        match answer {
            Answer::Entries(Some(_)) => Seq::empty(),
            _ => seq![p],
        }
    } else {
        match answer {
            Answer::Dir(true) => Seq::empty(),
            _ => seq![p],
        }
    }
}

/// All candidates of the first `n` patterns, in order.
pub open spec fn spec_cands_upto(
    root: Seq<char>,
    ps: Seq<Seq<char>>,
    answers: Seq<Answer>,
    excl: Seq<Seq<char>>,
    n: int,
) -> Seq<Seq<char>>
    decreases n,
{
    if n <= 0 {
        Seq::empty()
    } else {
        spec_cands_upto(root, ps, answers, excl, n - 1) + spec_pattern_cands(
            root,
            ps[n - 1],
            &answers[n - 1],
            excl,
        )
    }
}

/// All unmatched records of the first `n` patterns, in order.
pub open spec fn spec_unmatched_upto(ps: Seq<Seq<char>>, answers: Seq<Answer>, n: int) -> Seq<
    Seq<char>,
>
    decreases n,
{
    if n <= 0 {
        Seq::empty()
    } else {
        spec_unmatched_upto(ps, answers, n - 1) + spec_pattern_unmatched(
            ps[n - 1],
            &answers[n - 1],
        )
    }
}

/// What resolution found: the candidate package directories in discovery
/// order, and the patterns that matched nothing.
pub struct Resolution {
    pub candidates: Vec<String>,
    pub unmatched: Vec<String>,
}

/// Resolves the expanded inclusion patterns against the answered lookups:
/// every surviving entry of a listed directory becomes a candidate, probed
/// paths become candidates unless they name a hidden directory, and a
/// pattern whose lookup failed is recorded as unmatched.
pub fn resolve_patterns(
    root: &str,
    patterns: &Vec<String>,
    exclusions: &Vec<String>,
    answers: &Vec<Answer>,
) -> (r: Resolution)
    requires
        answers@.len() == patterns@.len(),
    ensures
        r.candidates@.map_values(|p: String| p@) == spec_cands_upto(
            root@,
            patterns@.map_values(|p: String| p@),
            answers@,
            exclusions@.map_values(|p: String| p@),
            patterns@.len() as int,
        ),
        r.unmatched@.map_values(|p: String| p@) == spec_unmatched_upto(
            patterns@.map_values(|p: String| p@),
            answers@,
            patterns@.len() as int,
        ),
{
    let ghost pv = patterns@.map_values(|p: String| p@);
    let ghost xv = exclusions@.map_values(|p: String| p@);
    let mut candidates: Vec<String> = Vec::new();
    let mut unmatched: Vec<String> = Vec::new();
    let mut i: usize = 0;
    while i < patterns.len()
        invariant
            i <= patterns@.len(),
            answers@.len() == patterns@.len(),
            pv == patterns@.map_values(|p: String| p@),
            xv == exclusions@.map_values(|p: String| p@),
            candidates@.map_values(|p: String| p@) == spec_cands_upto(
                root@,
                pv,
                answers@,
                xv,
                i as int,
            ),
            unmatched@.map_values(|p: String| p@) == spec_unmatched_upto(pv, answers@, i as int),
        decreases patterns@.len() - i,
    {
        let p = &patterns[i];
        let ghost c0 = candidates@.map_values(|q: String| q@);
        let ghost u0 = unmatched@.map_values(|q: String| q@);
        proof {
            assert(pv[i as int] == patterns@[i as int]@);
        }
        if ends_with_str(p.as_str(), "*") {
            let parts = star_parts(p.as_str());
            let (base_rel, prefix) = parts;
            match &answers[i] {
                Answer::Entries(Some(es)) => {
                    let ghost ev = es@.map_values(|e: DirEntry| e.view_pair());
                    let mut k: usize = 0;
                    while k < es.len()
                        invariant
                            k <= es@.len(),
                            ev == es@.map_values(|e: DirEntry| e.view_pair()),
                            base_rel@ == spec_star_parts(pv[i as int]).0,
                            prefix@ == spec_star_parts(pv[i as int]).1,
                            xv == exclusions@.map_values(|p: String| p@),
                            candidates@.map_values(|q: String| q@) == c0 + spec_list_cands(
                                root@,
                                base_rel@,
                                prefix@,
                                ev.take(k as int),
                                xv,
                            ),
                        decreases es@.len() - k,
                    {
                        let ghost cc0 = candidates@.map_values(|q: String| q@);
                        let e = &es[k];
                        let rel = join_rel(base_rel.as_str(), e.name.as_str());
                        let path = join_rel(root, rel.as_str());
                        let keep = e.is_dir && !starts_with_str(e.name.as_str(), ".") && (str_len(
                            prefix.as_str(),
                        ) == 0 || starts_with_str(e.name.as_str(), prefix.as_str()))
                            && !is_excluded(path.as_str(), exclusions);
                        if keep {
                            candidates.push(path);
                        }
                        proof {
                            assert(ev.take(k + 1).drop_last() =~= ev.take(k as int));
                            assert(ev.take(k + 1).last() == ev[k as int]);
                            assert(ev[k as int] == es@[k as int].view_pair());
                            let cn = candidates@.map_values(|q: String| q@);
                            if keep {
                                assert(cn =~= cc0.push(
                                    spec_join_rel(
                                        root@,
                                        spec_join_rel(base_rel@, es@[k as int].name@),
                                    ),
                                ));
                            } else {
                                assert(cn =~= cc0);
                            }
                            assert(cn =~= c0 + spec_list_cands(
                                root@,
                                base_rel@,
                                prefix@,
                                ev.take(k + 1),
                                xv,
                            ));
                        }
                        k = k + 1;
                    }
                    proof {
                        assert(ev.take(es@.len() as int) =~= ev);
                        assert(unmatched@.map_values(|q: String| q@) =~= u0 +
                            spec_pattern_unmatched(pv[i as int], &answers@[i as int]));
                    }
                },
                _ => {
                    unmatched.push(p.clone());
                    proof {
                        assert(unmatched@.map_values(|q: String| q@) =~= u0.push(pv[i as int]));
                        assert(candidates@.map_values(|q: String| q@) =~= c0 + spec_pattern_cands(
                            root@,
                            pv[i as int],
                            &answers@[i as int],
                            xv,
                        ));
                    }
                },
            }
        } else {
            match &answers[i] {
                Answer::Dir(true) => {
                    let mut parts = split_str(p.as_str(), '/');
                    proof {
                        crate::strutil::lemma_split_len(p@, '/');
                    }
                    let last = parts.pop().unwrap();
                    proof {
                        assert(last@ == spec_split(p@, '/').last());
                    }
                    if !starts_with_str(last.as_str(), ".") {
                        candidates.push(join_rel(root, p.as_str()));
                        proof {
                            assert(candidates@.map_values(|q: String| q@) =~= c0.push(
                                spec_join_rel(root@, pv[i as int]),
                            ));
                        }
                    }
                    proof {
                        assert(candidates@.map_values(|q: String| q@) =~= c0
                            + spec_pattern_cands(root@, pv[i as int], &answers@[i as int], xv));
                        assert(unmatched@.map_values(|q: String| q@) =~= u0 +
                            spec_pattern_unmatched(pv[i as int], &answers@[i as int]));
                    }
                },
                _ => {
                    unmatched.push(p.clone());
                    proof {
                        assert(unmatched@.map_values(|q: String| q@) =~= u0.push(pv[i as int]));
                        assert(candidates@.map_values(|q: String| q@) =~= c0 + spec_pattern_cands(
                            root@,
                            pv[i as int],
                            &answers@[i as int],
                            xv,
                        ));
                    }
                },
            }
        }
        proof {
            assert(candidates@.map_values(|q: String| q@) =~= spec_cands_upto(
                root@,
                pv,
                answers@,
                xv,
                i + 1,
            ));
            assert(unmatched@.map_values(|q: String| q@) =~= spec_unmatched_upto(
                pv,
                answers@,
                i + 1,
            ));
        }
        i = i + 1;
    }
    Resolution { candidates, unmatched }
}

} // verus!
