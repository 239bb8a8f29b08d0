//! One dependency should carry one version across the workspace.

use vstd::prelude::*;
use vstd::relations::sorted_by;
use core::cmp::Ordering;
use crate::args::AutofixSelect;
use crate::rules::{Issue, IssueLevel};
use crate::strutil::{
    spec_lex_cmp, lex_cmp_str, str_eq, str_len, spec_split, spec_pad, spaces, spec_join,
    join_strings, split_str, vec_str_equal, lemma_lex_cmp_equal, lemma_lex_cmp_flip,
    lemma_lex_cmp_trans, lemma_split_len,
};
use crate::version::{SemVersion, lemma_cmp_antisymmetric, lemma_cmp_transitive};

verus! {

/// The order the issue's entries come in: version ascending first, package
/// path ascending on version ties.
pub open spec fn spec_pair_le(a: (String, SemVersion), b: (String, SemVersion)) -> bool {
    ||| SemVersion::spec_cmp(&a.1, &b.1) == Ordering::Less
    ||| (SemVersion::spec_cmp(&a.1, &b.1) == Ordering::Equal && spec_lex_cmp(a.0@, b.0@)
        != Ordering::Greater)
}

/// The entry order as a relation value, for `sorted_by`.
pub open spec fn pair_order() -> spec_fn((String, SemVersion), (String, SemVersion)) -> bool {
    |a: (String, SemVersion), b: (String, SemVersion)| spec_pair_le(a, b)
}

/// Any two entries are ordered one way or the other.
proof fn lemma_pair_le_total(a: (String, SemVersion), b: (String, SemVersion))
    ensures
        spec_pair_le(a, b) || spec_pair_le(b, a),
{
    lemma_cmp_antisymmetric(&a.1, &b.1);
    lemma_lex_cmp_flip(a.0@, b.0@);
    lemma_lex_cmp_flip(b.0@, a.0@);
    lemma_lex_cmp_equal(a.0@, b.0@);
    lemma_lex_cmp_equal(b.0@, a.0@);
}

/// The entry order is transitive.
proof fn lemma_pair_le_trans(
    a: (String, SemVersion),
    b: (String, SemVersion),
    c: (String, SemVersion),
)
    requires
        spec_pair_le(a, b),
        spec_pair_le(b, c),
    ensures
        spec_pair_le(a, c),
{
    lemma_cmp_antisymmetric(&a.1, &b.1);
    lemma_cmp_antisymmetric(&b.1, &c.1);
    lemma_cmp_antisymmetric(&a.1, &c.1);
    lemma_lex_cmp_equal(a.0@, b.0@);
    lemma_lex_cmp_equal(b.0@, c.0@);
    lemma_lex_cmp_equal(a.0@, c.0@);
    if SemVersion::spec_cmp(&a.1, &b.1) == Ordering::Less {
        if SemVersion::spec_cmp(&b.1, &c.1) == Ordering::Less {
            lemma_cmp_transitive(&a.1, &b.1, &c.1);
        }
    } else {
        if SemVersion::spec_cmp(&b.1, &c.1) == Ordering::Equal {
            if spec_lex_cmp(a.0@, b.0@) == Ordering::Less && spec_lex_cmp(b.0@, c.0@)
                == Ordering::Less {
                lemma_lex_cmp_trans(a.0@, b.0@, c.0@);
            }
        }
    }
}

/// Compares two entries in the issue's order.
fn pair_le(a: &(String, SemVersion), b: &(String, SemVersion)) -> (r: bool)
    ensures
        r == spec_pair_le(*a, *b),
{
    match a.1.cmp(&b.1) {
        Ordering::Less => true,
        Ordering::Equal => match lex_cmp_str(a.0.as_str(), b.0.as_str()) {
            Ordering::Greater => false,
            _ => true,
        },
        Ordering::Greater => false,
    }
}

/// Sorts the entries: version ascending, package path ascending on ties.
/// The result holds exactly the given entries.
fn sort_pairs(input: Vec<(String, SemVersion)>) -> (r: Vec<(String, SemVersion)>)
    ensures
        sorted_by(r@, pair_order()),
        r@.to_multiset() == input@.to_multiset(),
{
    broadcast use vstd::seq_lib::group_to_multiset_ensures;

    let ghost orig = input@;
    let ghost le = pair_order();
    let mut rest = input;
    let mut out: Vec<(String, SemVersion)> = Vec::new();
    while rest.len() > 0
        invariant
            sorted_by(out@, le),
            le == pair_order(),
            out@.to_multiset().add(rest@.to_multiset()) == orig.to_multiset(),
        decreases rest@.len(),
    {
        let ghost rest0 = rest@;
        let item = rest.remove(0);
        proof {
            assert(rest0.len() > 0);
            assert(rest@ == rest0.remove(0));
            vstd::seq_lib::to_multiset_remove(rest0, 0);
            assert(rest0.contains(rest0[0]));
            vstd::seq_lib::to_multiset_contains(rest0, rest0[0]);
        }
        let mut pos: usize = 0;
        while pos < out.len() && pair_le(&out[pos], &item)
            invariant
                pos <= out@.len(),
                forall|k: int| 0 <= k < pos ==> spec_pair_le(#[trigger] out@[k], item),
            decreases out@.len() - pos,
        {
            pos = pos + 1;
        }
        proof {
            if pos < out@.len() {
                lemma_pair_le_total(out@[pos as int], item);
            }
        }
        let ghost out0 = out@;
        out.insert(pos, item);
        proof {
            assert(out@ =~= out0.insert(pos as int, item));
            vstd::seq_lib::to_multiset_insert(out0, pos as int, item);
            let newv = out@;
            assert forall|i: int, j: int| 0 <= i < j < newv.len() implies le(
                newv[i],
                newv[j],
            ) by {
                if i < pos && j < pos {
                    assert(newv[i] == out0[i] && newv[j] == out0[j]);
                } else if i < pos && j == pos {
                    assert(newv[i] == out0[i]);
                    assert(spec_pair_le(out0[i], item));
                } else if i < pos && j > pos {
                    assert(le(out0[i], out0[j - 1]));
                    assert(newv[i] == out0[i] && newv[j] == out0[j - 1]);
                } else if i == pos && j > pos {
                    assert(newv[j] == out0[j - 1]);
                    if pos < out0.len() {
                        assert(spec_pair_le(item, out0[pos as int]));
                        if j - 1 > pos {
                            assert(le(out0[pos as int], out0[j - 1]));
                            assert(spec_pair_le(out0[pos as int], out0[j - 1]));
                            lemma_pair_le_trans(item, out0[pos as int], out0[j - 1]);
                        }
                    }
                } else {
                    assert(le(out0[i - 1], out0[j - 1]));
                    assert(newv[i] == out0[i - 1] && newv[j] == out0[j - 1]);
                }
            }
            assert(out@.to_multiset().add(rest@.to_multiset()) =~= orig.to_multiset());
        }
    }
    proof {
        assert forall|y: (String, SemVersion)| true implies rest@.to_multiset().count(y) == 0 by {
            assert(!rest@.contains(y));
            vstd::seq_lib::to_multiset_contains(rest@, y);
        }
        assert(out@.to_multiset() =~= orig.to_multiset());
    }
    out
}

/// One dependency is declared with diverging versions across the workspace.
/// The entries map each declaring package's path to the version it declares,
/// ordered by version ascending and path ascending on ties.
pub struct MultipleDependencyVersionsIssue {
    pub name: String,
    pub versions: Vec<(String, SemVersion)>,
    pub select: Option<AutofixSelect>,
    pub fixed: bool,
}

/// A version annotated against the issue's extremes: the highest and lowest
/// entries are marked as such, anything else sits between.
pub open spec fn spec_fv(v: &SemVersion, lowest: &SemVersion, highest: &SemVersion) -> Seq<
    char,
> {
    v.spec_rendered() + "   "@ + (if v.spec_same(highest) {
        "↑ highest"@
    } else if v.spec_same(lowest) {
        "↓ lowest"@
    } else {
        "∼ between"@
    })
}

/// The column padding after a path's final segment.
pub open spec fn spec_pad_for(end: Seq<char>) -> Seq<char> {
    if end.len() >= 26 {
        spec_pad(3)
    } else {
        spec_pad((26 - end.len()) as nat)
    }
}

/// The path split on `/` without its final segment.
pub open spec fn spec_common(path: Seq<char>) -> Seq<Seq<char>> {
    spec_split(path, '/').drop_last()
}

/// The path's final segment; a bare `.` renders as `./`.
pub open spec fn spec_end(path: Seq<char>) -> Seq<char> {
    let e = spec_split(path, '/').last();
    if e == "."@ {
        "./"@
    } else {
        e
    }
}

/// One rendered line: a package entry, grouped under its directory when that
/// changed from the previous entry.
pub open spec fn spec_mdv_line(path: Seq<char>, fv: Seq<char>, group: Seq<Seq<char>>) -> Seq<
    char,
> {
    let common = spec_common(path);
    let end = spec_end(path);
    if group.len() == 0 || group != common {
        if common.len() == 1 && common[0] == "."@ {
            "  ./"@ + end + "  "@ + spec_pad_for(end) + fv
        } else {
            "  "@ + spec_join(common, "/"@) + "\n      "@ + end + spec_pad_for(end) + fv
        }
    } else {
        "      "@ + end + spec_pad_for(end) + fv
    }
}

/// The rendered lines from entry `i` on, with `group` the directory of the
/// entry before.
pub open spec fn spec_mdv_lines(
    pairs: Seq<(String, SemVersion)>,
    i: int,
    group: Seq<Seq<char>>,
) -> Seq<Seq<char>>
    decreases pairs.len() - i,
{
    if i < 0 || i >= pairs.len() {
        Seq::empty()
    } else {
        let fv = spec_fv(&pairs[i].1, &pairs[0].1, &pairs[pairs.len() - 1].1);
        seq![spec_mdv_line(pairs[i].0@, fv, group)] + spec_mdv_lines(
            pairs,
            i + 1,
            spec_common(pairs[i].0@),
        )
    }
}

impl MultipleDependencyVersionsIssue {
    /// The entries come ordered: version ascending, path ascending on ties.
    pub open spec fn wf(&self) -> bool {
        sorted_by(self.versions@, pair_order())
    }

    /// A freshly reported finding about `name`, holding exactly the given
    /// package-to-version entries, reordered by version ascending and path
    /// ascending on ties.
    pub fn new(
        name: String,
        versions: Vec<(String, SemVersion)>,
        select: Option<AutofixSelect>,
    ) -> (r: MultipleDependencyVersionsIssue)
        ensures
            r.name@ == name@,
            r.select == select,
            !r.fixed,
            r.wf(),
            r.versions@.to_multiset() == versions@.to_multiset(),
    {
        let sorted = sort_pairs(versions);
        MultipleDependencyVersionsIssue { name, versions: sorted, select, fixed: false }
    }

    /// The version an automatic repair settles on under a `highest` or
    /// `lowest` policy: the last or first entry of the ascending list.
    pub fn autofix_version(&self, select: AutofixSelect) -> (r: Option<String>)
        requires
            self.wf(),
        ensures
            self.versions@.len() == 0 ==> r is None,
            self.versions@.len() > 0 ==> {
                &&& r matches Some(v)
                &&& (select is Highest ==> v@ == self.versions@[self.versions@.len()
                    - 1].1.spec_rendered())
                &&& (select is Lowest ==> v@ == self.versions@[0].1.spec_rendered())
            },
    {
        if self.versions.len() == 0 {
            return None;
        }
        match select {
            AutofixSelect::Highest => Some(
                self.versions[self.versions.len() - 1].1.rendered().clone(),
            ),
            AutofixSelect::Lowest => Some(self.versions[0].1.rendered().clone()),
        }
    }

    /// The first entry's version is lowest: no entry compares below it.
    pub proof fn lemma_first_is_lowest(&self, k: int)
        requires
            self.wf(),
            0 <= k < self.versions@.len(),
        ensures
            SemVersion::spec_cmp(&self.versions@[0].1, &self.versions@[k].1) != Ordering::Greater,
    {
        if k > 0 {
            assert(pair_order()(self.versions@[0], self.versions@[k]));
            assert(spec_pair_le(self.versions@[0], self.versions@[k]));
        }
        lemma_cmp_antisymmetric(&self.versions@[0].1, &self.versions@[k].1);
    }

    /// The last entry's version is highest: no entry compares above it.
    pub proof fn lemma_last_is_highest(&self, k: int)
        requires
            self.wf(),
            0 <= k < self.versions@.len(),
        ensures
            SemVersion::spec_cmp(
                &self.versions@[self.versions@.len() - 1].1,
                &self.versions@[k].1,
            ) != Ordering::Less,
    {
        let last = self.versions@.len() - 1;
        if k < last {
            assert(pair_order()(self.versions@[k], self.versions@[last]));
            assert(spec_pair_le(self.versions@[k], self.versions@[last]));
        }
        lemma_cmp_antisymmetric(&self.versions@[last].1, &self.versions@[k].1);
    }

    /// The annotated version label of entry `i`.
    pub fn format_label(&self, i: usize) -> (r: String)
        requires
            i < self.versions@.len(),
        ensures
            r@ == spec_fv(
                &self.versions@[i as int].1,
                &self.versions@[0].1,
                &self.versions@[self.versions@.len() - 1].1,
            ),
    {
        let v = &self.versions[i].1;
        let mut s = v.rendered().clone();
        s.append("   ");
        if v.same(&self.versions[self.versions.len() - 1].1) {
            s.append("↑ highest");
        } else if v.same(&self.versions[0].1) {
            s.append("↓ lowest");
        } else {
            s.append("∼ between");
        }
        s
    }
}

impl Issue for MultipleDependencyVersionsIssue {
    open spec fn spec_name(&self) -> Seq<char> {
        "multiple-dependency-versions"@
    }

    open spec fn spec_level(&self) -> IssueLevel {
        if self.fixed {
            IssueLevel::Fixed
        } else {
            IssueLevel::Error
        }
    }

    open spec fn spec_message(&self) -> Seq<char> {
        spec_join(spec_mdv_lines(self.versions@, 0, Seq::empty()), "\n"@)
    }

    open spec fn spec_why(&self) -> Seq<char> {
        "Dependency "@ + self.name@ + " has multiple versions defined in the workspace."@
    }

    fn name(&self) -> (r: &'static str) {
        "multiple-dependency-versions"
    }

    fn level(&self) -> (r: IssueLevel) {
        if self.fixed {
            IssueLevel::Fixed
        } else {
            IssueLevel::Error
        }
    }

    fn message(&self) -> (r: String) {
        let mut lines: Vec<String> = Vec::new();
        let mut group_vec: Vec<String> = Vec::new();
        let mut i: usize = 0;
        while i < self.versions.len()
            invariant
                i <= self.versions@.len(),
                i == 0 ==> group_vec@.len() == 0,
                i > 0 ==> group_vec@.map_values(|p: String| p@) == spec_common(
                    self.versions@[i - 1].0@,
                ),
                lines@.map_values(|p: String| p@) + spec_mdv_lines(
                    self.versions@,
                    i as int,
                    group_vec@.map_values(|p: String| p@),
                ) == spec_mdv_lines(self.versions@, 0, Seq::empty()),
            decreases self.versions@.len() - i,
        {
            let path = &self.versions[i].0;
            let mut parts = split_str(path.as_str(), '/');
            proof {
                lemma_split_len(path@, '/');
                assert(parts@.map_values(|p: String| p@).len() == parts@.len());
            }
            let end0 = parts.pop().unwrap();
            proof {
                assert(parts@.map_values(|p: String| p@) =~= spec_split(
                    path@,
                    '/',
                ).drop_last());
                assert(end0@ == spec_split(path@, '/').last());
            }
            let end = if str_eq(end0.as_str(), ".") {
                String::from_str("./")
            } else {
                end0
            };
            let fv = self.format_label(i);
            let el = str_len(end.as_str());
            let pad = if el >= 26 {
                spaces(3)
            } else {
                spaces(26 - el)
            };
            let is_new = group_vec.len() == 0 || !vec_str_equal(&group_vec, &parts);
            let mut line = String::new();
            if is_new {
                let special = parts.len() == 1 && str_eq(parts[0].as_str(), ".");
                proof {
                    if parts@.len() == 1 {
                        assert(parts@.map_values(|p: String| p@)[0] == parts@[0]@);
                    }
                }
                if special {
                    line.append("  ./");
                    line.append(end.as_str());
                    line.append("  ");
                    line.append(pad.as_str());
                    line.append(fv.as_str());
                } else {
                    line.append("  ");
                    let joined = join_strings(&parts, "/");
                    line.append(joined.as_str());
                    line.append("\n      ");
                    line.append(end.as_str());
                    line.append(pad.as_str());
                    line.append(fv.as_str());
                }
            } else {
                line.append("      ");
                line.append(end.as_str());
                line.append(pad.as_str());
                line.append(fv.as_str());
            }
            proof {
                assert(line@ == spec_mdv_line(
                    self.versions@[i as int].0@,
                    fv@,
                    group_vec@.map_values(|p: String| p@),
                ));
                let old_lines = lines@.map_values(|p: String| p@);
                assert((old_lines + spec_mdv_lines(
                    self.versions@,
                    i as int,
                    group_vec@.map_values(|p: String| p@),
                )) == spec_mdv_lines(self.versions@, 0, Seq::empty()));
            }
            lines.push(line);
            group_vec = parts;
            proof {
                let new_lines = lines@.map_values(|p: String| p@);
                let old_lines = new_lines.drop_last();
                assert(new_lines =~= old_lines.push(line@));
                assert(old_lines + (seq![line@] + spec_mdv_lines(
                    self.versions@,
                    i + 1,
                    spec_common(self.versions@[i as int].0@),
                )) =~= new_lines + spec_mdv_lines(
                    self.versions@,
                    i + 1,
                    spec_common(self.versions@[i as int].0@),
                ));
            }
            i = i + 1;
        }
        proof {
            assert(lines@.map_values(|p: String| p@) + Seq::<Seq<char>>::empty()
                =~= lines@.map_values(|p: String| p@));
        }
        join_strings(&lines, "\n")
    }

    fn why(&self) -> (r: String) {
        let mut s = String::from_str("Dependency ");
        s.append(self.name.as_str());
        s.append(" has multiple versions defined in the workspace.");
        s
    }
}

} // verus!
