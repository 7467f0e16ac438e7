//! Rendering: the entries in listing order (insertion sort over the entry
//! order), one hyperlink list line per entry with indentation by path depth,
//! and the fixed header line that opens every summary.
use vstd::prelude::*;
use vstd::string::StringExecFns;
use crate::entry::Config;
use crate::entry::DirListing;
use crate::entry::DirModel;
use crate::entry::DocModel;
use crate::entry::Document;
use crate::entry::EntryModel;
use crate::entry::SummaryEntry;
use crate::order::entry_le;
use crate::order::entry_le_exec;
use crate::order::lemma_entry_le_total;
use crate::order::lemma_entry_le_trans;
use crate::tree::collect_flat;
use crate::tree::collect_tree;
use crate::tree::collect_tree_spec;
use crate::tree::dirs_ok;
use crate::tree::docs_entries_spec;
use crate::tree::docs_ok;

verus! {

/// Stable insertion of `e` into `s`: `e` lands after every element that is
/// not ordered after it.
pub open spec fn insert_spec(s: Seq<EntryModel>, e: EntryModel) -> Seq<EntryModel>
    decreases s.len(),
{
    if s.len() > 0 && !entry_le(s.last(), e) {
        insert_spec(s.drop_last(), e).push(s.last())
    } else {
        s.push(e)
    }
}

/// The entries in listing order: insertion sort over the entry order.
pub open spec fn sort_spec(s: Seq<EntryModel>) -> Seq<EntryModel>
    decreases s.len(),
{
    if s.len() == 0 {
        s
    } else {
        insert_spec(sort_spec(s.drop_last()), s.last())
    }
}

/// Every pair of positions respects the entry order.
pub open spec fn sorted_le(s: Seq<EntryModel>) -> bool {
    forall|i: int, j: int| 0 <= i < j < s.len() ==> entry_le(s[i], s[j])
}

proof fn lemma_insert_spec_props(s: Seq<EntryModel>, e: EntryModel)
    ensures
        insert_spec(s, e).len() == s.len() + 1,
        insert_spec(s, e).to_multiset() == s.to_multiset().insert(e),
        forall|k: int|
            0 <= k < insert_spec(s, e).len() ==> insert_spec(s, e)[k] == e || s.contains(
                insert_spec(s, e)[k],
            ),
        sorted_le(s) ==> sorted_le(insert_spec(s, e)),
    decreases s.len(),
{
    broadcast use vstd::seq_lib::group_to_multiset_ensures;

    let r = insert_spec(s, e);
    if s.len() > 0 && !entry_le(s.last(), e) {
        let d = s.drop_last();
        lemma_insert_spec_props(d, e);
        let t = insert_spec(d, e);
        assert(r == t.push(s.last()));
        assert(d.push(s.last()) =~= s);
        assert(r.to_multiset() == t.to_multiset().insert(s.last()));
        assert(s.to_multiset() == d.to_multiset().insert(s.last()));
        assert(t.to_multiset().insert(s.last()) =~= d.to_multiset().insert(s.last()).insert(e));
        assert forall|k: int| 0 <= k < r.len() implies r[k] == e || s.contains(r[k]) by {
            if k < t.len() {
                assert(r[k] == t[k]);
                if t[k] != e {
                    let m = choose|m: int| 0 <= m < d.len() && d[m] == t[k];
                    assert(s[m] == t[k]);
                }
            } else {
                assert(r[k] == s.last());
                assert(s[s.len() - 1] == s.last());
            }
        }
        if sorted_le(s) {
            assert(sorted_le(d)) by {
                assert(forall|i: int, j: int|
                    0 <= i < j < d.len() ==> d[i] == s[i] && d[j] == s[j]);
            }
            assert(sorted_le(t));
            assert forall|i: int, j: int| 0 <= i < j < r.len() implies entry_le(r[i], r[j]) by {
                if j < t.len() {
                    assert(r[i] == t[i] && r[j] == t[j]);
                } else {
                    assert(r[j] == s.last());
                    assert(r[i] == t[i]);
                    if t[i] == e {
                        lemma_entry_le_total(s.last(), e);
                    } else {
                        let m = choose|m: int| 0 <= m < d.len() && d[m] == t[i];
                        assert(s[m] == t[i]);
                        assert(entry_le(s[m], s[s.len() - 1]));
                    }
                }
            }
        }
    } else {
        assert(r == s.push(e));
        assert forall|k: int| 0 <= k < r.len() implies r[k] == e || s.contains(r[k]) by {
            if k < s.len() {
                assert(r[k] == s[k]);
            }
        }
        if sorted_le(s) {
            assert forall|i: int, j: int| 0 <= i < j < r.len() implies entry_le(r[i], r[j]) by {
                if j < s.len() {
                    assert(r[i] == s[i] && r[j] == s[j]);
                } else {
                    assert(r[j] == e);
                    assert(r[i] == s[i]);
                    if s.len() > 0 {
                        assert(entry_le(s.last(), e));
                        if i < s.len() - 1 {
                            assert(entry_le(s[i], s[s.len() - 1]));
                            lemma_entry_le_trans(s[i], s.last(), e);
                        }
                    }
                }
            }
        }
    }
}

/// Sorting orders the entries: the result respects the entry order at every
/// pair of positions.
pub proof fn lemma_sort_spec_sorted(s: Seq<EntryModel>)
    ensures
        sorted_le(sort_spec(s)),
    decreases s.len(),
{
    if s.len() > 0 {
        lemma_sort_spec_sorted(s.drop_last());
        lemma_insert_spec_props(sort_spec(s.drop_last()), s.last());
    }
}

/// Sorting permutes the entries: the result holds exactly the entries of the
/// input, multiplicities included.
pub proof fn lemma_sort_spec_multiset(s: Seq<EntryModel>)
    ensures
        sort_spec(s).to_multiset() == s.to_multiset(),
    decreases s.len(),
{
    broadcast use vstd::seq_lib::group_to_multiset_ensures;

    if s.len() > 0 {
        let d = s.drop_last();
        lemma_sort_spec_multiset(d);
        lemma_insert_spec_props(sort_spec(d), s.last());
        assert(d.push(s.last()) =~= s);
        assert(s.to_multiset() == d.to_multiset().insert(s.last()));
    }
}

/// Two sorted sequences holding the same entries are the same sequence: the
/// listing order leaves no freedom, so one scan of a tree has one rendering.
pub proof fn lemma_sorted_unique(a: Seq<EntryModel>, b: Seq<EntryModel>)
    requires
        sorted_le(a),
        sorted_le(b),
        a.to_multiset() == b.to_multiset(),
    ensures
        a == b,
    decreases a.len(),
{
    broadcast use vstd::seq_lib::group_to_multiset_ensures;

    a.to_multiset_ensures();
    b.to_multiset_ensures();
    if a.len() == 0 {
        assert(b.to_multiset().len() == 0);
        assert(a =~= b);
    } else {
        assert(b.len() == a.len());
        assert(a.contains(a[0]));
        assert(a.to_multiset().count(a[0]) > 0);
        assert(b.to_multiset().count(a[0]) > 0);
        assert(b.contains(a[0]));
        assert(b.contains(b[0]));
        assert(b.to_multiset().count(b[0]) > 0);
        assert(a.to_multiset().count(b[0]) > 0);
        assert(a.contains(b[0]));
        let ia = choose|ia: int| 0 <= ia < a.len() && a[ia] == b[0];
        let ib = choose|ib: int| 0 <= ib < b.len() && b[ib] == a[0];
        if ia == 0 {
            assert(a[0] == b[0]);
        } else if ib == 0 {
            assert(a[0] == b[0]);
        } else {
            assert(entry_le(a[0], a[ia]));
            assert(entry_le(b[0], b[ib]));
            crate::order::lemma_entry_le_antisym(a[0], b[0]);
        }
        assert(a[0] == b[0]);
        let a1 = a.remove(0);
        let b1 = b.remove(0);
        a.remove_ensures(0);
        b.remove_ensures(0);
        assert(a1.to_multiset() == a.to_multiset().remove(a[0]));
        assert(b1.to_multiset() == b.to_multiset().remove(b[0]));
        assert(a1.to_multiset() == b1.to_multiset());
        assert(sorted_le(a1)) by {
            assert(forall|i: int, j: int|
                0 <= i < j < a1.len() ==> a1[i] == a[i + 1] && a1[j] == a[j + 1]);
        }
        assert(sorted_le(b1)) by {
            assert(forall|i: int, j: int|
                0 <= i < j < b1.len() ==> b1[i] == b[i + 1] && b1[j] == b[j + 1]);
        }
        lemma_sorted_unique(a1, b1);
        assert forall|k: int| 0 <= k < a.len() implies a[k] == b[k] by {
            if k > 0 {
                assert(a1[k - 1] == a[k]);
                assert(b1[k - 1] == b[k]);
            }
        }
        assert(a =~= b);
    }
}

/// Copies a vector of path components.
fn clone_string_vec(v: &Vec<String>) -> (r: Vec<String>)
    ensures
        r@ == v@,
{
    let mut r: Vec<String> = Vec::new();
    let mut i: usize = 0;
    while i < v.len()
        invariant
            0 <= i <= v@.len(),
            r@ == v@.take(i as int),
        decreases v@.len() - i,
    {
        r.push(v[i].clone());
        proof {
            assert(r@ =~= v@.take(i + 1));
        }
        i = i + 1;
    }
    proof {
        assert(v@.take(v@.len() as int) =~= v@);
    }
    r
}

/// Copies one entry.
fn clone_entry(e: &SummaryEntry) -> (r: SummaryEntry)
    ensures
        r@ == e@,
{
    let path = clone_string_vec(&e.path);
    let title = e.title.clone();
    SummaryEntry { path, title }
}

/// Inserts `e` into the sorted vector `v`, keeping it sorted.
#[verifier::rlimit(60)]
fn insert_sorted(v: &mut Vec<SummaryEntry>, e: SummaryEntry)
    ensures
        final(v).deep_view() == insert_spec(old(v).deep_view(), e@),
{
    let ghost vdv = old(v).deep_view();
    proof {
        assert(vdv.take(vdv.len() as int) =~= vdv);
        assert(vdv.skip(vdv.len() as int) =~= Seq::<EntryModel>::empty());
        assert(insert_spec(vdv.take(vdv.len() as int), e@) + vdv.skip(vdv.len() as int)
            =~= insert_spec(vdv, e@));
    }
    let mut j: usize = v.len();
    while j > 0 && !entry_le_exec(&v[j - 1], &e)
        invariant
            v == old(v),
            vdv == v.deep_view(),
            vdv.len() == v@.len(),
            0 <= j <= v@.len(),
            insert_spec(vdv, e@) == insert_spec(vdv.take(j as int), e@) + vdv.skip(j as int),
        decreases j,
    {
        proof {
            assert(vdv[j - 1] == v@[j - 1]@);
            assert(vdv.take(j as int).last() == vdv[j - 1]);
            assert(vdv.take(j as int).drop_last() =~= vdv.take(j - 1));
            assert(insert_spec(vdv.take(j as int), e@) == insert_spec(vdv.take(j - 1), e@).push(
                vdv[j - 1],
            ));
            assert(seq![vdv[j - 1]] + vdv.skip(j as int) =~= vdv.skip(j - 1));
            assert(insert_spec(vdv.take(j - 1), e@).push(vdv[j - 1]) + vdv.skip(j as int)
                =~= insert_spec(vdv.take(j - 1), e@) + vdv.skip(j - 1));
        }
        j = j - 1;
    }
    proof {
        if j > 0 {
            assert(vdv[j - 1] == v@[j - 1]@);
            assert(vdv.take(j as int).last() == vdv[j - 1]);
        }
        assert(insert_spec(vdv.take(j as int), e@) == vdv.take(j as int).push(e@));
    }
    let ghost prev_v = v@;
    let ghost e_model = e@;
    v.insert(j, e);
    proof {
        prev_v.insert_ensures(j as int, e);
        assert forall|k: int|
            0 <= k < v@.len() implies v.deep_view()[k] == insert_spec(vdv, e_model)[k] by {
            assert(v.deep_view()[k] == v@[k]@);
            assert(insert_spec(vdv, e_model) == vdv.take(j as int).push(e_model) + vdv.skip(
                j as int,
            ));
            if k < j {
                assert(v@[k] == prev_v[k]);
                assert(vdv[k] == prev_v[k]@);
                assert((vdv.take(j as int).push(e_model) + vdv.skip(j as int))[k] == vdv.take(
                    j as int,
                )[k]);
            } else if k == j {
                assert(v@[k] == e);
                assert((vdv.take(j as int).push(e_model) + vdv.skip(j as int))[k] == e_model);
            } else {
                assert(v@[k] == prev_v[k - 1]);
                assert(vdv[k - 1] == prev_v[k - 1]@);
                assert((vdv.take(j as int).push(e_model) + vdv.skip(j as int))[k] == vdv.skip(
                    j as int,
                )[k - j - 1]);
            }
        }
        assert(v.deep_view() =~= insert_spec(vdv, e_model));
    }
}

/// Sorts the entries into listing order.
pub fn sort_entries(entries: &Vec<SummaryEntry>) -> (r: Vec<SummaryEntry>)
    ensures
        r.deep_view() == sort_spec(entries.deep_view()),
{
    let ghost edv = entries.deep_view();
    let mut out: Vec<SummaryEntry> = Vec::new();
    proof {
        assert(out.deep_view() =~= Seq::<EntryModel>::empty());
        assert(edv.take(0) =~= Seq::<EntryModel>::empty());
    }
    let mut i: usize = 0;
    while i < entries.len()
        invariant
            edv == entries.deep_view(),
            edv.len() == entries@.len(),
            0 <= i <= entries@.len(),
            out.deep_view() == sort_spec(edv.take(i as int)),
        decreases entries@.len() - i,
    {
        proof {
            assert(edv[i as int] == entries@[i as int]@);
        }
        let e = clone_entry(&entries[i]);
        insert_sorted(&mut out, e);
        proof {
            assert(edv.take(i + 1).drop_last() =~= edv.take(i as int));
            assert(edv.take(i + 1).last() == edv[i as int]);
        }
        i = i + 1;
    }
    proof {
        assert(edv.take(edv.len() as int) =~= edv);
    }
    out
}

/// The fixed first line of every rendered summary.
pub open spec fn header_spec() -> Seq<char> {
    "# https://github.com/rust-lang-nursery/mdBook/issues/677"@
}

/// Builds the fixed header line.
pub fn header_line() -> (r: String)
    ensures
        r@ == header_spec(),
{
    String::from_str("# https://github.com/rust-lang-nursery/mdBook/issues/677")
}

/// Four spaces of indentation per nesting level.
pub open spec fn indent_spec(depth: nat) -> Seq<char>
    decreases depth,
{
    if depth == 0 {
        Seq::empty()
    } else {
        indent_spec((depth - 1) as nat) + "    "@
    }
}

/// Builds the indentation for the given nesting depth.
fn indent_string(depth: usize) -> (r: String)
    ensures
        r@ == indent_spec(depth as nat),
{
    let mut r = String::new();
    let mut k: usize = 0;
    while k < depth
        invariant
            0 <= k <= depth,
            r@ == indent_spec(k as nat),
        decreases depth - k,
    {
        r.append("    ");
        k = k + 1;
    }
    r
}

/// The path components joined by forward slashes.
pub open spec fn join_slash(p: Seq<Seq<char>>) -> Seq<char>
    decreases p.len(),
{
    if p.len() == 0 {
        Seq::empty()
    } else if p.len() == 1 {
        p[0]
    } else {
        join_slash(p.drop_last()) + "/"@ + p.last()
    }
}

/// Joins path components with forward slashes.
fn join_components(p: &Vec<String>) -> (r: String)
    ensures
        r@ == join_slash(p.deep_view()),
{
    let ghost pdv = p.deep_view();
    let mut r = String::new();
    proof {
        assert(pdv.take(0) =~= Seq::<Seq<char>>::empty());
    }
    let mut i: usize = 0;
    while i < p.len()
        invariant
            pdv == p.deep_view(),
            pdv.len() == p@.len(),
            0 <= i <= p@.len(),
            r@ == join_slash(pdv.take(i as int)),
        decreases p@.len() - i,
    {
        proof {
            assert(pdv[i as int] == p@[i as int]@);
        }
        if i > 0 {
            r.append("/");
        }
        r.append(p[i].as_str());
        proof {
            assert(pdv.take(i + 1).last() == pdv[i as int]);
            assert(pdv.take(i + 1).drop_last() =~= pdv.take(i as int));
            if i == 0 {
                assert(r@ =~= join_slash(pdv.take(1)));
            } else {
                assert(r@ =~= join_slash(pdv.take(i + 1)));
            }
        }
        i = i + 1;
    }
    proof {
        assert(pdv.take(pdv.len() as int) =~= pdv);
    }
    r
}

/// One rendered line: indentation by nesting depth (the number of path
/// components before the file name), then a list item whose link label is the
/// title and whose target is the path joined with forward slashes.
pub open spec fn line_spec(e: EntryModel) -> Seq<char> {
    let depth = if e.path.len() > 0 {
        (e.path.len() - 1) as nat
    } else {
        0 as nat
    };
    indent_spec(depth) + "- ["@ + e.title + "]("@ + join_slash(e.path) + ")"@
}

/// Renders one entry as its summary line.
pub fn summary_line(e: &SummaryEntry) -> (r: String)
    ensures
        r@ == line_spec(e@),
{
    let depth: usize = if e.path.len() > 0 {
        e.path.len() - 1
    } else {
        0
    };
    let mut r = indent_string(depth);
    r.append("- [");
    r.append(e.title.as_str());
    r.append("](");
    let joined = join_components(&e.path);
    r.append(joined.as_str());
    r.append(")");
    proof {
        assert(r@ =~= line_spec(e@));
    }
    r
}

/// The full rendered output for a collection of entries: the fixed header
/// line, then one line per entry, in listing order.
pub open spec fn render_spec(entries: Seq<EntryModel>) -> Seq<Seq<char>> {
    seq![header_spec()] + sort_spec(entries).map_values(|e: EntryModel| line_spec(e))
}

/// Sorts the entries and renders the summary: the header line first, then
/// one line per entry in listing order.
pub fn render_summary(entries: &Vec<SummaryEntry>) -> (r: Vec<String>)
    ensures
        r.deep_view() == render_spec(entries.deep_view()),
{
    let ghost edv = entries.deep_view();
    let sorted = sort_entries(entries);
    let ghost sdv = sorted.deep_view();
    let mut r: Vec<String> = Vec::new();
    r.push(header_line());
    let mut i: usize = 0;
    while i < sorted.len()
        invariant
            edv == entries.deep_view(),
            sdv == sorted.deep_view(),
            sdv == sort_spec(edv),
            sdv.len() == sorted@.len(),
            0 <= i <= sorted@.len(),
            r@.len() == 1 + i,
            r@[0]@ == header_spec(),
            forall|k: int| 0 <= k < i ==> r@[k + 1]@ == line_spec(sdv[k]),
        decreases sorted@.len() - i,
    {
        proof {
            assert(sdv[i as int] == sorted@[i as int]@);
        }
        let line = summary_line(&sorted[i]);
        r.push(line);
        i = i + 1;
    }
    proof {
        let m = sort_spec(edv).map_values(|e: EntryModel| line_spec(e));
        assert forall|k: int| 0 <= k < r@.len() implies r.deep_view()[k] == render_spec(edv)[k] by {
            assert(r.deep_view()[k] == r@[k]@);
            if k > 0 {
                assert(m[k - 1] == line_spec(sort_spec(edv)[k - 1]));
            }
        }
        assert(r.deep_view() =~= render_spec(edv));
    }
    r
}

/// All output lines of a tree-complete run over the given listings.
pub open spec fn tree_output_spec(
    dirs: Seq<DirModel>,
    base: Seq<Seq<char>>,
    marker: Seq<char>,
    title_from_name: bool,
) -> Seq<Seq<char>> {
    render_spec(collect_tree_spec(dirs, base, marker, title_from_name))
}

/// All output lines of a flat-scan run over the given documents.
pub open spec fn flat_output_spec(
    docs: Seq<DocModel>,
    base: Seq<Seq<char>>,
    marker: Seq<char>,
    title_from_name: bool,
) -> Seq<Seq<char>> {
    render_spec(docs_entries_spec(docs, base, marker, title_from_name))
}

/// The whole pipeline in tree-complete mode: collect entries from the listed
/// directories, sort, render.
pub fn summary_lines_tree(config: &Config, dirs: &Vec<DirListing>) -> (r: Vec<String>)
    requires
        dirs_ok(dirs.deep_view(), config.base_path.deep_view(), config.title_from_name),
    ensures
        r.deep_view() == tree_output_spec(
            dirs.deep_view(),
            config.base_path.deep_view(),
            config.trim_str@,
            config.title_from_name,
        ),
{
    let entries = collect_tree(&config.base_path, &config.trim_str, config.title_from_name, dirs);
    render_summary(&entries)
}

/// The whole pipeline in flat-scan mode: one entry per document whose title
/// resolves, sorted and rendered.
pub fn summary_lines_flat(config: &Config, docs: &Vec<Document>) -> (r: Vec<String>)
    requires
        docs_ok(docs.deep_view(), config.base_path.deep_view(), config.title_from_name),
    ensures
        r.deep_view() == flat_output_spec(
            docs.deep_view(),
            config.base_path.deep_view(),
            config.trim_str@,
            config.title_from_name,
        ),
{
    let entries = collect_flat(&config.base_path, &config.trim_str, config.title_from_name, docs);
    render_summary(&entries)
}

/// The rendered output does not depend on the order in which traversal
/// collected the entries: any two collections holding the same entries render
/// line for line identically. Directory enumeration order is therefore free
/// to vary between runs; the sort imposes the final order.
pub proof fn lemma_render_insensitive_to_collection_order(
    e1: Seq<EntryModel>,
    e2: Seq<EntryModel>,
)
    requires
        e1.to_multiset() == e2.to_multiset(),
    ensures
        render_spec(e1) == render_spec(e2),
{
    lemma_sort_spec_sorted(e1);
    lemma_sort_spec_sorted(e2);
    lemma_sort_spec_multiset(e1);
    lemma_sort_spec_multiset(e2);
    lemma_sorted_unique(sort_spec(e1), sort_spec(e2));
}

/// Rendering is a function of the scanned tree and the configuration alone:
/// two runs over an unchanged tree produce identical lines.
pub proof fn lemma_output_deterministic(
    dirs: Seq<DirModel>,
    base: Seq<Seq<char>>,
    marker: Seq<char>,
    title_from_name: bool,
    r1: Seq<Seq<char>>,
    r2: Seq<Seq<char>>,
)
    requires
        r1 == tree_output_spec(dirs, base, marker, title_from_name),
        r2 == tree_output_spec(dirs, base, marker, title_from_name),
    ensures
        r1 == r2,
{
}

} // verus!
