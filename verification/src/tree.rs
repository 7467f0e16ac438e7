//! Tree completion and entry collection: the entries contributed by the
//! documents of a directory, the synthesized index entry for a directory that
//! lacks one, and the two traversal modes (tree-complete and flat scan).
use vstd::prelude::*;
use vstd::string::StringExecFns;
use crate::entry::DirListing;
use crate::entry::DirModel;
use crate::entry::DocModel;
use crate::entry::Document;
use crate::entry::EntryModel;
use crate::entry::SummaryEntry;
use crate::path_math::is_prefix_of;
use crate::path_math::rel_components;
use crate::path_math::rel_path_spec;
use crate::title::find_content;
use crate::title::find_content_req;
use crate::title::find_content_spec;

verus! {

/// Every document's path extends the root, and in name-titling mode carries
/// a usable file name; inputs a run aborts on are excluded.
pub open spec fn docs_ok(docs: Seq<DocModel>, base: Seq<Seq<char>>, title_from_name: bool) -> bool {
    forall|k: int| 0 <= k < docs.len() ==> find_content_req(#[trigger] docs[k].path, base, title_from_name)
}

/// The contribution of one document, as a sequence of zero or one entries.
pub open spec fn doc_entry_seq(
    doc: DocModel,
    base: Seq<Seq<char>>,
    marker: Seq<char>,
    title_from_name: bool,
) -> Seq<EntryModel> {
    match find_content_spec(doc.path, base, marker, title_from_name, doc.lines) {
        Some(e) => seq![e],
        None => Seq::<EntryModel>::empty(),
    }
}

/// The entries the given documents contribute, in document order: one per
/// document whose title resolves, none for the others.
pub open spec fn docs_entries_spec(
    docs: Seq<DocModel>,
    base: Seq<Seq<char>>,
    marker: Seq<char>,
    title_from_name: bool,
) -> Seq<EntryModel>
    decreases docs.len(),
{
    if docs.len() == 0 {
        Seq::empty()
    } else {
        docs_entries_spec(docs.drop_last(), base, marker, title_from_name) + doc_entry_seq(
            docs.last(),
            base,
            marker,
            title_from_name,
        )
    }
}

/// Appends the entries of the given documents, in document order.
fn append_doc_entries(
    docs: &Vec<Document>,
    base_path: &Vec<String>,
    trim_str: &String,
    title_from_name: bool,
    sum_entries: &mut Vec<SummaryEntry>,
)
    requires
        docs_ok(docs.deep_view(), base_path.deep_view(), title_from_name),
    ensures
        final(sum_entries).deep_view() == old(sum_entries).deep_view() + docs_entries_spec(
            docs.deep_view(),
            base_path.deep_view(),
            trim_str@,
            title_from_name,
        ),
{
    let ghost ddv = docs.deep_view();
    let ghost base_dv = base_path.deep_view();
    let ghost start = old(sum_entries).deep_view();
    proof {
        assert(ddv.take(0) =~= Seq::<DocModel>::empty());
        assert(start + docs_entries_spec(ddv.take(0), base_dv, trim_str@, title_from_name)
            =~= start);
    }
    let mut i: usize = 0;
    while i < docs.len()
        invariant
            ddv == docs.deep_view(),
            base_dv == base_path.deep_view(),
            ddv.len() == docs@.len(),
            docs_ok(ddv, base_dv, title_from_name),
            0 <= i <= docs@.len(),
            sum_entries.deep_view() == start + docs_entries_spec(
                ddv.take(i as int),
                base_dv,
                trim_str@,
                title_from_name,
            ),
        decreases docs@.len() - i,
    {
        let d = &docs[i];
        proof {
            assert(ddv[i as int] == docs@[i as int]@);
            assert(find_content_req(ddv[i as int].path, base_dv, title_from_name));
            assert(d.path.deep_view() == ddv[i as int].path);
        }
        let lines_ref: Option<&Vec<String>> = match &d.lines {
            Some(v) => Some(v),
            None => None,
        };
        proof {
            assert(lines_ref.deep_view() == ddv[i as int].lines);
        }
        let e = find_content(&d.path, base_path, trim_str, title_from_name, lines_ref);
        let ghost prev_v = sum_entries@;
        let ghost prev_dv = sum_entries.deep_view();
        match e {
            Some(en) => {
                sum_entries.push(en);
                proof {
                    assert forall|k: int|
                        0 <= k < sum_entries@.len() implies sum_entries.deep_view()[k] == (
                    prev_dv.push(en@))[k] by {
                        assert(sum_entries.deep_view()[k] == sum_entries@[k]@);
                        if k < prev_v.len() {
                            assert(sum_entries@[k] == prev_v[k]);
                            assert(prev_dv[k] == prev_v[k]@);
                        }
                    }
                    assert(sum_entries.deep_view() =~= prev_dv.push(en@));
                }
            },
            None => {},
        }
        proof {
            assert(ddv.take(i + 1).drop_last() =~= ddv.take(i as int));
            assert(ddv.take(i + 1).last() == ddv[i as int]);
            assert(sum_entries.deep_view() =~= start + docs_entries_spec(
                ddv.take(i + 1),
                base_dv,
                trim_str@,
                title_from_name,
            ));
        }
        i = i + 1;
    }
    proof {
        assert(ddv.take(ddv.len() as int) =~= ddv);
    }
}

/// The entry synthesized for a directory without an index document: its path
/// is the root-relative directory path extended by the reserved index file
/// name; its title is the directory's own name (empty for the root itself).
pub open spec fn synth_entry_spec(dir: Seq<Seq<char>>, base: Seq<Seq<char>>) -> EntryModel {
    let rel = rel_path_spec(dir, base);
    EntryModel {
        path: rel.push("README.md"@),
        title: if rel.len() == 0 {
            Seq::empty()
        } else {
            rel.last()
        },
    }
}

/// Everything one directory contributes: the entries of its documents, then,
/// when the directory has no index document, exactly one synthesized entry.
pub open spec fn handle_dir_spec(
    dir: Seq<Seq<char>>,
    base: Seq<Seq<char>>,
    marker: Seq<char>,
    title_from_name: bool,
    docs: Seq<DocModel>,
    has_readme: bool,
) -> Seq<EntryModel> {
    docs_entries_spec(docs, base, marker, title_from_name) + (if has_readme {
        Seq::<EntryModel>::empty()
    } else {
        seq![synth_entry_spec(dir, base)]
    })
}

/// A directory that already holds an index document gets no synthesized
/// entry; one without gets exactly one, whose path ends in the reserved
/// index file name.
pub proof fn lemma_handle_dir_synthesis(
    dir: Seq<Seq<char>>,
    base: Seq<Seq<char>>,
    marker: Seq<char>,
    title_from_name: bool,
    docs: Seq<DocModel>,
)
    ensures
        handle_dir_spec(dir, base, marker, title_from_name, docs, true) == docs_entries_spec(
            docs,
            base,
            marker,
            title_from_name,
        ),
        handle_dir_spec(dir, base, marker, title_from_name, docs, false) == docs_entries_spec(
            docs,
            base,
            marker,
            title_from_name,
        ).push(synth_entry_spec(dir, base)),
        synth_entry_spec(dir, base).path.last() == "README.md"@,
{
    assert(handle_dir_spec(dir, base, marker, title_from_name, docs, true) =~= docs_entries_spec(
        docs,
        base,
        marker,
        title_from_name,
    ));
    assert(handle_dir_spec(dir, base, marker, title_from_name, docs, false) =~= docs_entries_spec(
        docs,
        base,
        marker,
        title_from_name,
    ).push(synth_entry_spec(dir, base)));
}

/// Collects the entries of one directory into `sum_entries`: one entry per
/// document whose title resolves, and, when `has_readme` is false, one
/// synthesized index entry for the directory itself.
pub fn handle_dir(
    path: &Vec<String>,
    base_path: &Vec<String>,
    trim_str: &String,
    title_from_name: bool,
    docs: &Vec<Document>,
    has_readme: bool,
    sum_entries: &mut Vec<SummaryEntry>,
)
    requires
        is_prefix_of(base_path.deep_view(), path.deep_view()),
        docs_ok(docs.deep_view(), base_path.deep_view(), title_from_name),
    ensures
        final(sum_entries).deep_view() == old(sum_entries).deep_view() + handle_dir_spec(
            path.deep_view(),
            base_path.deep_view(),
            trim_str@,
            title_from_name,
            docs.deep_view(),
            has_readme,
        ),
{
    let ghost start = old(sum_entries).deep_view();
    let ghost pdv = path.deep_view();
    let ghost base_dv = base_path.deep_view();
    append_doc_entries(docs, base_path, trim_str, title_from_name, sum_entries);
    if !has_readme {
        let rel = rel_components(path, base_path);
        let title: String = if rel.len() == 0 {
            String::new()
        } else {
            rel[rel.len() - 1].clone()
        };
        proof {
            let rel_dv = rel_path_spec(pdv, base_dv);
            if rel@.len() > 0 {
                assert(rel.deep_view()[rel@.len() - 1] == rel@[rel@.len() - 1]@);
            }
            assert(title@ == synth_entry_spec(pdv, base_dv).title);
        }
        let mut entry_path = rel;
        let ghost rel_v = entry_path@;
        entry_path.push(String::from_str("README.md"));
        proof {
            assert forall|k: int|
                0 <= k < entry_path@.len() implies entry_path.deep_view()[k] == synth_entry_spec(
                pdv,
                base_dv,
            ).path[k] by {
                assert(entry_path.deep_view()[k] == entry_path@[k]@);
                if k < rel_v.len() {
                    assert(entry_path@[k] == rel_v[k]);
                    assert(rel_path_spec(pdv, base_dv)[k] == rel_v[k]@);
                }
            }
            assert(entry_path.deep_view() =~= synth_entry_spec(pdv, base_dv).path);
        }
        let en = SummaryEntry { path: entry_path, title };
        let ghost prev_v = sum_entries@;
        let ghost prev_dv = sum_entries.deep_view();
        sum_entries.push(en);
        proof {
            assert forall|k: int|
                0 <= k < sum_entries@.len() implies sum_entries.deep_view()[k] == (prev_dv.push(
                en@,
            ))[k] by {
                assert(sum_entries.deep_view()[k] == sum_entries@[k]@);
                if k < prev_v.len() {
                    assert(sum_entries@[k] == prev_v[k]);
                    assert(prev_dv[k] == prev_v[k]@);
                }
            }
            assert(sum_entries.deep_view() =~= prev_dv.push(en@));
            assert(en@ == synth_entry_spec(pdv, base_dv));
            assert(sum_entries.deep_view() =~= start + handle_dir_spec(
                pdv,
                base_dv,
                trim_str@,
                title_from_name,
                docs.deep_view(),
                has_readme,
            ));
        }
    } else {
        proof {
            assert(sum_entries.deep_view() =~= start + handle_dir_spec(
                pdv,
                base_dv,
                trim_str@,
                title_from_name,
                docs.deep_view(),
                has_readme,
            ));
        }
    }
}

/// Flat-scan collection: every document found anywhere under the root yields
/// its entry, in enumeration order; no index entries are synthesized.
pub fn collect_flat(
    base_path: &Vec<String>,
    trim_str: &String,
    title_from_name: bool,
    docs: &Vec<Document>,
) -> (r: Vec<SummaryEntry>)
    requires
        docs_ok(docs.deep_view(), base_path.deep_view(), title_from_name),
    ensures
        r.deep_view() == docs_entries_spec(
            docs.deep_view(),
            base_path.deep_view(),
            trim_str@,
            title_from_name,
        ),
{
    let mut r: Vec<SummaryEntry> = Vec::new();
    proof {
        assert(r.deep_view() =~= Seq::<EntryModel>::empty());
    }
    append_doc_entries(docs, base_path, trim_str, title_from_name, &mut r);
    proof {
        assert(r.deep_view() =~= docs_entries_spec(
            docs.deep_view(),
            base_path.deep_view(),
            trim_str@,
            title_from_name,
        ));
    }
    r
}

/// Every directory listing extends the root and its documents are usable.
pub open spec fn dirs_ok(dirs: Seq<DirModel>, base: Seq<Seq<char>>, title_from_name: bool) -> bool {
    forall|k: int|
        0 <= k < dirs.len() ==> is_prefix_of(base, #[trigger] dirs[k].path) && docs_ok(
            dirs[k].docs,
            base,
            title_from_name,
        )
}

/// The entries of all listed directories, in listing order.
pub open spec fn tree_entries_spec(
    dirs: Seq<DirModel>,
    base: Seq<Seq<char>>,
    marker: Seq<char>,
    title_from_name: bool,
) -> Seq<EntryModel>
    decreases dirs.len(),
{
    if dirs.len() == 0 {
        Seq::empty()
    } else {
        tree_entries_spec(dirs.drop_last(), base, marker, title_from_name) + handle_dir_spec(
            dirs.last().path,
            base,
            marker,
            title_from_name,
            dirs.last().docs,
            dirs.last().has_readme,
        )
    }
}

/// The seeded entry for the root itself: the reserved index file name at the
/// top of the tree, under the fixed literal root title.
pub open spec fn root_entry_spec() -> EntryModel {
    EntryModel { path: seq!["README.md"@], title: "README"@ }
}

/// Tree-complete collection: one seeded root entry, then, directory by
/// directory, the entries of each directory's documents and a synthesized
/// index entry wherever a directory lacks its own.
pub open spec fn collect_tree_spec(
    dirs: Seq<DirModel>,
    base: Seq<Seq<char>>,
    marker: Seq<char>,
    title_from_name: bool,
) -> Seq<EntryModel> {
    seq![root_entry_spec()] + tree_entries_spec(dirs, base, marker, title_from_name)
}

/// Collects entries in tree-complete mode from the listed directories.
pub fn collect_tree(
    base_path: &Vec<String>,
    trim_str: &String,
    title_from_name: bool,
    dirs: &Vec<DirListing>,
) -> (r: Vec<SummaryEntry>)
    requires
        dirs_ok(dirs.deep_view(), base_path.deep_view(), title_from_name),
    ensures
        r.deep_view() == collect_tree_spec(
            dirs.deep_view(),
            base_path.deep_view(),
            trim_str@,
            title_from_name,
        ),
{
    let ghost dirs_dv = dirs.deep_view();
    let ghost base_dv = base_path.deep_view();
    let mut r: Vec<SummaryEntry> = Vec::new();
    let root = SummaryEntry {
        path: vec![String::from_str("README.md")],
        title: String::from_str("README"),
    };
    proof {
        assert(root.path.deep_view()[0] == root.path@[0]@);
        assert(root@.path =~= root_entry_spec().path);
        assert(root@ == root_entry_spec());
    }
    r.push(root);
    proof {
        assert(r.deep_view()[0] == r@[0]@);
        assert(r.deep_view() =~= seq![root_entry_spec()]);
        assert(dirs_dv.take(0) =~= Seq::<DirModel>::empty());
        assert(seq![root_entry_spec()] + tree_entries_spec(
            dirs_dv.take(0),
            base_dv,
            trim_str@,
            title_from_name,
        ) =~= seq![root_entry_spec()]);
    }
    let mut i: usize = 0;
    while i < dirs.len()
        invariant
            dirs_dv == dirs.deep_view(),
            base_dv == base_path.deep_view(),
            dirs_dv.len() == dirs@.len(),
            dirs_ok(dirs_dv, base_dv, title_from_name),
            0 <= i <= dirs@.len(),
            r.deep_view() == seq![root_entry_spec()] + tree_entries_spec(
                dirs_dv.take(i as int),
                base_dv,
                trim_str@,
                title_from_name,
            ),
        decreases dirs@.len() - i,
    {
        let d = &dirs[i];
        proof {
            assert(dirs_dv[i as int] == dirs@[i as int]@);
            assert(is_prefix_of(base_dv, dirs_dv[i as int].path));
            assert(docs_ok(dirs_dv[i as int].docs, base_dv, title_from_name));
            assert(d.path.deep_view() == dirs_dv[i as int].path);
            assert(d.docs.deep_view() == dirs_dv[i as int].docs);
        }
        handle_dir(
            &d.path,
            base_path,
            trim_str,
            title_from_name,
            &d.docs,
            d.has_readme,
            &mut r,
        );
        proof {
            assert(dirs_dv.take(i + 1).drop_last() =~= dirs_dv.take(i as int));
            assert(dirs_dv.take(i + 1).last() == dirs_dv[i as int]);
            assert(r.deep_view() =~= seq![root_entry_spec()] + tree_entries_spec(
                dirs_dv.take(i + 1),
                base_dv,
                trim_str@,
                title_from_name,
            ));
        }
        i = i + 1;
    }
    proof {
        assert(dirs_dv.take(dirs_dv.len() as int) =~= dirs_dv);
    }
    r
}

} // verus!
