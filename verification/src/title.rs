//! Per-document title resolution: either from the document's content (the
//! first line opened by the configured marker) or from its file name, and the
//! pairing of a resolved title with the root-relative path.
use vstd::prelude::*;
use vstd::string::StrSliceExecFns;
use vstd::string::StringExecFns;
use crate::entry::EntryModel;
use crate::entry::SummaryEntry;
use crate::path_math::is_prefix_of;
use crate::path_math::rel_components;
use crate::path_math::rel_path_spec;
use crate::path_math::stem_spec;
use crate::path_math::title_from_filename;
use crate::path_math::title_from_filename_spec;
use crate::strings::starts_with_spec;
use crate::strings::str_starts_with;
use crate::strings::trim_chars;
use crate::strings::trim_spec;

verus! {

/// The title a single line yields: the line is trimmed of surrounding
/// whitespace; when the marker opens the trimmed line and something follows
/// it, the rest of the trimmed line (not re-trimmed) is the title. A line
/// holding nothing beyond the marker yields no title: titles are never
/// empty, so such a line cannot carry one.
pub open spec fn line_title_spec(line: Seq<char>, marker: Seq<char>) -> Option<Seq<char>> {
    let t = trim_spec(line);
    if starts_with_spec(t, marker) && t.len() > marker.len() {
        Some(t.skip(marker.len() as int))
    } else {
        None
    }
}

/// The title of a document: the one yielded by the first line the marker
/// opens; absence when no line matches.
pub open spec fn extract_title_spec(lines: Seq<Seq<char>>, marker: Seq<char>) -> Option<
    Seq<char>,
>
    decreases lines.len(),
{
    if lines.len() == 0 {
        None
    } else if line_title_spec(lines[0], marker) is Some {
        line_title_spec(lines[0], marker)
    } else {
        extract_title_spec(lines.skip(1), marker)
    }
}

/// Resolves a document's title from its content lines: the non-empty
/// remainder of the first line whose trimmed form the marker opens. Later
/// matching lines are ignored; a document with no matching line yields
/// absence, never an empty title.
pub fn extract_title(lines: &Vec<String>, marker: &String) -> (r: Option<String>)
    ensures
        r.deep_view() == extract_title_spec(lines.deep_view(), marker@),
{
    let ghost ldv = lines.deep_view();
    proof {
        assert(ldv.skip(0) =~= ldv);
    }
    let mut i: usize = 0;
    while i < lines.len()
        invariant
            ldv == lines.deep_view(),
            ldv.len() == lines@.len(),
            0 <= i <= lines@.len(),
            extract_title_spec(ldv, marker@) == extract_title_spec(ldv.skip(i as int), marker@),
        decreases lines@.len() - i,
    {
        proof {
            assert(ldv[i as int] == lines@[i as int]@);
            assert(ldv.skip(i as int)[0] == ldv[i as int]);
        }
        let trimmed = trim_chars(lines[i].as_str());
        let trimmed_len = trimmed.unicode_len();
        let marker_len = marker.as_str().unicode_len();
        if str_starts_with(trimmed, marker.as_str()) && trimmed_len > marker_len {
            let rest = trimmed.substring_char(marker_len, trimmed_len);
            proof {
                assert(rest@ =~= trim_spec(ldv[i as int]).skip(marker@.len() as int));
            }
            return Some(String::from_str(rest));
        }
        proof {
            assert(ldv.skip(i as int).skip(1) =~= ldv.skip(i + 1));
        }
        i = i + 1;
    }
    proof {
        assert(ldv.skip(i as int) =~= Seq::<Seq<char>>::empty());
    }
    None
}

/// Conditions under which an entry can be derived for `path` below `base`:
/// the configured root must be a prefix of the document's path, and in
/// name-titling mode the path must carry a file name (with a parent when the
/// name is the reserved index name).
pub open spec fn find_content_req(
    path: Seq<Seq<char>>,
    base: Seq<Seq<char>>,
    title_from_name: bool,
) -> bool {
    &&& is_prefix_of(base, path)
    &&& title_from_name ==> path.len() > 0 && (stem_spec(path.last()) == "README"@ ==> path.len()
        >= 2)
}

/// The entry derived for one document, if any: in name-titling mode the
/// title comes from the file name, and an entry exists for every named file
/// (only a file whose derived title is empty — a nameless file — yields
/// none); otherwise the title comes from the first marker line of the
/// content, and a document with no such line, or an unreadable one, yields
/// no entry. An entry is never constructed with an empty title.
pub open spec fn find_content_spec(
    path: Seq<Seq<char>>,
    base: Seq<Seq<char>>,
    marker: Seq<char>,
    title_from_name: bool,
    lines: Option<Seq<Seq<char>>>,
) -> Option<EntryModel> {
    if title_from_name {
        if title_from_filename_spec(path).len() == 0 {
            None
        } else {
            Some(
                EntryModel {
                    path: rel_path_spec(path, base),
                    title: title_from_filename_spec(path),
                },
            )
        }
    } else {
        match lines {
            Some(ls) => match extract_title_spec(ls, marker) {
                Some(t) => Some(EntryModel { path: rel_path_spec(path, base), title: t }),
                None => None,
            },
            None => None,
        }
    }
}

/// Derives the navigation entry for the document at `path`, pairing its
/// resolved title with the path relative to `base_path`. `lines` holds the
/// document's content, `None` when the file could not be read.
pub fn find_content(
    path: &Vec<String>,
    base_path: &Vec<String>,
    trim_str: &String,
    title_from_name: bool,
    lines: Option<&Vec<String>>,
) -> (r: Option<SummaryEntry>)
    requires
        find_content_req(path.deep_view(), base_path.deep_view(), title_from_name),
    ensures
        r.deep_view() == find_content_spec(
            path.deep_view(),
            base_path.deep_view(),
            trim_str@,
            title_from_name,
            lines.deep_view(),
        ),
{
    if title_from_name {
        let title = title_from_filename(path);
        if title.as_str().unicode_len() == 0 {
            return None;
        }
        let rel = rel_components(path, base_path);
        Some(SummaryEntry { path: rel, title })
    } else {
        match lines {
            Some(ls) => match extract_title(ls, trim_str) {
                Some(t) => {
                    let rel = rel_components(path, base_path);
                    Some(SummaryEntry { path: rel, title: t })
                },
                None => None,
            },
            None => None,
        }
    }
}

/// When no line of a document is opened by the marker (after trimming),
/// title extraction returns absence.
pub proof fn lemma_extract_title_none(lines: Seq<Seq<char>>, marker: Seq<char>)
    requires
        forall|k: int| 0 <= k < lines.len() ==> !starts_with_spec(trim_spec(lines[k]), marker),
    ensures
        extract_title_spec(lines, marker) is None,
    decreases lines.len(),
{
    if lines.len() > 0 {
        assert(forall|k: int|
            0 <= k < lines.skip(1).len() ==> lines.skip(1)[k] == lines[k + 1]);
        lemma_extract_title_none(lines.skip(1), marker);
    }
}

/// When line `i` is the first line the marker opens, and its trimmed form is
/// the marker followed by a non-empty `suffix`, title extraction returns
/// exactly `suffix`: the first matching line decides, later ones are
/// ignored.
pub proof fn lemma_extract_title_first(
    lines: Seq<Seq<char>>,
    marker: Seq<char>,
    i: int,
    suffix: Seq<char>,
)
    requires
        0 <= i < lines.len(),
        suffix.len() > 0,
        trim_spec(lines[i]) == marker + suffix,
        forall|k: int| 0 <= k < i ==> !starts_with_spec(trim_spec(lines[k]), marker),
    ensures
        extract_title_spec(lines, marker) == Some(suffix),
    decreases i,
{
    assert(starts_with_spec(trim_spec(lines[i]), marker)) by {
        assert((marker + suffix).take(marker.len() as int) =~= marker);
    }
    assert(line_title_spec(lines[i], marker) == Some(suffix)) by {
        assert((marker + suffix).skip(marker.len() as int) =~= suffix);
    }
    if i == 0 {
    } else {
        assert(forall|k: int|
            0 <= k < lines.skip(1).len() ==> lines.skip(1)[k] == lines[k + 1]);
        lemma_extract_title_first(lines.skip(1), marker, i - 1, suffix);
    }
}

/// A title resolved from content is never empty.
pub proof fn lemma_extract_title_nonempty(lines: Seq<Seq<char>>, marker: Seq<char>)
    ensures
        extract_title_spec(lines, marker) matches Some(t) ==> t.len() > 0,
    decreases lines.len(),
{
    if lines.len() > 0 {
        if line_title_spec(lines[0], marker) is Some {
        } else {
            lemma_extract_title_nonempty(lines.skip(1), marker);
        }
    }
}

/// An entry is never constructed with an empty title: a document whose title
/// does not resolve to something non-empty yields no entry at all.
pub proof fn lemma_entry_titles_nonempty(
    path: Seq<Seq<char>>,
    base: Seq<Seq<char>>,
    marker: Seq<char>,
    title_from_name: bool,
    lines: Option<Seq<Seq<char>>>,
)
    ensures
        find_content_spec(path, base, marker, title_from_name, lines) matches Some(e)
            ==> e.title.len() > 0,
{
    if !title_from_name {
        match lines {
            Some(ls) => {
                lemma_extract_title_nonempty(ls, marker);
            },
            None => {},
        }
    }
}

} // verus!
