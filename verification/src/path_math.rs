//! Path arithmetic: computing a path relative to the configured root, and
//! deriving a title from a file name. Paths are sequences of components; the
//! platform separator never appears inside a component.
use vstd::prelude::*;
use vstd::string::StrSliceExecFns;
use vstd::string::StringExecFns;
use crate::entry::NotABasePathError;
use crate::strings::str_eq;

verus! {

/// `base` is a prefix of `path`, component by component.
pub open spec fn is_prefix_of(base: Seq<Seq<char>>, path: Seq<Seq<char>>) -> bool {
    base.len() <= path.len() && base == path.take(base.len() as int)
}

/// The components of `path` that follow the prefix `base`.
pub open spec fn rel_path_spec(path: Seq<Seq<char>>, base: Seq<Seq<char>>) -> Seq<Seq<char>> {
    path.skip(base.len() as int)
}

/// Copies the components of `path` after the known prefix `base_path`.
pub(crate) fn rel_components(path: &Vec<String>, base_path: &Vec<String>) -> (r: Vec<String>)
    requires
        is_prefix_of(base_path.deep_view(), path.deep_view()),
    ensures
        r.deep_view() == rel_path_spec(path.deep_view(), base_path.deep_view()),
{
    let ghost pdv = path.deep_view();
    let ghost bdv = base_path.deep_view();
    let ghost blen = base_path@.len() as int;
    let mut r: Vec<String> = Vec::new();
    let mut i: usize = base_path.len();
    while i < path.len()
        invariant
            blen == base_path@.len() as int,
            blen <= i <= path@.len(),
            r@.len() == i - blen,
            forall|k: int| 0 <= k < r@.len() ==> r@[k]@ == path@[blen + k]@,
        decreases path@.len() - i,
    {
        let c = path[i].clone();
        r.push(c);
        i = i + 1;
    }
    proof {
        assert forall|k: int| 0 <= k < r@.len() implies r.deep_view()[k] == rel_path_spec(
            pdv,
            bdv,
        )[k] by {
            assert(r.deep_view()[k] == r@[k]@);
            assert(pdv[blen + k] == path@[blen + k]@);
        }
        assert(r.deep_view() =~= rel_path_spec(pdv, bdv));
    }
    r
}

/// Strips `base_path` from the front of `path`. When `base_path` is not a
/// prefix of `path` the call was misconfigured; the error is reported so the
/// caller can abort the run.
pub fn relative_path(path: &Vec<String>, base_path: &Vec<String>) -> (r: Result<
    Vec<String>,
    NotABasePathError,
>)
    ensures
        match r {
            Ok(rel) => is_prefix_of(base_path.deep_view(), path.deep_view()) && rel.deep_view()
                == rel_path_spec(path.deep_view(), base_path.deep_view()),
            Err(_) => !is_prefix_of(base_path.deep_view(), path.deep_view()),
        },
{
    let ghost pdv = path.deep_view();
    let ghost bdv = base_path.deep_view();
    if base_path.len() > path.len() {
        return Err(NotABasePathError);
    }
    let mut i: usize = 0;
    while i < base_path.len()
        invariant
            pdv == path.deep_view(),
            bdv == base_path.deep_view(),
            0 <= i <= base_path@.len() <= path@.len(),
            forall|k: int| 0 <= k < i ==> base_path@[k]@ == path@[k]@,
        decreases base_path@.len() - i,
    {
        if !str_eq(base_path[i].as_str(), path[i].as_str()) {
            proof {
                assert(bdv[i as int] == base_path@[i as int]@);
                assert(pdv[i as int] == path@[i as int]@);
                if is_prefix_of(bdv, pdv) {
                    assert(bdv[i as int] == pdv.take(bdv.len() as int)[i as int]);
                    assert(false);
                }
            }
            return Err(NotABasePathError);
        }
        i = i + 1;
    }
    proof {
        assert forall|k: int| 0 <= k < bdv.len() implies bdv[k] == pdv.take(bdv.len() as int)[k] by {
            assert(bdv[k] == base_path@[k]@);
            assert(pdv[k] == path@[k]@);
        }
        assert(bdv =~= pdv.take(bdv.len() as int));
    }
    Ok(rel_components(path, base_path))
}

/// The index of the last `'.'` in `s`, if any.
pub open spec fn rfind_dot(s: Seq<char>) -> Option<int>
    decreases s.len(),
{
    if s.len() == 0 {
        None
    } else if s.last() == '.' {
        Some(s.len() - 1)
    } else {
        rfind_dot(s.drop_last())
    }
}

/// The file stem of a file name: everything before the last `'.'`, the whole
/// name when there is no `'.'` or when the only `'.'` opens the name.
pub open spec fn stem_spec(name: Seq<char>) -> Seq<char> {
    match rfind_dot(name) {
        Some(i) => if i > 0 {
            name.take(i)
        } else {
            name
        },
        None => name,
    }
}

/// The stem of the file name `name`.
fn stem_of<'a>(name: &'a str) -> (r: &'a str)
    ensures
        r@ == stem_spec(name@),
{
    let n = name.unicode_len();
    let mut j: usize = n;
    assert(name@.take(n as int) =~= name@);
    while j > 0 && name.get_char(j - 1) != '.'
        invariant
            n == name@.len(),
            0 <= j <= n,
            rfind_dot(name@) == rfind_dot(name@.take(j as int)),
        decreases j,
    {
        assert(name@.take(j as int).last() == name@[j - 1]);
        assert(name@.take(j as int).drop_last() =~= name@.take(j - 1));
        j = j - 1;
    }
    if j == 0 {
        assert(name@.take(0) =~= Seq::<char>::empty());
        assert(rfind_dot(name@) is None);
        name
    } else {
        assert(name@.take(j as int).last() == name@[j - 1]);
        assert(rfind_dot(name@) == Some(j - 1));
        if j >= 2 {
            name.substring_char(0, j - 1)
        } else {
            name
        }
    }
}

/// Title derived from a file name: the stem of the last path component, or,
/// for the reserved index file name (stem `README`), the name of the parent
/// directory, so index documents are titled after their directory.
pub open spec fn title_from_filename_spec(p: Seq<Seq<char>>) -> Seq<char> {
    if stem_spec(p.last()) == "README"@ {
        p[p.len() - 2]
    } else {
        stem_spec(p.last())
    }
}

/// A path ending in the reserved index file name is titled after its parent
/// directory, never by the literal index name itself.
pub proof fn lemma_readme_titled_after_directory(p: Seq<Seq<char>>)
    requires
        p.len() >= 2,
        stem_spec(p.last()) == "README"@,
    ensures
        title_from_filename_spec(p) == p[p.len() - 2],
{
}

/// Derives the display title for the document at `path` from its file name.
pub fn title_from_filename(path: &Vec<String>) -> (t: String)
    requires
        path@.len() > 0,
        stem_spec(path.deep_view().last()) == "README"@ ==> path@.len() >= 2,
    ensures
        t@ == title_from_filename_spec(path.deep_view()),
{
    let ghost pdv = path.deep_view();
    let name: &String = &path[path.len() - 1];
    assert(name@ == pdv.last());
    let stem = stem_of(name.as_str());
    if str_eq(stem, "README") {
        let parent = path[path.len() - 2].clone();
        assert(parent@ == pdv[pdv.len() - 2]);
        parent
    } else {
        String::from_str(stem)
    }
}

} // verus!
