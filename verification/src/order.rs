//! The total order on entries: paths compared as sequences of components,
//! components compared lexicographically by character code, titles breaking
//! ties. Lemmas establish that it is a total order; executable comparators
//! mirror the specification.
use vstd::prelude::*;
use vstd::string::StrSliceExecFns;
use crate::entry::EntryModel;
use crate::entry::SummaryEntry;
use crate::strings::str_eq;

verus! {

/// Lexicographic order on character sequences, by character code.
pub open spec fn chars_le(a: Seq<char>, b: Seq<char>) -> bool
    decreases a.len(),
{
    if a.len() == 0 {
        true
    } else if b.len() == 0 {
        false
    } else if (a[0] as int) < (b[0] as int) {
        true
    } else if (a[0] as int) > (b[0] as int) {
        false
    } else {
        chars_le(a.skip(1), b.skip(1))
    }
}

/// Any two character sequences are comparable.
pub proof fn lemma_chars_le_total(a: Seq<char>, b: Seq<char>)
    ensures
        chars_le(a, b) || chars_le(b, a),
    decreases a.len(),
{
    if a.len() > 0 && b.len() > 0 && a[0] == b[0] {
        lemma_chars_le_total(a.skip(1), b.skip(1));
    }
}

/// Mutually ordered character sequences are equal.
pub proof fn lemma_chars_le_antisym(a: Seq<char>, b: Seq<char>)
    requires
        chars_le(a, b),
        chars_le(b, a),
    ensures
        a == b,
    decreases a.len(),
{
    if a.len() == 0 {
        assert(b.len() == 0);
        assert(a =~= b);
    } else {
        assert(b.len() > 0);
        assert(a[0] == b[0]);
        lemma_chars_le_antisym(a.skip(1), b.skip(1));
        assert forall|i: int| 0 <= i < a.len() implies a[i] == b[i] by {
            if i > 0 {
                assert(a.skip(1)[i - 1] == a[i]);
                assert(b.skip(1)[i - 1] == b[i]);
            }
        }
        assert(a =~= b);
    }
}

/// The order on character sequences is transitive.
pub proof fn lemma_chars_le_trans(a: Seq<char>, b: Seq<char>, c: Seq<char>)
    requires
        chars_le(a, b),
        chars_le(b, c),
    ensures
        chars_le(a, c),
    decreases a.len(),
{
    if a.len() == 0 {
    } else {
        assert(b.len() > 0);
        assert(c.len() > 0);
        if (a[0] as int) == (b[0] as int) && (b[0] as int) == (c[0] as int) {
            lemma_chars_le_trans(a.skip(1), b.skip(1), c.skip(1));
        }
    }
}

/// Order on paths: component by component, lexicographically; a path is
/// ordered before any strict extension of itself.
pub open spec fn paths_le(a: Seq<Seq<char>>, b: Seq<Seq<char>>) -> bool
    decreases a.len(),
{
    if a.len() == 0 {
        true
    } else if b.len() == 0 {
        false
    } else if a[0] == b[0] {
        paths_le(a.skip(1), b.skip(1))
    } else {
        chars_le(a[0], b[0])
    }
}

/// Any two paths are comparable.
pub proof fn lemma_paths_le_total(a: Seq<Seq<char>>, b: Seq<Seq<char>>)
    ensures
        paths_le(a, b) || paths_le(b, a),
    decreases a.len(),
{
    if a.len() > 0 && b.len() > 0 {
        if a[0] == b[0] {
            lemma_paths_le_total(a.skip(1), b.skip(1));
        } else {
            lemma_chars_le_total(a[0], b[0]);
            if chars_le(a[0], b[0]) && chars_le(b[0], a[0]) {
                lemma_chars_le_antisym(a[0], b[0]);
            }
        }
    }
}

/// Mutually ordered paths are equal.
pub proof fn lemma_paths_le_antisym(a: Seq<Seq<char>>, b: Seq<Seq<char>>)
    requires
        paths_le(a, b),
        paths_le(b, a),
    ensures
        a == b,
    decreases a.len(),
{
    if a.len() == 0 {
        assert(b.len() == 0);
        assert(a =~= b);
    } else {
        assert(b.len() > 0);
        if a[0] != b[0] {
            lemma_chars_le_antisym(a[0], b[0]);
        }
        lemma_paths_le_antisym(a.skip(1), b.skip(1));
        assert forall|i: int| 0 <= i < a.len() implies a[i] == b[i] by {
            if i > 0 {
                assert(a.skip(1)[i - 1] == a[i]);
                assert(b.skip(1)[i - 1] == b[i]);
            }
        }
        assert(a =~= b);
    }
}

/// The order on paths is transitive.
pub proof fn lemma_paths_le_trans(a: Seq<Seq<char>>, b: Seq<Seq<char>>, c: Seq<Seq<char>>)
    requires
        paths_le(a, b),
        paths_le(b, c),
    ensures
        paths_le(a, c),
    decreases a.len(),
{
    if a.len() == 0 {
    } else {
        assert(b.len() > 0);
        assert(c.len() > 0);
        if a[0] == b[0] && b[0] == c[0] {
            lemma_paths_le_trans(a.skip(1), b.skip(1), c.skip(1));
        } else if a[0] == b[0] {
            assert(chars_le(b[0], c[0]));
        } else if b[0] == c[0] {
            assert(chars_le(a[0], b[0]));
        } else {
            lemma_chars_le_trans(a[0], b[0], c[0]);
            if a[0] == c[0] {
                lemma_chars_le_antisym(a[0], b[0]);
            }
        }
    }
}

/// The total order that governs the rendered listing: by path, titles
/// breaking the tie between entries that share one.
pub open spec fn entry_le(a: EntryModel, b: EntryModel) -> bool {
    if a.path == b.path {
        chars_le(a.title, b.title)
    } else {
        paths_le(a.path, b.path)
    }
}

/// Any two entries are comparable.
pub proof fn lemma_entry_le_total(a: EntryModel, b: EntryModel)
    ensures
        entry_le(a, b) || entry_le(b, a),
{
    if a.path == b.path {
        lemma_chars_le_total(a.title, b.title);
    } else {
        lemma_paths_le_total(a.path, b.path);
    }
}

/// Mutually ordered entries are equal.
pub proof fn lemma_entry_le_antisym(a: EntryModel, b: EntryModel)
    requires
        entry_le(a, b),
        entry_le(b, a),
    ensures
        a == b,
{
    if a.path == b.path {
        lemma_chars_le_antisym(a.title, b.title);
    } else {
        lemma_paths_le_antisym(a.path, b.path);
    }
}

/// The order on entries is transitive.
pub proof fn lemma_entry_le_trans(a: EntryModel, b: EntryModel, c: EntryModel)
    requires
        entry_le(a, b),
        entry_le(b, c),
    ensures
        entry_le(a, c),
{
    if a.path == b.path && b.path == c.path {
        lemma_chars_le_trans(a.title, b.title, c.title);
    } else if a.path == b.path || b.path == c.path {
    } else {
        lemma_paths_le_trans(a.path, b.path, c.path);
        if a.path == c.path {
            lemma_paths_le_antisym(a.path, b.path);
        }
    }
}

/// Compares two strings lexicographically by character code.
fn chars_le_exec(a: &str, b: &str) -> (r: bool)
    ensures
        r == chars_le(a@, b@),
{
    let na = a.unicode_len();
    let nb = b.unicode_len();
    proof {
        assert(a@.skip(0) =~= a@);
        assert(b@.skip(0) =~= b@);
    }
    let mut i: usize = 0;
    while i < na && i < nb
        invariant
            na == a@.len(),
            nb == b@.len(),
            0 <= i <= na,
            0 <= i <= nb,
            chars_le(a@, b@) == chars_le(a@.skip(i as int), b@.skip(i as int)),
            chars_le(b@, a@) == chars_le(b@.skip(i as int), a@.skip(i as int)),
        decreases na - i,
    {
        let ca = a.get_char(i);
        let cb = b.get_char(i);
        proof {
            assert(a@.skip(i as int)[0] == a@[i as int]);
            assert(b@.skip(i as int)[0] == b@[i as int]);
        }
        if (ca as u32) < (cb as u32) {
            return true;
        }
        if (ca as u32) > (cb as u32) {
            return false;
        }
        proof {
            assert(ca == cb);
            assert(a@.skip(i as int).skip(1) =~= a@.skip(i + 1));
            assert(b@.skip(i as int).skip(1) =~= b@.skip(i + 1));
        }
        i = i + 1;
    }
    if i == na {
        proof {
            assert(a@.skip(na as int).len() == 0);
        }
        true
    } else {
        proof {
            assert(b@.skip(nb as int).len() == 0);
            assert(a@.skip(i as int).len() > 0);
        }
        false
    }
}

/// Whether two paths hold the same components.
fn paths_eq_exec(a: &Vec<String>, b: &Vec<String>) -> (r: bool)
    ensures
        r == (a.deep_view() == b.deep_view()),
{
    let ghost adv = a.deep_view();
    let ghost bdv = b.deep_view();
    if a.len() != b.len() {
        proof {
            assert(adv.len() != bdv.len());
        }
        return false;
    }
    let mut i: usize = 0;
    while i < a.len()
        invariant
            adv == a.deep_view(),
            bdv == b.deep_view(),
            adv.len() == a@.len(),
            bdv.len() == b@.len(),
            a@.len() == b@.len(),
            0 <= i <= a@.len(),
            forall|k: int| 0 <= k < i ==> adv[k] == bdv[k],
        decreases a@.len() - i,
    {
        proof {
            assert(adv[i as int] == a@[i as int]@);
            assert(bdv[i as int] == b@[i as int]@);
        }
        if !str_eq(a[i].as_str(), b[i].as_str()) {
            return false;
        }
        i = i + 1;
    }
    proof {
        assert(adv =~= bdv);
    }
    true
}

/// Compares two paths in the listing order.
fn paths_le_exec(a: &Vec<String>, b: &Vec<String>) -> (r: bool)
    ensures
        r == paths_le(a.deep_view(), b.deep_view()),
{
    let ghost adv = a.deep_view();
    let ghost bdv = b.deep_view();
    proof {
        assert(adv.skip(0) =~= adv);
        assert(bdv.skip(0) =~= bdv);
    }
    let mut i: usize = 0;
    while i < a.len() && i < b.len()
        invariant
            adv == a.deep_view(),
            bdv == b.deep_view(),
            adv.len() == a@.len(),
            bdv.len() == b@.len(),
            0 <= i <= a@.len(),
            0 <= i <= b@.len(),
            paths_le(adv, bdv) == paths_le(adv.skip(i as int), bdv.skip(i as int)),
        decreases a@.len() - i,
    {
        proof {
            assert(adv[i as int] == a@[i as int]@);
            assert(bdv[i as int] == b@[i as int]@);
            assert(adv.skip(i as int)[0] == adv[i as int]);
            assert(bdv.skip(i as int)[0] == bdv[i as int]);
        }
        if !str_eq(a[i].as_str(), b[i].as_str()) {
            return chars_le_exec(a[i].as_str(), b[i].as_str());
        }
        proof {
            assert(adv.skip(i as int).skip(1) =~= adv.skip(i + 1));
            assert(bdv.skip(i as int).skip(1) =~= bdv.skip(i + 1));
        }
        i = i + 1;
    }
    if i == a.len() {
        proof {
            assert(adv.skip(a@.len() as int).len() == 0);
        }
        true
    } else {
        proof {
            assert(bdv.skip(b@.len() as int).len() == 0);
            assert(adv.skip(i as int).len() > 0);
        }
        false
    }
}

/// Compares two entries in the listing order.
pub fn entry_le_exec(x: &SummaryEntry, y: &SummaryEntry) -> (r: bool)
    ensures
        r == entry_le(x@, y@),
{
    if paths_eq_exec(&x.path, &y.path) {
        chars_le_exec(x.title.as_str(), y.title.as_str())
    } else {
        paths_le_exec(&x.path, &y.path)
    }
}

} // verus!
