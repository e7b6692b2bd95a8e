//! Paths as text, with slashes between their parts.

use vstd::prelude::*;
use crate::text;
use crate::text::{chars_of, text_at_most};

verus! {

/// A path with a relative part behind it.
pub open spec fn under(root: Seq<char>, part: Seq<char>) -> Seq<char> {
    if root.len() == 0 || root.last() == '/' {
        root + part
    } else {
        root + "/"@ + part
    }
}

/// Puts a relative part behind a path.
pub fn push_part(path: &mut String, part: &str)
    ensures
        final(path)@ == under(old(path)@, part@),
{
    let chars = chars_of(path.as_str());
    let n = chars.len();
    if n > 0 && chars[n - 1] != '/' {
        path.push_str("/");
    }
    path.push_str(part);
    assert(path@ =~= under(old(path)@, part@));
}

/// A path with its separators replaced by the lowest character, so that the
/// order of texts is that of paths part by part.
pub open spec fn part_wise(s: Seq<char>) -> Seq<char> {
    s.map_values(|c: char| if c == '/' {
        '\0'
    } else {
        c
    })
}

/// Whether path `a` comes before `b` or equals it, by the first part in which
/// they differ.
pub open spec fn path_le(a: Seq<char>, b: Seq<char>) -> bool {
    text::text_le(part_wise(a), part_wise(b))
}

/// Whether each path comes before every later one or equals it.
pub open spec fn sorted_paths(v: Seq<Seq<char>>) -> bool {
    forall|i: int, j: int| 0 <= i < j < v.len() ==> path_le(#[trigger] v[i], #[trigger] v[j])
}

/// Replaces the separators of a path.
fn fold_separators(s: &str) -> (r: String)
    ensures
        r@ == part_wise(s@),
{
    let chars = chars_of(s);
    let mut r = String::new();
    let mut i: usize = 0;
    while i < chars.len()
        invariant
            chars@ == s@,
            i <= chars@.len(),
            r@ == part_wise(s@).take(i as int),
        decreases chars@.len() - i,
    {
        if chars[i] == '/' {
            r.push('\0');
        } else {
            r.push(chars[i]);
        }
        i = i + 1;
        assert(r@ =~= part_wise(s@).take(i as int));
    }
    assert(part_wise(s@).take(chars@.len() as int) =~= part_wise(s@));
    r
}

/// Compares two paths part by part: `a <= b`.
pub fn path_at_most(a: &str, b: &str) -> (r: bool)
    ensures
        r == path_le(a@, b@),
{
    text_at_most(fold_separators(a).as_str(), fold_separators(b).as_str())
}

/// Sorts paths.
pub fn sort_paths(v: Vec<String>) -> (r: Vec<String>)
    ensures
        sorted_paths(text::texts(r@)),
        text::texts(r@).to_multiset() == text::texts(v@).to_multiset(),
{
    let mut r: Vec<String> = Vec::new();
    let mut i: usize = 0;
    assert(text::texts(r@) =~= text::texts(v@).take(0));
    while i < v.len()
        invariant
            i <= v@.len(),
            sorted_paths(text::texts(r@)),
            text::texts(r@).to_multiset() == text::texts(v@).take(i as int).to_multiset(),
        decreases v@.len() - i,
    {
        let mut p: usize = r.len();
        while p > 0 && !path_at_most(r[p - 1].as_str(), v[i].as_str())
            invariant
                p <= r@.len(),
                i < v@.len(),
                sorted_paths(text::texts(r@)),
                forall|k: int|
                    p <= k < r@.len() ==> path_le(v@[i as int]@, #[trigger] text::texts(r@)[k]),
            decreases p,
        {
            proof {
                text::lemma_text_le_total(part_wise(r@[p - 1]@), part_wise(v@[i as int]@));
            }
            p = p - 1;
        }
        let ghost before = text::texts(r@);
        let ghost x = v@[i as int]@;
        proof {
            if p > 0 {
                assert(path_le(before[p - 1], x));
                assert forall|k: int| 0 <= k < p implies path_le(#[trigger] before[k], x) by {
                    if k < p - 1 {
                        text::lemma_text_le_transitive(
                            part_wise(before[k]),
                            part_wise(before[p - 1]),
                            part_wise(x),
                        );
                    }
                }
            }
        }
        r.insert(p, v[i].clone());
        proof {
            let after = text::texts(r@);
            assert(after =~= before.insert(p as int, x));
            after.to_multiset_ensures();
            assert(after[p as int] == x);
            assert(after.contains(x));
            assert(after.remove(p as int) =~= before);
            assert(after.to_multiset() =~= before.to_multiset().insert(x));
            let prefix = text::texts(v@).take(i as int);
            assert(text::texts(v@).take(i + 1) =~= prefix.push(x));
            prefix.to_multiset_ensures();
        }
        i = i + 1;
    }
    assert(text::texts(v@).take(v@.len() as int) =~= text::texts(v@));
    r
}

/// Paths are sorted part by part: a folder comes before what is in it, and what is in
/// it comes before a sibling whose name only starts with the folder's name.
pub proof fn law_contents_follow_their_folder(
    folder: Seq<char>,
    part: Seq<char>,
    c: char,
    rest: Seq<char>,
)
    requires
        c != '/',
        c != '\0',
    ensures
        path_le(folder, folder + seq!['/'] + part),
        path_le(folder + seq!['/'] + part, folder + seq![c] + rest),
        !path_le(folder + seq![c] + rest, folder + seq!['/'] + part),
{
    let a = folder + seq!['/'] + part;
    let b = folder + seq![c] + rest;
    assert(part_wise(a) =~= part_wise(folder) + part_wise(seq!['/'] + part));
    text::law_start_of_a_text_comes_first(part_wise(folder), part_wise(seq!['/'] + part));
    let i = folder.len() as int;
    assert(part_wise(a).take(i) =~= part_wise(b).take(i));
    assert(part_wise(a)[i] == '\0');
    assert(part_wise(b)[i] == c);
    text::law_first_difference_orders_texts(part_wise(a), part_wise(b), i);
    text::law_first_difference_orders_texts(part_wise(b), part_wise(a), i);
}

} // verus!
