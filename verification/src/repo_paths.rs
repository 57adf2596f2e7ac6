//! Path and name rules used when walking a repository's branches and trees.

use vstd::prelude::*;
use vstd::string::*;
use crate::text::{chars_of, ends_with, has_prefix, has_suffix, starts_with};
use crate::version::string_views;

verus! {

/// The path of a tree entry below `prefix`.
pub open spec fn tree_entry_path(prefix: Seq<char>, name: Seq<char>) -> Seq<char> {
    if prefix.len() == 0 {
        name
    } else {
        prefix + "/"@ + name
    }
}

/// Computes `tree_entry_path`.
pub fn entry_path(prefix: &str, name: &str) -> (p: String)
    ensures
        p@ == tree_entry_path(prefix@, name@),
{
    let mut p = String::new();
    if chars_of(prefix).len() == 0 {
        p.append(name);
    } else {
        p.append(prefix);
        p.append("/");
        p.append(name);
    }
    p
}

/// A file path is listed: always without an extension filter, else when the
/// path ends with the extension.
pub open spec fn file_wanted(path: Seq<char>, extension: Option<Seq<char>>) -> bool {
    match extension {
        Some(e) => ends_with(path, e),
        None => true,
    }
}

/// Decides `file_wanted`.
pub fn wanted_file(path: &str, extension: Option<&str>) -> (b: bool)
    ensures
        b == file_wanted(path@, crate::registry::opt_str_view(extension)),
{
    match extension {
        Some(e) => has_suffix(&chars_of(path), &chars_of(e)),
        None => true,
    }
}

/// The names that start with `pattern`, in order.
pub open spec fn names_with_prefix(names: Seq<Seq<char>>, pattern: Seq<char>) -> Seq<Seq<char>>
    decreases names.len(),
{
    if names.len() == 0 {
        Seq::empty()
    } else {
        let prev = names_with_prefix(names.drop_last(), pattern);
        if starts_with(names.last(), pattern) {
            prev.push(names.last())
        } else {
            prev
        }
    }
}

/// Computes `names_with_prefix`.
pub fn branches_with_prefix(names: &Vec<String>, pattern: &str) -> (r: Vec<String>)
    ensures
        string_views(r@) == names_with_prefix(string_views(names@), pattern@),
{
    let p = chars_of(pattern);
    let mut r: Vec<String> = Vec::new();
    let mut i: usize = 0;
    assert(string_views(r@) =~= Seq::<Seq<char>>::empty());
    while i < names.len()
        invariant
            i <= names.len(),
            p@ == pattern@,
            string_views(r@) == names_with_prefix(string_views(names@).take(i as int), pattern@),
        decreases names.len() - i,
    {
        assert(string_views(names@).take(i + 1).drop_last() =~= string_views(names@).take(
            i as int,
        ));
        if has_prefix(&chars_of(names[i].as_str()), &p) {
            let ghost before = string_views(r@);
            r.push(names[i].clone());
            assert(string_views(r@) =~= before.push(names@[i as int]@));
        }
        i += 1;
    }
    assert(string_views(names@).take(names.len() as int) =~= string_views(names@));
    r
}

} // verus!
