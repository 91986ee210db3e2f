//! Where the library keeps its books. A path is taken as the list of its components, as
//! `std::path::Path::components` gives them, each as text: `/` for the root, `.` and `..`
//! for the current and the parent directory, and otherwise a name.

use vstd::prelude::*;
use crate::model::opt_view;
use crate::text::{chars_eq_str, chars_of};

verus! {

/// The text of each component.
pub open spec fn component_views(p: Seq<String>) -> Seq<Seq<char>> {
    p.map_values(|c: String| c@)
}

/// A component that names a file or a directory: not the root, `.` or `..`.
pub open spec fn is_name(c: Seq<char>) -> bool {
    c != "/"@ && c != "."@ && c != ".."@
}

/// The name of the file or directory at path `p`: its last component, when that is a name.
pub open spec fn file_name(p: Seq<Seq<char>>) -> Option<Seq<char>> {
    if p.len() > 0 && is_name(p.last()) {
        Some(p.last())
    } else {
        None
    }
}

/// The library directory: `books` inside the user data directory `data`.
pub open spec fn library_of(data: Seq<Seq<char>>) -> Seq<Seq<char>> {
    data.push("books"@)
}

/// Where a file imported from `source` is copied: into the library directory `library`,
/// under its own name.
pub open spec fn import_target(library: Seq<Seq<char>>, source: Seq<Seq<char>>) -> Option<Seq<Seq<char>>> {
    match file_name(source) {
        Some(n) => Some(library.push(n)),
        None => None,
    }
}

/// The category of a book found in the directory `parent` while scanning the library directory
/// `library`: none for a book directly in the library directory, otherwise the name of the
/// directory that holds it.
pub open spec fn category_of(library: Seq<Seq<char>>, parent: Seq<Seq<char>>) -> Option<Seq<char>> {
    if parent == library {
        None
    } else {
        file_name(parent)
    }
}

fn copy_components(p: &Vec<String>) -> (r: Vec<String>)
    ensures
        component_views(r@) == component_views(p@),
{
    let mut r: Vec<String> = Vec::new();
    for i in 0..p.len()
        invariant
            r@.len() == i,
            forall|k: int| 0 <= k < i ==> #[trigger] r@[k]@ == p@[k]@,
    {
        r.push(p[i].clone());
    }
    assert(component_views(r@) =~= component_views(p@));
    r
}

/// The name of the file or directory at `p` ([`file_name`]).
pub fn last_name(p: &Vec<String>) -> (r: Option<String>)
    ensures
        opt_view(r) == file_name(component_views(p@)),
{
    if p.len() == 0 {
        return None;
    }
    let last = &p[p.len() - 1];
    let c = chars_of(last.as_str());
    if chars_eq_str(&c, "/") || chars_eq_str(&c, ".") || chars_eq_str(&c, "..") {
        None
    } else {
        Some(last.clone())
    }
}

/// The library directory inside the user data directory `data_dir` ([`library_of`]).
pub fn library_dir(data_dir: &Vec<String>) -> (r: Vec<String>)
    ensures
        component_views(r@) == library_of(component_views(data_dir@)),
{
    let mut r = copy_components(data_dir);
    let ghost before = r@;
    r.push(String::from_str("books"));
    assert(component_views(r@) =~= component_views(before).push("books"@));
    r
}

/// Where a file imported from `source` is copied in the library directory `library`
/// ([`import_target`]); none when `source` does not end in a name.
pub fn import_destination(library: &Vec<String>, source: &Vec<String>) -> (r: Option<Vec<String>>)
    ensures
        match r {
            Some(v) => import_target(component_views(library@), component_views(source@)) == Some(
                component_views(v@),
            ),
            None => import_target(component_views(library@), component_views(source@)) is None,
        },
{
    match last_name(source) {
        Some(n) => {
            let mut r = copy_components(library);
            let ghost before = r@;
            r.push(n);
            assert(component_views(r@) =~= component_views(before).push(n@));
            Some(r)
        },
        None => None,
    }
}

fn same_components(a: &Vec<String>, b: &Vec<String>) -> (r: bool)
    ensures
        r == (component_views(a@) == component_views(b@)),
{
    if a.len() != b.len() {
        proof {
            assert(component_views(a@).len() != component_views(b@).len());
        }
        return false;
    }
    let mut i: usize = 0;
    while i < a.len()
        invariant
            a@.len() == b@.len(),
            i <= a@.len(),
            forall|k: int| 0 <= k < i ==> #[trigger] a@[k]@ == b@[k]@,
        decreases a@.len() - i,
    {
        if a[i] != b[i] {
            proof {
                assert(component_views(a@)[i as int] != component_views(b@)[i as int]);
            }
            return false;
        }
        i = i + 1;
    }
    assert(component_views(a@) =~= component_views(b@));
    true
}

/// The category of a book found in the directory `parent` while scanning the library
/// directory `library` ([`category_of`]).
pub fn category_from_parent(library: &Vec<String>, parent: &Vec<String>) -> (r: Option<String>)
    ensures
        opt_view(r) == category_of(component_views(library@), component_views(parent@)),
{
    if same_components(parent, library) {
        None
    } else {
        last_name(parent)
    }
}

} // verus!
