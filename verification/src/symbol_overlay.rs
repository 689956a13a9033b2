//! The outline of a file: that of the open document, or else the one that the index has.
use vstd::prelude::*;

use crate::markdown::OutlineItem;
use crate::paths;
use crate::paths::{path_relative, slashed};

verus! {

/// What the index calls a file: its path within the project, with slashes; a file outside has no
/// name.
pub open spec fn index_key(relative: Option<Seq<char>>) -> Seq<char> {
    match relative {
        Some(r) => paths::with_slashes(r),
        None => Seq::empty(),
    }
}

/// What the index calls a file that has the path `relative` within the project.
pub fn key_of(relative: Option<String>) -> (key: String)
    ensures
        key@ == index_key(paths::text_view(relative)),
{
    match relative {
        Some(r) => slashed(r.as_str()),
        None => String::new(),
    }
}

/// What the index calls the file at `abs_path` in the project at `root`.
pub fn symbol_key(abs_path: &str, root: &str) -> (key: String)
    ensures
        key@ == index_key(paths::relative_path_of(abs_path@, root@)),
{
    key_of(path_relative(abs_path, root))
}

/// The outline of a file: that of the open document, if the file is open; otherwise what the
/// index has under its name, or nothing. `indexed` is what looking it up there gave.
pub fn outline_for_path<E>(open_doc: Option<Vec<OutlineItem>>, indexed: Result<Option<Vec<OutlineItem>>, E>) -> (r: Result<
    Vec<OutlineItem>,
    E,
>)
    ensures
        match (open_doc, indexed) {
            (Some(o), _) => r is Ok && r->Ok_0@ == o@,
            (None, Ok(Some(i))) => r is Ok && r->Ok_0@ == i@,
            (None, Ok(None)) => r is Ok && r->Ok_0@.len() == 0,
            (None, Err(e)) => r is Err && r->Err_0 == e,
        },
{
    match open_doc {
        Some(o) => Ok(o),
        None => match indexed {
            Ok(Some(i)) => Ok(i),
            Ok(None) => Ok(Vec::new()),
            Err(e) => Err(e),
        },
    }
}

} // verus!
