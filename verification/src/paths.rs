//! Paths of files. A path that is typed, or that a document has, is a text; one that a server names
//! need not be.
use std::path::PathBuf;
use vstd::prelude::*;

use crate::text::{chars_of, push_char};

verus! {

/// What `Path::file_name` gives for a path.
pub uninterp spec fn file_name_of(path: Seq<char>) -> Option<Seq<char>>;

/// `std::path::Path::file_name`: the last component of a path, a function of the path by the rules
/// of the system that the crate is built for. There is none where the path ends in `..`, or is a
/// root.
#[verifier::external_body]
pub(crate) fn path_file_name(path: &str) -> (r: Option<String>)
    ensures
        file_name_of(path@) == match r {
            Some(n) => Some(n@),
            None => None,
        },
{
    std::path::Path::new(path).file_name().map(|n| n.to_string_lossy().into_owned())
}

/// A path, as `std::path` holds it.
#[verifier::external_type_specification]
#[verifier::external_body]
pub struct ExPathBuf(std::path::PathBuf);

/// `PathBuf::clone`: the same path.
pub assume_specification[ <PathBuf as Clone>::clone ](path: &PathBuf) -> (r: PathBuf)
    ensures
        r == *path,
;

/// What `PathBuf::from` makes of a text.
pub uninterp spec fn path_of(text: Seq<char>) -> PathBuf;

/// What `Path::to_string_lossy` gives for a path.
pub uninterp spec fn path_text_of(path: PathBuf) -> Seq<char>;

/// What `Path::strip_prefix` gives for a path and a folder.
pub uninterp spec fn stripped_path_of(path: PathBuf, root: Seq<char>) -> Option<PathBuf>;

/// What `Path::components` gives for a path: the bytes of each component.
pub uninterp spec fn components_of(path: PathBuf) -> Seq<Seq<u8>>;

/// `std::path::PathBuf::from`, of a text: the path that is written so. As a text it is the text
/// that it was made from.
#[verifier::external_body]
pub(crate) fn path_from(text: &str) -> (r: PathBuf)
    ensures
        r == path_of(text@),
        path_text_of(r) == text@,
{
    PathBuf::from(text)
}

/// `std::path::Path::to_string_lossy`: a path as a text, a function of the path. What is not
/// Unicode in the path is replaced.
#[verifier::external_body]
pub(crate) fn path_text(path: &PathBuf) -> (r: String)
    ensures
        r@ == path_text_of(*path),
{
    path.to_string_lossy().into_owned()
}

/// `std::path::Path::strip_prefix`: the path as seen from the folder `root`, a function of the
/// two by the rules of the system that the crate is built for. There is none where the path does
/// not lie below the folder.
#[verifier::external_body]
pub(crate) fn path_stripped(path: &PathBuf, root: &str) -> (r: Option<PathBuf>)
    ensures
        r == stripped_path_of(*path, root@),
{
    path.strip_prefix(root).ok().map(|p| p.to_path_buf())
}

/// `std::path::Path::components`: the components of a path, in order, a function of the path by
/// the rules of the system that the crate is built for. Separators that are repeated or that end
/// the path make none. A component is taken as its bytes, none of which is lost.
#[verifier::external_body]
pub(crate) fn path_components(path: &PathBuf) -> (r: Vec<Vec<u8>>)
    ensures
        parts_view(r@) == components_of(*path),
{
    path.components().map(|c| c.as_os_str().as_encoded_bytes().to_vec()).collect()
}

/// The text of a path as seen from the folder `root`.
pub open spec fn relative_text(path: PathBuf, root: Seq<char>) -> Option<Seq<char>> {
    match stripped_path_of(path, root) {
        Some(p) => Some(path_text_of(p)),
        None => None,
    }
}

/// The text of a path as seen from the folder `root`.
pub(crate) fn path_within(path: &PathBuf, root: &str) -> (r: Option<String>)
    ensures
        text_view(r) == relative_text(*path, root@),
{
    match path_stripped(path, root) {
        Some(p) => Some(path_text(&p)),
        None => None,
    }
}

/// The path that is written as `path`, as seen from the folder `root`.
pub open spec fn relative_path_of(path: Seq<char>, root: Seq<char>) -> Option<Seq<char>> {
    relative_text(path_of(path), root)
}

/// The path that is written as `path`, as seen from the folder `root`.
pub(crate) fn path_relative(path: &str, root: &str) -> (r: Option<String>)
    ensures
        text_view(r) == relative_path_of(path@, root@),
{
    path_within(&path_from(path), root)
}

/// What `Path::join` makes of a folder and a path.
pub uninterp spec fn joined_path_of(root: Seq<char>, rel: Seq<char>) -> Seq<char>;

/// `std::path::Path::join`: the path `rel` as seen from the folder `root`, a function of the two
/// by the rules of the system that the crate is built for.
#[verifier::external_body]
pub(crate) fn path_join(root: &str, rel: &str) -> (r: String)
    ensures
        r@ == joined_path_of(root@, rel@),
{
    std::path::Path::new(root).join(rel).to_string_lossy().into_owned()
}

/// What `Path::parent` gives for a path.
pub uninterp spec fn parent_of(path: Seq<char>) -> Option<Seq<char>>;

/// `std::path::Path::parent`: the path without its last component, a function of the path by the
/// rules of the system that the crate is built for. There is none where the path is a root, or
/// empty.
#[verifier::external_body]
pub(crate) fn path_parent(path: &str) -> (r: Option<String>)
    ensures
        parent_of(path@) == match r {
            Some(n) => Some(n@),
            None => None,
        },
{
    std::path::Path::new(path).parent().map(|n| n.to_string_lossy().into_owned())
}

/// Components by their values.
pub open spec fn parts_view(parts: Seq<Vec<u8>>) -> Seq<Seq<u8>> {
    Seq::new(parts.len(), |i: int| parts[i]@)
}

/// Texts by their values.
pub open spec fn texts_view(ts: Seq<String>) -> Seq<Seq<char>> {
    Seq::new(ts.len(), |i: int| ts[i]@)
}

/// Whether two components are the same.
fn same_bytes(a: &[u8], b: &[u8]) -> (r: bool)
    ensures
        r == (a@ == b@),
{
    if a.len() != b.len() {
        return false;
    }
    let mut i: usize = 0;
    while i < a.len()
        invariant
            i <= a@.len(),
            a@.len() == b@.len(),
            forall|k: int| 0 <= k < i ==> a@[k] == b@[k],
        decreases a@.len() - i,
    {
        if a[i] != b[i] {
            return false;
        }
        i = i + 1;
    }
    assert(a@ =~= b@);
    true
}

/// Whether two lists hold the same components.
pub fn same_parts(a: &[Vec<u8>], b: &[Vec<u8>]) -> (r: bool)
    ensures
        r == (parts_view(a@) == parts_view(b@)),
{
    if a.len() != b.len() {
        assert(parts_view(a@).len() != parts_view(b@).len());
        return false;
    }
    let mut i: usize = 0;
    while i < a.len()
        invariant
            i <= a@.len(),
            a@.len() == b@.len(),
            forall|k: int| 0 <= k < i ==> (#[trigger] a@[k])@ == b@[k]@,
        decreases a@.len() - i,
    {
        if !same_bytes(a[i].as_slice(), b[i].as_slice()) {
            assert(parts_view(a@)[i as int] != parts_view(b@)[i as int]);
            return false;
        }
        i = i + 1;
    }
    assert(parts_view(a@) =~= parts_view(b@));
    true
}

/// The components of the path that is written as `path`.
pub open spec fn path_parts_of(path: Seq<char>) -> Seq<Seq<u8>> {
    components_of(path_of(path))
}

/// The components of the path that is written as `path`.
pub(crate) fn path_parts(path: &str) -> (r: Vec<Vec<u8>>)
    ensures
        parts_view(r@) == path_parts_of(path@),
{
    path_components(&path_from(path))
}

/// Whether two paths name the same file: where they have the same components.
pub open spec fn one_file(a: PathBuf, b: PathBuf) -> bool {
    components_of(a) == components_of(b)
}

/// Whether two paths name the same file.
pub fn is_one_file(a: &PathBuf, b: &PathBuf) -> (r: bool)
    ensures
        r == one_file(*a, *b),
{
    let parts_a: Vec<Vec<u8>> = path_components(a);
    let parts_b: Vec<Vec<u8>> = path_components(b);
    same_parts(parts_a.as_slice(), parts_b.as_slice())
}

/// Whether two paths that are written as texts name the same file.
pub open spec fn same_file(a: Seq<char>, b: Seq<char>) -> bool {
    one_file(path_of(a), path_of(b))
}

/// Whether two paths that are written as texts name the same file.
pub fn same_path(a: &str, b: &str) -> (r: bool)
    ensures
        r == same_file(a@, b@),
{
    is_one_file(&path_from(a), &path_from(b))
}

/// The name that the header of an editor gives a document: its path within the project, or else
/// its file name; without a project, its file name, or else all of its path.
pub open spec fn path_label(path: Seq<char>, in_project: bool, relative: Option<Seq<char>>, name: Option<Seq<char>>) -> Seq<
    char,
> {
    if in_project {
        match (relative, name) {
            (Some(r), _) => r,
            (None, Some(n)) => n,
            (None, None) => Seq::empty(),
        }
    } else {
        match name {
            Some(n) => n,
            None => path,
        }
    }
}

/// A text that may be missing, by its value.
pub open spec fn text_view(t: Option<String>) -> Option<Seq<char>> {
    match t {
        Some(s) => Some(s@),
        None => None,
    }
}

/// The name of a document, where `relative` is its path within the project and `name` its file
/// name.
pub fn label_from(path: &str, in_project: bool, relative: Option<String>, name: Option<String>) -> (label: String)
    ensures
        label@ == path_label(path@, in_project, text_view(relative), text_view(name)),
{
    if in_project {
        match relative {
            Some(r) => r,
            None => match name {
                Some(n) => n,
                None => String::new(),
            },
        }
    } else {
        match name {
            Some(n) => n,
            None => path.to_owned(),
        }
    }
}

/// The name of a document in the project at `root`, if there is one.
pub fn document_label(path: &str, root: Option<&str>) -> (label: String)
    ensures
        label@ == path_label(
            path@,
            root is Some,
            match root {
                Some(r) => relative_path_of(path@, r@),
                None => None,
            },
            file_name_of(path@),
        ),
{
    let relative: Option<String> = match root {
        Some(r) => path_relative(path, r),
        None => None,
    };
    label_from(path, root.is_some(), relative, path_file_name(path))
}

/// A path with every backslash turned into a slash.
pub open spec fn with_slashes(s: Seq<char>) -> Seq<char> {
    s.map_values(|c: char| if c == '\\' { '/' } else { c })
}

/// A path with every backslash turned into a slash.
pub fn slashed(path: &str) -> (r: String)
    ensures
        r@ == with_slashes(path@),
{
    let chars: Vec<char> = chars_of(path);
    let mut r: String = String::new();
    let mut i: usize = 0;
    assert(r@ =~= with_slashes(path@.take(0)));
    while i < chars.len()
        invariant
            i <= chars@.len(),
            chars@ == path@,
            r@ == with_slashes(path@.take(i as int)),
        decreases chars@.len() - i,
    {
        push_char(&mut r, if chars[i] == '\\' { '/' } else { chars[i] });
        i = i + 1;
        assert(r@ =~= with_slashes(path@.take(i as int)));
    }
    assert(path@.take(i as int) =~= path@);
    r
}

/// Where the last slash of `s` is; -1 where there is none.
pub open spec fn last_slash(s: Seq<char>) -> int
    decreases s.len(),
{
    if s.len() == 0 { -1 } else if s.last() == '/' { s.len() - 1 } else { last_slash(s.drop_last()) }
}

/// Where the last slash of a path is, counted from one; 0 where there is none.
pub fn after_last_slash(chars: &[char]) -> (n: usize)
    ensures
        n == last_slash(chars@) + 1,
        n <= chars@.len(),
{
    let mut n: usize = chars.len();
    assert(chars@.take(n as int) =~= chars@);
    while n > 0 && chars[n - 1] != '/'
        invariant
            n <= chars@.len(),
            last_slash(chars@) == last_slash(chars@.take(n as int)),
        ensures
            n == last_slash(chars@) + 1,
            n <= chars@.len(),
        decreases n,
    {
        assert(chars@.take(n as int).drop_last() =~= chars@.take(n - 1));
        n = n - 1;
    }
    n
}

} // verus!
