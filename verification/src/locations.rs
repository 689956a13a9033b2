//! Places in files: how requests name them, and how the answers of a language server are read.
use std::path::PathBuf;
use vstd::prelude::*;

use crate::completion_logic::{LspPosition, ParsedCompletion};
use crate::json::Json;
use crate::paths;
use crate::paths::{is_one_file, path_from};

verus! {

/// A URL, as the crate `url` holds it.
#[verifier::external_type_specification]
#[verifier::external_body]
pub struct ExUrl(url::Url);

/// What `Url::parse` makes of a text, where it is a URL.
pub uninterp spec fn url_of(text: Seq<char>) -> Option<url::Url>;

/// What `Url::to_file_path` gives for a URL.
pub uninterp spec fn local_path_of(url: url::Url) -> Option<PathBuf>;

/// What `Url::path` gives for a URL.
pub uninterp spec fn own_path_of(url: url::Url) -> Seq<char>;

/// What `Url::from_file_path` makes of a path: the URI of the file.
pub uninterp spec fn file_uri_of(path: Seq<char>) -> Option<Seq<char>>;

/// `url::Url::parse`: a function of the text, which gives nothing where the text is no URL.
#[verifier::external_body]
fn parse_url(text: &str) -> (r: Option<url::Url>)
    ensures
        r == url_of(text@),
{
    url::Url::parse(text).ok()
}

/// `url::Url::to_file_path`: a function of the URL, which gives no path where the URL names no
/// local file. Paths follow the rules of the system that the crate is built for.
#[verifier::external_body]
fn url_file_path(url: &url::Url) -> (r: Option<PathBuf>)
    ensures
        r == local_path_of(*url),
{
    url.to_file_path().ok()
}

/// `url::Url::path`: the path that stands in the URL itself, a function of the URL.
#[verifier::external_body]
fn url_own_path(url: &url::Url) -> (r: String)
    ensures
        r@ == own_path_of(*url),
{
    url.path().to_owned()
}

/// `url::Url::from_file_path`: a function of the path, which gives no URI where the path is not
/// absolute. Paths follow the rules of the system that the crate is built for.
#[verifier::external_body]
pub(crate) fn path_to_uri(path: &str) -> (r: Option<String>)
    ensures
        file_uri_of(path@) == match r {
            Some(u) => Some(u@),
            None => None,
        },
{
    match url::Url::from_file_path(path) {
        Ok(url) => Some(String::from(url)),
        Err(()) => None,
    }
}

/// The path of the file that a URI names, if it names one.
pub open spec fn file_path_of(uri: Seq<char>) -> Option<PathBuf> {
    match url_of(uri) {
        Some(u) => local_path_of(u),
        None => None,
    }
}

/// The path of the file that a URI names, if it names one.
pub fn uri_to_path(uri: &str) -> (r: Option<PathBuf>)
    ensures
        r == file_path_of(uri@),
{
    match parse_url(uri) {
        Some(u) => url_file_path(&u),
        None => None,
    }
}

/// The path that problems are listed under: that of the file, or else the path that stands in the
/// URL.
pub open spec fn listed_under(file: Option<PathBuf>, own: Seq<char>) -> PathBuf {
    match file {
        Some(f) => f,
        None => paths::path_of(own),
    }
}

/// The path that problems are listed under, where `file` is that of the file that their URL names
/// and `own` the path that stands in the URL.
pub fn problem_path_from(file: Option<PathBuf>, own: &str) -> (p: PathBuf)
    ensures
        p == listed_under(file, own@),
{
    match file {
        Some(f) => f,
        None => path_from(own),
    }
}

/// The path that the problems of the document `uri` are listed under. There is none where `uri`
/// is no URL.
pub fn problem_path(uri: &str) -> (p: Option<PathBuf>)
    ensures
        p == match url_of(uri@) {
            Some(u) => Some(listed_under(local_path_of(u), own_path_of(u))),
            None => None,
        },
{
    match parse_url(uri) {
        Some(u) => Some(problem_path_from(url_file_path(&u), url_own_path(&u).as_str())),
        None => None,
    }
}

/// A place in a file: its path, the line and the character on the line.
#[derive(Debug)]
pub struct Location {
    pub path: PathBuf,
    pub line: usize,
    pub character: usize,
}

impl Location {
    /// The location by its values.
    pub open spec fn place(self) -> (PathBuf, usize, usize) {
        (self.path, self.line, self.character)
    }
}

impl Clone for Location {
    fn clone(&self) -> (r: Self)
        ensures
            r == *self,
    {
        Location { path: self.path.clone(), line: self.line, character: self.character }
    }
}

/// A place that a server names by a URI.
#[derive(Debug)]
pub struct Target {
    pub uri: String,
    pub line: usize,
    pub character: usize,
}

impl Target {
    /// The target by its values.
    pub open spec fn place(self) -> (Seq<char>, usize, usize) {
        (self.uri@, self.line, self.character)
    }
}

/// The member called `first`, or, where there is none, the one called `second`.
pub open spec fn either_member(j: Json, first: Seq<char>, second: Seq<char>) -> Option<Json> {
    if j.member(first) is Some { j.member(first) } else { j.member(second) }
}

/// The range of a location: a link names what to select, or the whole target; a plain location
/// its range.
pub open spec fn range_member(j: Json) -> Option<Json> {
    if j.member("targetSelectionRange"@) is Some {
        j.member("targetSelectionRange"@)
    } else {
        either_member(j, "targetRange"@, "range"@)
    }
}

/// A value, where it is an object.
pub open spec fn object(j: Option<Json>) -> Option<Json> {
    match j {
        Some(v) => if v is Object { Some(v) } else { None },
        None => None,
    }
}

/// Where a range starts.
pub open spec fn range_start(range: Json) -> Option<(usize, usize)> {
    match object(range.member("start"@)) {
        None => None,
        Some(start) => match (start.member("line"@), start.member("character"@)) {
            (Some(l), Some(c)) => match (l.unsigned(), c.unsigned()) {
                (Some(line), Some(character)) => Some((line as usize, character as usize)),
                _ => None,
            },
            _ => None,
        },
    }
}

/// The place that a location, or a link to one, names.
pub open spec fn target_of(item: Json) -> Option<(Seq<char>, usize, usize)> {
    match (either_member(item, "targetUri"@, "uri"@), object(range_member(item))) {
        (Some(uri), Some(range)) => match (uri.text(), range_start(range)) {
            (Some(u), Some((line, character))) => Some((u, line, character)),
            _ => None,
        },
        _ => None,
    }
}

/// Where a range starts.
fn start_of_range(range: &Json) -> (r: Option<(usize, usize)>)
    ensures
        r == range_start(*range),
{
    let start: &Json = match range.get("start") {
        Some(s) => s,
        None => return None,
    };
    if !matches!(start, Json::Object(_)) {
        return None;
    }
    let line: Option<&Json> = start.get("line");
    let character: Option<&Json> = start.get("character");
    match (line, character) {
        (Some(l), Some(c)) => match (l.as_u64(), c.as_u64()) {
            (Some(line), Some(character)) => Some((line as usize, character as usize)),
            _ => None,
        },
        _ => None,
    }
}

/// The place that a location, or a link to one, names.
pub fn location_target(item: &Json) -> (r: Option<Target>)
    ensures
        target_of(*item) == match r {
            Some(t) => Some(t.place()),
            None => None,
        },
{
    let uri: Option<&Json> = match item.get("targetUri") {
        Some(u) => Some(u),
        None => item.get("uri"),
    };
    let range: Option<&Json> = match item.get("targetSelectionRange") {
        Some(r) => Some(r),
        None => match item.get("targetRange") {
            Some(r) => Some(r),
            None => item.get("range"),
        },
    };
    match (uri, range) {
        (Some(u), Some(r)) => {
            if !matches!(r, Json::Object(_)) {
                return None;
            }
            match (u.as_text(), start_of_range(r)) {
                (Some(text), Some((line, character))) => Some(Target { uri: text.to_owned(), line, character }),
                _ => None,
            }
        },
        _ => None,
    }
}

/// The values that an answer lists: those of a list, or the one object that it is.
pub open spec fn answer_items(val: Json) -> Seq<Json> {
    match val {
        Json::List(items) => items@,
        Json::Object(_) => seq![val],
        _ => Seq::empty(),
    }
}

/// The places that the first `n` values name, in order.
pub open spec fn targets_of(items: Seq<Json>, n: int) -> Seq<(Seq<char>, usize, usize)>
    decreases n,
{
    if n <= 0 {
        Seq::empty()
    } else {
        match target_of(items[n - 1]) {
            Some(t) => targets_of(items, n - 1).push(t),
            None => targets_of(items, n - 1),
        }
    }
}

/// The values of targets.
pub open spec fn target_places(ts: Seq<Target>) -> Seq<(Seq<char>, usize, usize)> {
    Seq::new(ts.len(), |i: int| ts[i].place())
}

/// The values of locations.
pub open spec fn places(ls: Seq<Location>) -> Seq<(PathBuf, usize, usize)> {
    Seq::new(ls.len(), |i: int| ls[i].place())
}

/// The places that an answer names, in order. What names none is left out.
pub fn definition_targets(val: &Json) -> (r: Vec<Target>)
    ensures
        target_places(r@) == targets_of(answer_items(*val), answer_items(*val).len() as int),
{
    let mut r: Vec<Target> = Vec::new();
    assert(target_places(r@) =~= Seq::empty());
    match val {
        Json::List(items) => {
            let mut i: usize = 0;
            while i < items.len()
                invariant
                    i <= items@.len(),
                    target_places(r@) == targets_of(items@, i as int),
                decreases items@.len() - i,
            {
                let ghost before = r@;
                if let Some(t) = location_target(&items[i]) {
                    r.push(t);
                    assert(target_places(r@) =~= target_places(before).push(t.place()));
                }
                i = i + 1;
            }
        },
        Json::Object(_) => {
            proof {
                reveal_with_fuel(targets_of, 2);
            }
            if let Some(t) = location_target(val) {
                r.push(t);
                assert(target_places(r@) =~= Seq::empty().push(t.place()));
            }
        },
        _ => {},
    }
    r
}

/// The locations of the first `n` targets, where `paths` are the files that their URIs name. A
/// target without a file has none.
pub open spec fn located(ts: Seq<(Seq<char>, usize, usize)>, paths: Seq<Option<PathBuf>>, n: int) -> Seq<
    (PathBuf, usize, usize),
>
    decreases n,
{
    if n <= 0 {
        Seq::empty()
    } else {
        match paths[n - 1] {
            Some(p) => located(ts, paths, n - 1).push((p, ts[n - 1].1, ts[n - 1].2)),
            None => located(ts, paths, n - 1),
        }
    }
}

/// The locations of targets, where `paths` are the files that their URIs name.
pub fn keep_located(targets: &[Target], paths: &[Option<PathBuf>]) -> (r: Vec<Location>)
    requires
        targets@.len() == paths@.len(),
    ensures
        places(r@) == located(target_places(targets@), paths@, targets@.len() as int),
{
    let mut r: Vec<Location> = Vec::new();
    assert(places(r@) =~= Seq::empty());
    let mut i: usize = 0;
    while i < targets.len()
        invariant
            i <= targets@.len(),
            targets@.len() == paths@.len(),
            places(r@) == located(target_places(targets@), paths@, i as int),
        decreases targets@.len() - i,
    {
        let ghost before = r@;
        if let Some(p) = &paths[i] {
            let l: Location = Location { path: p.clone(), line: targets[i].line, character: targets[i].character };
            r.push(l);
            assert(places(r@) =~= places(before).push(l.place()));
        }
        i = i + 1;
    }
    r
}

/// What the URIs of targets name.
pub open spec fn named_paths(ts: Seq<(Seq<char>, usize, usize)>) -> Seq<Option<PathBuf>> {
    Seq::new(ts.len(), |i: int| file_path_of(ts[i].0))
}

/// The locations that the answer to a request for definitions or references names, in order.
pub fn parse_definition_locations(val: &Json) -> (r: Vec<Location>)
    ensures
        ({
            let ts = targets_of(answer_items(*val), answer_items(*val).len() as int);
            places(r@) == located(ts, named_paths(ts), ts.len() as int)
        }),
{
    let targets: Vec<Target> = definition_targets(val);
    let ghost ts = target_places(targets@);
    let mut paths: Vec<Option<PathBuf>> = Vec::new();
    let mut i: usize = 0;
    while i < targets.len()
        invariant
            i <= targets@.len(),
            ts == target_places(targets@),
            paths@.len() == i,
            forall|k: int| 0 <= k < i ==> #[trigger] paths@[k] == file_path_of(ts[k].0),
        decreases targets@.len() - i,
    {
        let ghost before = paths@;
        let p: Option<PathBuf> = uri_to_path(targets[i].uri.as_str());
        paths.push(p);
        proof {
            assert forall|k: int| 0 <= k < i + 1 implies #[trigger] paths@[k] == file_path_of(ts[k].0) by {
                if k < i {
                    assert(paths@[k] == before[k]);
                }
            }
        }
        i = i + 1;
    }
    assert(paths@ =~= named_paths(ts));
    keep_located(targets.as_slice(), paths.as_slice())
}

/// Where a location is, seen from the document at `current`.
#[derive(Debug, Clone, Copy, PartialEq, Eq, Structural)]
pub enum Jump {
    Here,
    OtherFile,
}

/// Whether a location is in the document at `current`.
pub fn jump_kind(current: &str, target: &Location) -> (j: Jump)
    ensures
        j == if paths::one_file(paths::path_of(current@), target.path) { Jump::Here } else { Jump::OtherFile },
{
    if is_one_file(&path_from(current), &target.path) { Jump::Here } else { Jump::OtherFile }
}

/// Whether `j` names a document by its URI.
pub open spec fn is_document(j: Json, uri: Seq<char>) -> bool {
    j.has_keys(seq!["uri"@]) && j.at(0).is_text(uri)
}

/// Whether `j` is a position in a document.
pub open spec fn is_position(j: Json, pos: LspPosition) -> bool {
    &&& j.has_keys(seq!["line"@, "character"@])
    &&& j.at(0) == Json::Unsigned(pos.line as u64)
    &&& j.at(1) == Json::Unsigned(pos.character as u64)
}

/// A document by its URI.
fn document_json(uri: &str) -> (j: Json)
    ensures
        is_document(j, uri@),
{
    let mut members: Vec<(String, Json)> = Vec::new();
    members.push(("uri".to_owned(), Json::Text(uri.to_owned())));
    Json::Object(members)
}

/// A position in a document.
fn position_json(pos: LspPosition) -> (j: Json)
    ensures
        is_position(j, pos),
{
    let mut members: Vec<(String, Json)> = Vec::new();
    members.push(("line".to_owned(), Json::Unsigned(pos.line as u64)));
    members.push(("character".to_owned(), Json::Unsigned(pos.character as u64)));
    Json::Object(members)
}

/// What a request about a position is sent: for what hovers there, and for its definition.
pub fn position_params(uri: &str, pos: LspPosition) -> (j: Json)
    ensures
        j.has_keys(seq!["textDocument"@, "position"@]),
        is_document(j.at(0), uri@),
        is_position(j.at(1), pos),
{
    let mut members: Vec<(String, Json)> = Vec::new();
    members.push(("textDocument".to_owned(), document_json(uri)));
    members.push(("position".to_owned(), position_json(pos)));
    Json::Object(members)
}

/// What a request for the references to what stands at a position is sent. The declaration is
/// to be among them.
pub fn references_params(uri: &str, pos: LspPosition) -> (j: Json)
    ensures
        j.has_keys(seq!["textDocument"@, "position"@, "context"@]),
        is_document(j.at(0), uri@),
        is_position(j.at(1), pos),
        j.at(2).has_keys(seq!["includeDeclaration"@]),
        j.at(2).at(0) == Json::Bool(true),
{
    let mut context: Vec<(String, Json)> = Vec::new();
    context.push(("includeDeclaration".to_owned(), Json::Bool(true)));
    let mut members: Vec<(String, Json)> = Vec::new();
    members.push(("textDocument".to_owned(), document_json(uri)));
    members.push(("position".to_owned(), position_json(pos)));
    members.push(("context".to_owned(), Json::Object(context)));
    Json::Object(members)
}

/// Whether `j` says what a completion was triggered by: a character, or a request of its own.
pub open spec fn is_trigger(j: Json, trigger_char: Option<Seq<char>>) -> bool {
    match trigger_char {
        Some(ch) => {
            &&& j.has_keys(seq!["triggerKind"@, "triggerCharacter"@])
            &&& j.at(0) == Json::Unsigned(2)
            &&& j.at(1).is_text(ch)
        },
        None => j.has_keys(seq!["triggerKind"@]) && j.at(0) == Json::Unsigned(1),
    }
}

/// What a request for completions at a position is sent.
pub fn completion_params(uri: &str, pos: LspPosition, trigger_char: Option<&str>) -> (j: Json)
    ensures
        j.has_keys(seq!["textDocument"@, "position"@, "context"@]),
        is_document(j.at(0), uri@),
        is_position(j.at(1), pos),
        is_trigger(
            j.at(2),
            match trigger_char {
                Some(ch) => Some(ch@),
                None => None,
            },
        ),
{
    let mut context: Vec<(String, Json)> = Vec::new();
    match trigger_char {
        Some(ch) => {
            context.push(("triggerKind".to_owned(), Json::Unsigned(2)));
            context.push(("triggerCharacter".to_owned(), Json::Text(ch.to_owned())));
        },
        None => {
            context.push(("triggerKind".to_owned(), Json::Unsigned(1)));
        },
    }
    let mut members: Vec<(String, Json)> = Vec::new();
    members.push(("textDocument".to_owned(), document_json(uri)));
    members.push(("position".to_owned(), position_json(pos)));
    members.push(("context".to_owned(), Json::Object(context)));
    Json::Object(members)
}

/// Whether `j` is the number `n`.
pub open spec fn is_number(j: Json, n: i32) -> bool {
    if n >= 0 { j == Json::Unsigned(n as u64) } else { j == Json::Negative(n as i64) }
}

/// What a request for the details of a completion item is sent: its label, and its kind, detail
/// and data where it has them.
pub fn resolve_params(item: &ParsedCompletion) -> (j: Json)
    ensures
        ({
            let kind_at = 1int;
            let detail_at = kind_at + if item.kind is Some { 1int } else { 0 };
            let data_at = detail_at + if item.detail is Some { 1int } else { 0 };
            &&& j is Object
            &&& j->Object_0@.len() == data_at + if item.data is Some { 1int } else { 0 }
            &&& j->Object_0@[0].0@ == "label"@
            &&& j.at(0).is_text(item.label@)
            &&& item.kind matches Some(k) ==> j->Object_0@[kind_at].0@ == "kind"@ && is_number(j.at(kind_at), k)
            &&& item.detail matches Some(d) ==> j->Object_0@[detail_at].0@ == "detail"@ && j.at(detail_at).is_text(d@)
            &&& item.data matches Some(d) ==> j->Object_0@[data_at].0@ == "data"@ && j.at(data_at) == Json::Raw(d)
        }),
{
    let mut members: Vec<(String, Json)> = Vec::new();
    members.push(("label".to_owned(), Json::Text(item.label.clone())));
    if let Some(k) = item.kind {
        let n: Json = if k >= 0 { Json::Unsigned(k as u64) } else { Json::Negative(k as i64) };
        members.push(("kind".to_owned(), n));
    }
    if let Some(d) = &item.detail {
        members.push(("detail".to_owned(), Json::Text(d.clone())));
    }
    if let Some(d) = &item.data {
        members.push(("data".to_owned(), Json::Raw(d.clone())));
    }
    Json::Object(members)
}

} // verus!
