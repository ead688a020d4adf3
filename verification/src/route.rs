use vstd::prelude::*;
use vstd::string::*;

verus! {

/// What probing a filesystem location found: nothing, a directory, or a
/// regular file.
#[derive(Clone, Copy, PartialEq, Eq, Structural, Debug)]
pub enum FsKind {
    Missing,
    Dir,
    File,
}

/// What the server should do for a request path, given what the filesystem
/// probes found. The payload is the filesystem location to read or list.
#[derive(Debug, PartialEq, Eq)]
pub enum RoutePlan {
    ServeFile(String),
    ServeListing(String),
    NotFound,
}

/// The mathematical content of a `RoutePlan`.
pub enum RoutePlanView {
    ServeFile(Seq<char>),
    ServeListing(Seq<char>),
    NotFound,
}

impl View for RoutePlan {
    type V = RoutePlanView;

    open spec fn view(&self) -> RoutePlanView {
        match self {
            RoutePlan::ServeFile(p) => RoutePlanView::ServeFile(p@),
            RoutePlan::ServeListing(p) => RoutePlanView::ServeListing(p@),
            RoutePlan::NotFound => RoutePlanView::NotFound,
        }
    }
}

/// The filesystem location a request path names: the root, written `./`,
/// followed by the path verbatim, with no normalization.
pub open spec fn spec_candidate(path: Seq<char>) -> Seq<char> {
    "./"@ + path
}

/// The location of the root index file.
pub open spec fn spec_index_path() -> Seq<char> {
    "./index.html"@
}

/// The route decision: for the root path with an index file present, serve
/// that file; otherwise go by what probing the candidate location found —
/// nothing is not found, a directory is listed, a file is served.
pub open spec fn spec_plan(path: Seq<char>, index_exists: bool, kind: FsKind) -> RoutePlanView {
    if path == "/"@ && index_exists {
        RoutePlanView::ServeFile(spec_index_path())
    } else {
        match kind {
            FsKind::Missing => RoutePlanView::NotFound,
            FsKind::Dir => RoutePlanView::ServeListing(spec_candidate(path)),
            FsKind::File => RoutePlanView::ServeFile(spec_candidate(path)),
        }
    }
}

/// The filesystem location to probe for a request path.
pub fn candidate_path(path: &String) -> (r: String)
    ensures
        r@ == spec_candidate(path@),
{
    let mut r = "./".to_owned();
    r.append(path.as_str());
    r
}

/// The filesystem location of the root index file.
pub fn index_path() -> (r: String)
    ensures
        r@ == spec_index_path(),
{
    "./index.html".to_owned()
}

/// Whether a request path is exactly the root path.
pub fn is_root(path: &String) -> (b: bool)
    ensures
        b == (path@ == "/"@),
{
    let root = "/".to_owned();
    *path == root
}

/// Decides the route for a request path from what the filesystem probes
/// found: whether `./index.html` exists, and what kind of entry the
/// candidate location is.
pub fn route_plan(path: &String, index_exists: bool, kind: FsKind) -> (r: RoutePlan)
    ensures
        r@ == spec_plan(path@, index_exists, kind),
{
    if is_root(path) && index_exists {
        RoutePlan::ServeFile(index_path())
    } else {
        match kind {
            FsKind::Missing => RoutePlan::NotFound,
            FsKind::Dir => RoutePlan::ServeListing(candidate_path(path)),
            FsKind::File => RoutePlan::ServeFile(candidate_path(path)),
        }
    }
}

} // verus!
