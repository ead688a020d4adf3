use vstd::prelude::*;

use crate::listing::{html_list, spec_html_list, views_of, Entry, EntryView};
use crate::parse::{first_line, parse_request, spec_parse, tokens, Request};
use crate::response::{
    response_method_not_allowed, response_not_found, response_ok, spec_body_not_found,
    spec_response, spec_status_method_not_allowed, spec_status_not_found, spec_status_ok,
};
use crate::route::{route_plan, spec_plan, FsKind, RoutePlan, RoutePlanView};

verus! {

/// What the filesystem showed while one request was handled: whether the
/// root index file exists, what kind of entry the candidate location is, the
/// text of the file that was read (for a file route), and the entries of the
/// directory that was enumerated (for a listing route).
pub struct FsView {
    pub index_exists: bool,
    pub cand_kind: FsKind,
    pub file_content: Seq<char>,
    pub entries: Seq<EntryView>,
}

/// The filesystem's answers as executable values.
pub struct FsInput {
    pub index_exists: bool,
    pub cand_kind: FsKind,
    pub file_content: String,
    pub entries: Vec<Entry>,
}

impl View for FsInput {
    type V = FsView;

    open spec fn view(&self) -> FsView {
        FsView {
            index_exists: self.index_exists,
            cand_kind: self.cand_kind,
            file_content: self.file_content@,
            entries: views_of(self.entries@),
        }
    }
}

/// The whole pipeline on one request: what the server writes back, or
/// nothing when the request line is malformed.
pub open spec fn spec_serve(request: Seq<char>, fs: FsView) -> Option<Seq<char>> {
    match spec_parse(request) {
        Option::None => Option::None,
        Option::Some(req) => if req.method != "GET"@ {
            Option::Some(spec_response(spec_status_method_not_allowed(), Seq::<char>::empty()))
        } else {
            match spec_plan(req.path, fs.index_exists, fs.cand_kind) {
                RoutePlanView::ServeFile(_) => Option::Some(
                    spec_response(spec_status_ok(), fs.file_content),
                ),
                RoutePlanView::ServeListing(_) => Option::Some(
                    spec_response(spec_status_ok(), spec_html_list(fs.entries)),
                ),
                RoutePlanView::NotFound => Option::Some(
                    spec_response(spec_status_not_found(), spec_body_not_found()),
                ),
            }
        },
    }
}

/// Runs the pipeline on a raw request, with the filesystem's answers handed
/// in: parse the request line, route the path, and render the response, or
/// return nothing when the request line is malformed.
pub fn serve(request: &str, fs: &FsInput) -> (r: Option<String>)
    ensures
        match r {
            Some(out) => spec_serve(request@, fs@) == Some(out@),
            None => spec_serve(request@, fs@) is None,
        },
{
    match parse_request(request) {
        None => None,
        Some(req) => {
            if !req.is_get() {
                Some(response_method_not_allowed())
            } else {
                match route_plan(&req.path, fs.index_exists, fs.cand_kind) {
                    RoutePlan::ServeFile(_) => Some(response_ok(&fs.file_content)),
                    RoutePlan::ServeListing(_) => {
                        let body = html_list(&fs.entries);
                        Some(response_ok(&body))
                    },
                    RoutePlan::NotFound => Some(response_not_found()),
                }
            }
        },
    }
}

/// Law: a well-formed GET request whose path routes to a file is answered
/// with status `200 OK` and the file's exact content as the body.
pub proof fn law_ok_file(request: Seq<char>, fs: FsView)
    requires
        spec_parse(request) matches Some(req) && req.method == "GET"@ && spec_plan(
            req.path,
            fs.index_exists,
            fs.cand_kind,
        ) matches RoutePlanView::ServeFile(_),
    ensures
        spec_serve(request, fs) == Some(spec_status_ok() + "\r\n\r\n"@ + fs.file_content),
{
}

/// Law: a well-formed GET request to a path that does not exist under the
/// root is answered with status `404 Not Found` and the exact body
/// `404 Not Found`.
pub proof fn law_not_found(request: Seq<char>, fs: FsView)
    requires
        spec_parse(request) matches Some(req) && req.method == "GET"@ && spec_plan(
            req.path,
            fs.index_exists,
            fs.cand_kind,
        ) is NotFound,
    ensures
        spec_serve(request, fs) == Some(
            spec_status_not_found() + "\r\n\r\n"@ + "404 Not Found"@,
        ),
{
}

/// Law: a well-formed request whose method is not GET is answered with
/// status `405 Method Not Allowed` and an empty body, whatever the path and
/// whatever the filesystem holds.
pub proof fn law_method_not_allowed(request: Seq<char>, fs: FsView)
    requires
        spec_parse(request) matches Some(req) && req.method != "GET"@,
    ensures
        spec_serve(request, fs) == Some(
            spec_status_method_not_allowed() + "\r\n\r\n"@ + Seq::<char>::empty(),
        ),
{
}

/// Law: a GET request for the root path is answered with the index file's
/// content verbatim when the root index file exists.
pub proof fn law_root_index(request: Seq<char>, fs: FsView)
    requires
        spec_parse(request) matches Some(req) && req.method == "GET"@ && req.path == "/"@,
        fs.index_exists,
    ensures
        spec_serve(request, fs) == Some(spec_status_ok() + "\r\n\r\n"@ + fs.file_content),
{
}

/// Law: a GET request for the root path when the root index file is absent
/// is answered with the listing of the root directory's entries.
pub proof fn law_root_listing(request: Seq<char>, fs: FsView)
    requires
        spec_parse(request) matches Some(req) && req.method == "GET"@ && req.path == "/"@,
        !fs.index_exists,
        fs.cand_kind is Dir,
    ensures
        spec_serve(request, fs) == Some(
            spec_status_ok() + "\r\n\r\n"@ + spec_html_list(fs.entries),
        ),
{
}

/// Law: serving is a function of the request and of what the filesystem
/// showed, so the same request over an unchanged filesystem is answered with
/// the identical response.
pub proof fn law_idempotent(request: Seq<char>, fs1: FsView, fs2: FsView)
    requires
        fs1 == fs2,
    ensures
        spec_serve(request, fs1) == spec_serve(request, fs2),
{
}

/// Law: a request whose first line holds fewer than two tokens gets no
/// response bytes at all.
pub proof fn law_malformed_silent(request: Seq<char>, fs: FsView)
    requires
        tokens(first_line(request)).len() < 2,
    ensures
        spec_serve(request, fs) is None,
{
}

} // verus!
