use vstd::prelude::*;
use vstd::string::*;

verus! {

/// A response on the wire: the status line, the blank-line separator, then
/// the body.
pub open spec fn spec_response(status: Seq<char>, body: Seq<char>) -> Seq<char> {
    status + "\r\n\r\n"@ + body
}

pub open spec fn spec_status_ok() -> Seq<char> {
    "HTTP/1.1 200 OK"@
}

pub open spec fn spec_status_not_found() -> Seq<char> {
    "HTTP/1.1 404 Not Found"@
}

pub open spec fn spec_status_method_not_allowed() -> Seq<char> {
    "HTTP/1.1 405 Method Not Allowed"@
}

pub open spec fn spec_body_not_found() -> Seq<char> {
    "404 Not Found"@
}

/// The success response carrying the given body verbatim.
pub fn response_ok(body: &String) -> (r: String)
    ensures
        r@ == spec_response(spec_status_ok(), body@),
{
    let mut r = "HTTP/1.1 200 OK".to_owned();
    r.append("\r\n\r\n");
    r.append(body.as_str());
    r
}

/// The not-found response, whose body is the fixed text `404 Not Found`.
pub fn response_not_found() -> (r: String)
    ensures
        r@ == spec_response(spec_status_not_found(), spec_body_not_found()),
{
    let mut r = "HTTP/1.1 404 Not Found".to_owned();
    r.append("\r\n\r\n");
    r.append("404 Not Found");
    r
}

/// The method-not-allowed response, whose body is empty.
pub fn response_method_not_allowed() -> (r: String)
    ensures
        r@ == spec_response(spec_status_method_not_allowed(), Seq::<char>::empty()),
{
    let mut r = "HTTP/1.1 405 Method Not Allowed".to_owned();
    r.append("\r\n\r\n");
    proof {
        assert(r@ + Seq::<char>::empty() =~= r@);
    }
    r
}

} // verus!
