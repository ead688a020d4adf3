use servedir::listing::{collapse_slashes, html_list, strip_trailing_slashes, Entry};
use servedir::parse::parse_request;
use servedir::response::{response_method_not_allowed, response_not_found, response_ok};
use servedir::route::{route_plan, FsKind, RoutePlan};
use servedir::service::{serve, FsInput};

const SHELL: &str = "<!DOCTYPE html><html lang=\"en\"><head><meta charset=\"UTF-8\"><meta name=\"viewport\" content=\"width=device-width, initial-scale=1.0\"><title>Directory Listing</title><style>body { font-family: Arial, sans-serif; }body { background-color: #121212; color: #ffffff; }h1 { color: #ffffff; }h2 { color: #ffffff; }ul { list-style-type: none; padding: 0; }li { margin: 5px 0; }a { text-decoration: none; color: #007BFF; }a:hover { text-decoration: underline; }a:visited { color: #007BFF; }a:active { color: #007BFF; }a:focus { color: #007BFF; }li a { display: block; padding: 10px; }</style></head><body><h1>Directory Listing</h1><h2>Available files:</h2><ul>";

fn entry(name: &str, path: &str, is_dir: bool) -> Entry {
    Entry { name: name.to_string(), path: path.to_string(), is_dir }
}

#[test]
fn parse_simple_get() {
    let req = parse_request("GET / HTTP/1.1\r\nHost: localhost\r\n\r\n").unwrap();
    assert_eq!(req.method, "GET");
    assert_eq!(req.path, "/");
}

#[test]
fn parse_keeps_path_verbatim() {
    let req = parse_request("GET /a//b/../c?q=1 HTTP/1.1\r\n").unwrap();
    assert_eq!(req.method, "GET");
    assert_eq!(req.path, "/a//b/../c?q=1");
}

#[test]
fn parse_tolerates_extra_whitespace() {
    let req = parse_request("  GET \t /a\tHTTP/1.1\r\n").unwrap();
    assert_eq!(req.method, "GET");
    assert_eq!(req.path, "/a");
}

#[test]
fn parse_single_token_is_rejected() {
    assert!(parse_request("GET\r\n\r\n").is_none());
}

#[test]
fn parse_empty_is_rejected() {
    assert!(parse_request("").is_none());
    assert!(parse_request("\r\n").is_none());
    assert!(parse_request("   \r\n").is_none());
}

#[test]
fn parse_only_reads_the_first_line() {
    let req = parse_request("GET /one HTTP/1.1\nGET /two HTTP/1.1\n").unwrap();
    assert_eq!(req.path, "/one");
}

#[test]
fn parse_ignores_buffer_padding() {
    let mut raw = String::from("GET /x HTTP/1.1");
    for _ in 0..32 {
        raw.push('\u{0}');
    }
    let req = parse_request(&raw).unwrap();
    assert_eq!(req.method, "GET");
    assert_eq!(req.path, "/x");
}

#[test]
fn route_root_with_index() {
    let path = "/".to_string();
    let plan = route_plan(&path, true, FsKind::Dir);
    assert_eq!(plan, RoutePlan::ServeFile("./index.html".to_string()));
}

#[test]
fn route_root_without_index() {
    let path = "/".to_string();
    let plan = route_plan(&path, false, FsKind::Dir);
    assert_eq!(plan, RoutePlan::ServeListing(".//".to_string()));
}

#[test]
fn route_missing_path() {
    let path = "/nope".to_string();
    let plan = route_plan(&path, false, FsKind::Missing);
    assert_eq!(plan, RoutePlan::NotFound);
}

#[test]
fn route_regular_file() {
    let path = "/a.txt".to_string();
    let plan = route_plan(&path, false, FsKind::File);
    assert_eq!(plan, RoutePlan::ServeFile(".//a.txt".to_string()));
}

#[test]
fn route_index_only_matters_at_root() {
    let path = "/a.txt".to_string();
    let plan = route_plan(&path, true, FsKind::File);
    assert_eq!(plan, RoutePlan::ServeFile(".//a.txt".to_string()));
}

#[test]
fn collapse_doubled_separators() {
    assert_eq!(collapse_slashes(&".//docs".to_string()), "./docs");
    assert_eq!(collapse_slashes(&"////".to_string()), "/");
    assert_eq!(collapse_slashes(&"a/b".to_string()), "a/b");
    assert_eq!(collapse_slashes(&"".to_string()), "");
}

#[test]
fn strip_trailing_separator() {
    assert_eq!(strip_trailing_slashes(&"./docs/".to_string()), "./docs");
    assert_eq!(strip_trailing_slashes(&"./docs".to_string()), "./docs");
    assert_eq!(strip_trailing_slashes(&"/".to_string()), "");
}

#[test]
fn listing_of_nothing_is_the_bare_shell() {
    let doc = html_list(&vec![]);
    assert_eq!(doc, SHELL);
}

#[test]
fn listing_orders_directories_first() {
    let entries = vec![
        entry("y.txt", ".//y.txt", false),
        entry("B", ".//B", true),
        entry("A", ".//A", true),
        entry("x.txt", ".//x.txt", false),
    ];
    let doc = html_list(&entries);
    let expected = format!(
        "{}{}{}{}{}",
        SHELL,
        "<li><a href=\"./B\">\u{1f4c1} B/</a></li>",
        "<li><a href=\"./A\">\u{1f4c1} A/</a></li>",
        "<li><a href=\"./y.txt\">\u{1f4c4} y.txt</a></li>",
        "<li><a href=\"./x.txt\">\u{1f4c4} x.txt</a></li>"
    );
    assert_eq!(doc, expected);
}

#[test]
fn listing_collapses_and_strips_directory_hrefs() {
    let entries = vec![entry("sub", ".//sub//", true)];
    let doc = html_list(&entries);
    let expected = format!("{}<li><a href=\"./sub\">\u{1f4c1} sub/</a></li>", SHELL);
    assert_eq!(doc, expected);
}

#[test]
fn response_shapes() {
    assert_eq!(response_ok(&"hi".to_string()), "HTTP/1.1 200 OK\r\n\r\nhi");
    assert_eq!(response_not_found(), "HTTP/1.1 404 Not Found\r\n\r\n404 Not Found");
    assert_eq!(response_method_not_allowed(), "HTTP/1.1 405 Method Not Allowed\r\n\r\n");
}

fn fs(index_exists: bool, cand_kind: FsKind, file_content: &str, entries: Vec<Entry>) -> FsInput {
    FsInput { index_exists, cand_kind, file_content: file_content.to_string(), entries }
}

#[test]
fn serve_existing_file() {
    let out = serve(
        "GET /hello.txt HTTP/1.1\r\nHost: x\r\n\r\n",
        &fs(false, FsKind::File, "Hello, world!\n", vec![]),
    );
    assert_eq!(out.unwrap(), "HTTP/1.1 200 OK\r\n\r\nHello, world!\n");
}

#[test]
fn serve_missing_file() {
    let out = serve("GET /nope HTTP/1.1\r\n\r\n", &fs(false, FsKind::Missing, "", vec![]));
    assert_eq!(out.unwrap(), "HTTP/1.1 404 Not Found\r\n\r\n404 Not Found");
}

#[test]
fn serve_non_get_method() {
    let out = serve("POST /hello.txt HTTP/1.1\r\n\r\n", &fs(false, FsKind::File, "x", vec![]));
    assert_eq!(out.unwrap(), "HTTP/1.1 405 Method Not Allowed\r\n\r\n");
    let out = serve("DELETE / HTTP/1.1\r\n\r\n", &fs(true, FsKind::Dir, "x", vec![]));
    assert_eq!(out.unwrap(), "HTTP/1.1 405 Method Not Allowed\r\n\r\n");
}

#[test]
fn serve_root_with_index() {
    let out = serve(
        "GET / HTTP/1.1\r\n\r\n",
        &fs(true, FsKind::Dir, "<h1>Welcome</h1>", vec![]),
    );
    assert_eq!(out.unwrap(), "HTTP/1.1 200 OK\r\n\r\n<h1>Welcome</h1>");
}

#[test]
fn serve_root_without_index_lists_the_root() {
    let entries = vec![entry("a.txt", ".//a.txt", false)];
    let out = serve("GET / HTTP/1.1\r\n\r\n", &fs(false, FsKind::Dir, "", entries));
    let expected = format!("HTTP/1.1 200 OK\r\n\r\n{}<li><a href=\"./a.txt\">\u{1f4c4} a.txt</a></li>", SHELL);
    assert_eq!(out.unwrap(), expected);
}

#[test]
fn serve_twice_is_identical() {
    let raw = "GET /data HTTP/1.1\r\n\r\n";
    let first = serve(raw, &fs(false, FsKind::File, "payload", vec![]));
    let second = serve(raw, &fs(false, FsKind::File, "payload", vec![]));
    assert_eq!(first, second);
    let listing_first = serve(
        "GET /d HTTP/1.1\r\n\r\n",
        &fs(false, FsKind::Dir, "", vec![entry("n", "./d/n", true)]),
    );
    let listing_second = serve(
        "GET /d HTTP/1.1\r\n\r\n",
        &fs(false, FsKind::Dir, "", vec![entry("n", "./d/n", true)]),
    );
    assert_eq!(listing_first, listing_second);
}

#[test]
fn serve_malformed_writes_nothing() {
    assert!(serve("GET\r\n\r\n", &fs(true, FsKind::Dir, "x", vec![])).is_none());
    assert!(serve("", &fs(false, FsKind::Missing, "", vec![])).is_none());
}
