use vstd::prelude::*;
use vstd::string::*;

verus! {

/// A parsed request line: the first two whitespace-separated tokens of the
/// first line of what the client sent, taken verbatim.
pub struct Request {
    pub method: String,
    pub path: String,
}

/// The mathematical content of a `Request`.
pub struct RequestView {
    pub method: Seq<char>,
    pub path: Seq<char>,
}

impl View for Request {
    type V = RequestView;

    open spec fn view(&self) -> RequestView {
        RequestView { method: self.method@, path: self.path@ }
    }
}

impl Request {
    /// Whether the method token is exactly `GET`.
    pub fn is_get(&self) -> (b: bool)
        ensures
            b == (self@.method == "GET"@),
    {
        let get = "GET".to_owned();
        self.method == get
    }
}

/// Whitespace as the request-line tokenizer understands it: the ASCII
/// separators that can occur on an HTTP request line.
pub open spec fn is_ws(c: char) -> bool {
    c == ' ' || c == '\t' || c == '\r' || c == '\n' || c == '\u{b}' || c == '\u{c}'
}

/// The number of characters before the first line feed, or the length of the
/// whole sequence when it has none.
pub open spec fn line_end(s: Seq<char>) -> int
    decreases s.len(),
{
    if s.len() == 0 {
        0
    } else if s[0] == '\n' {
        0
    } else {
        1 + line_end(s.drop_first())
    }
}

/// The first line: everything before the first line feed, with a carriage
/// return immediately preceding that line feed stripped.
pub open spec fn first_line(s: Seq<char>) -> Seq<char> {
    let n = line_end(s);
    if n < s.len() && n > 0 && s[n - 1] == '\r' {
        s.take(n - 1)
    } else {
        s.take(n)
    }
}

/// The length of the leading run of non-whitespace characters.
pub open spec fn token_len(s: Seq<char>) -> int
    decreases s.len(),
{
    if s.len() == 0 || is_ws(s[0]) {
        0
    } else {
        1 + token_len(s.drop_first())
    }
}

proof fn lemma_token_len_bounds(s: Seq<char>)
    ensures
        0 <= token_len(s) <= s.len(),
    decreases s.len(),
{
    if s.len() > 0 && !is_ws(s[0]) {
        lemma_token_len_bounds(s.drop_first());
    }
}

/// The whitespace-separated tokens of a sequence, in order.
pub open spec fn tokens(s: Seq<char>) -> Seq<Seq<char>>
    decreases s.len(),
    via tokens_decreases
{
    if s.len() == 0 {
        Seq::empty()
    } else if is_ws(s[0]) {
        tokens(s.drop_first())
    } else {
        seq![s.take(token_len(s))] + tokens(s.skip(token_len(s)))
    }
}

#[via_fn]
proof fn tokens_decreases(s: Seq<char>) {
    if s.len() > 0 && !is_ws(s[0]) {
        lemma_token_len_bounds(s);
        lemma_token_len_bounds(s.drop_first());
    }
}

/// What parsing yields: the first two tokens of the first line as method and
/// path, or nothing when the line has fewer than two tokens.
pub open spec fn spec_parse(s: Seq<char>) -> Option<RequestView> {
    let ts = tokens(first_line(s));
    if ts.len() >= 2 {
        Some(RequestView { method: ts[0], path: ts[1] })
    } else {
        None
    }
}

proof fn lemma_line_end_at(s: Seq<char>, n: int)
    requires
        0 <= n <= s.len(),
        forall|i: int| 0 <= i < n ==> s[i] != '\n',
        n < s.len() ==> s[n] == '\n',
    ensures
        line_end(s) == n,
    decreases n,
{
    if n > 0 {
        lemma_line_end_at(s.drop_first(), n - 1);
    }
}

proof fn lemma_token_len_at(s: Seq<char>, n: int)
    requires
        0 <= n <= s.len(),
        forall|i: int| 0 <= i < n ==> !is_ws(s[i]),
        n < s.len() ==> is_ws(s[n]),
    ensures
        token_len(s) == n,
    decreases n,
{
    if n > 0 {
        lemma_token_len_at(s.drop_first(), n - 1);
    }
}

proof fn lemma_tokens_skip_ws(s: Seq<char>, n: int)
    requires
        0 <= n <= s.len(),
        forall|i: int| 0 <= i < n ==> is_ws(s[i]),
    ensures
        tokens(s) == tokens(s.skip(n)),
    decreases n,
{
    if n > 0 {
        assert(s.drop_first() =~= s.skip(1));
        lemma_tokens_skip_ws(s.skip(1), n - 1);
        assert(s.skip(1).skip(n - 1) =~= s.skip(n));
    } else {
        assert(s.skip(0) =~= s);
    }
}

fn is_ws_char(c: char) -> (b: bool)
    ensures
        b == is_ws(c),
{
    c == ' ' || c == '\t' || c == '\r' || c == '\n' || c == '\u{b}' || c == '\u{c}'
}

/// Extracts the method and path tokens from a raw request, or nothing when
/// the first line has fewer than two tokens.
#[verifier::rlimit(60)]
pub fn parse_request(request: &str) -> (r: Option<Request>)
    ensures
        match r {
            Some(req) => spec_parse(request@) == Some(req@),
            None => spec_parse(request@) is None,
        },
{
    let ghost s = request@;
    let n = request.unicode_len();

    // find the end of the first line
    let mut nl: usize = 0;
    while nl < n
        invariant
            n == s.len(),
            s == request@,
            nl <= n,
            forall|i: int| 0 <= i < nl ==> s[i] != '\n',
        ensures
            nl <= n,
            s == request@,
            forall|i: int| 0 <= i < nl ==> s[i] != '\n',
            nl < n ==> s[nl as int] == '\n',
        decreases n - nl,
    {
        if request.get_char(nl) == '\n' {
            break;
        }
        nl = nl + 1;
    }
    proof {
        lemma_line_end_at(s, nl as int);
    }

    // strip a carriage return standing right before the line feed
    let mut m: usize = nl;
    if nl < n && nl > 0 && request.get_char(nl - 1) == '\r' {
        m = nl - 1;
    }
    let ghost line = first_line(s);
    proof {
        assert(line =~= s.take(m as int));
    }

    // skip whitespace before the method token
    let mut a: usize = 0;
    while a < m
        invariant
            m == line.len(),
            line == first_line(request@),
            s == request@,
            m <= s.len(),
            forall|i: int| 0 <= i < m ==> line[i] == s[i],
            a <= m,
            forall|i: int| 0 <= i < a ==> is_ws(line[i]),
        ensures
            a <= m,
            forall|i: int| 0 <= i < a ==> is_ws(line[i]),
            a < m ==> !is_ws(line[a as int]),
        decreases m - a,
    {
        if !is_ws_char(request.get_char(a)) {
            break;
        }
        a = a + 1;
    }
    if a == m {
        proof {
            lemma_tokens_skip_ws(line, m as int);
            assert(line.skip(m as int) =~= Seq::<char>::empty());
        }
        return None;
    }

    // find the end of the method token
    let mut b: usize = a;
    while b < m
        invariant
            m == line.len(),
            line == first_line(request@),
            s == request@,
            m <= s.len(),
            forall|i: int| 0 <= i < m ==> line[i] == s[i],
            a <= b <= m,
            forall|i: int| a <= i < b ==> !is_ws(line[i]),
        ensures
            a <= b <= m,
            forall|i: int| a <= i < b ==> !is_ws(line[i]),
            b < m ==> is_ws(line[b as int]),
        decreases m - b,
    {
        if is_ws_char(request.get_char(b)) {
            break;
        }
        b = b + 1;
    }
    proof {
        lemma_tokens_skip_ws(line, a as int);
        lemma_token_len_at(line.skip(a as int), b - a);
        assert(line.skip(a as int).take(b - a) =~= line.subrange(a as int, b as int));
        assert(line.skip(a as int).skip(b - a) =~= line.skip(b as int));
    }

    // skip whitespace between the two tokens
    let mut c: usize = b;
    while c < m
        invariant
            m == line.len(),
            line == first_line(request@),
            s == request@,
            m <= s.len(),
            forall|i: int| 0 <= i < m ==> line[i] == s[i],
            b <= c <= m,
            forall|i: int| b <= i < c ==> is_ws(line[i]),
        ensures
            b <= c <= m,
            forall|i: int| b <= i < c ==> is_ws(line[i]),
            c < m ==> !is_ws(line[c as int]),
        decreases m - c,
    {
        if !is_ws_char(request.get_char(c)) {
            break;
        }
        c = c + 1;
    }
    if c == m {
        proof {
            lemma_tokens_skip_ws(line.skip(b as int), c - b);
            assert(line.skip(b as int).skip(c - b) =~= Seq::<char>::empty());
        }
        return None;
    }

    // find the end of the path token
    let mut d: usize = c;
    while d < m
        invariant
            m == line.len(),
            line == first_line(request@),
            s == request@,
            m <= s.len(),
            forall|i: int| 0 <= i < m ==> line[i] == s[i],
            c <= d <= m,
            forall|i: int| c <= i < d ==> !is_ws(line[i]),
        ensures
            c <= d <= m,
            forall|i: int| c <= i < d ==> !is_ws(line[i]),
            d < m ==> is_ws(line[d as int]),
        decreases m - d,
    {
        if is_ws_char(request.get_char(d)) {
            break;
        }
        d = d + 1;
    }
    proof {
        lemma_tokens_skip_ws(line.skip(b as int), c - b);
        assert(line.skip(b as int).skip(c - b) =~= line.skip(c as int));
        lemma_token_len_at(line.skip(c as int), d - c);
        assert(line.skip(c as int).take(d - c) =~= line.subrange(c as int, d as int));
        assert(line.subrange(a as int, b as int) =~= s.subrange(a as int, b as int));
        assert(line.subrange(c as int, d as int) =~= s.subrange(c as int, d as int));
    }

    let method = request.substring_char(a, b).to_owned();
    let path = request.substring_char(c, d).to_owned();
    Some(Request { method, path })
}

} // verus!
