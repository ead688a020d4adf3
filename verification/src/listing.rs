use vstd::prelude::*;
use vstd::string::*;

verus! {

/// One immediate child of the directory being listed: its bare name, its
/// full filesystem path, and whether it is itself a directory.
pub struct Entry {
    pub name: String,
    pub path: String,
    pub is_dir: bool,
}

/// The mathematical content of an `Entry`.
pub struct EntryView {
    pub name: Seq<char>,
    pub path: Seq<char>,
    pub is_dir: bool,
}

impl View for Entry {
    type V = EntryView;

    open spec fn view(&self) -> EntryView {
        EntryView { name: self.name@, path: self.path@, is_dir: self.is_dir }
    }
}

/// The views of a sequence of entries, in order.
pub open spec fn views_of(es: Seq<Entry>) -> Seq<EntryView> {
    es.map_values(|e: Entry| e@)
}

/// The sequence with every run of adjacent separators shortened to a single
/// one; all other characters are kept in order.
pub open spec fn spec_collapse_slashes(s: Seq<char>) -> Seq<char>
    decreases s.len(),
{
    if s.len() == 0 {
        s
    } else if s.len() >= 2 && s[0] == '/' && s[1] == '/' {
        spec_collapse_slashes(s.drop_first())
    } else {
        seq![s[0]] + spec_collapse_slashes(s.drop_first())
    }
}

/// The sequence with its trailing run of separators removed.
pub open spec fn spec_strip_trailing_slashes(s: Seq<char>) -> Seq<char>
    decreases s.len(),
{
    if s.len() > 0 && s.last() == '/' {
        spec_strip_trailing_slashes(s.drop_last())
    } else {
        s
    }
}

/// Relies on String::push of std: appends exactly one character at the end.
#[verifier::external_body]
fn push_char(s: &mut String, c: char)
    ensures
        final(s)@ == old(s)@.push(c),
{
    s.push(c);
}

/// Shortens every run of adjacent separators to a single one.
pub fn collapse_slashes(s: &String) -> (r: String)
    ensures
        r@ == spec_collapse_slashes(s@),
{
    let n = s.as_str().unicode_len();
    let mut r = String::new();
    proof {
        assert(s@.skip(0) =~= s@);
        assert(Seq::<char>::empty() + spec_collapse_slashes(s@) =~= spec_collapse_slashes(s@));
    }
    let mut i: usize = 0;
    while i < n
        invariant
            n == s@.len(),
            i <= n,
            spec_collapse_slashes(s@) == r@ + spec_collapse_slashes(s@.skip(i as int)),
        decreases n - i,
    {
        let ghost t = s@.skip(i as int);
        proof {
            assert(t[0] == s@[i as int]);
            assert(t.drop_first() =~= s@.skip(i as int + 1));
        }
        let c = s.as_str().get_char(i);
        if c == '/' && i + 1 < n && s.as_str().get_char(i + 1) == '/' {
            proof {
                assert(t.len() >= 2 && t[1] == s@[i as int + 1]);
            }
        } else {
            let ghost r0 = r@;
            push_char(&mut r, c);
            proof {
                assert(r0.push(c) + spec_collapse_slashes(s@.skip(i as int + 1)) =~= r0 + (seq![
                    c,
                ] + spec_collapse_slashes(s@.skip(i as int + 1))));
            }
        }
        i = i + 1;
    }
    proof {
        assert(s@.skip(n as int) =~= Seq::<char>::empty());
        assert(r@ + Seq::<char>::empty() =~= r@);
    }
    r
}

/// Removes the trailing run of separators.
pub fn strip_trailing_slashes(s: &String) -> (r: String)
    ensures
        r@ == spec_strip_trailing_slashes(s@),
{
    let n = s.as_str().unicode_len();
    let mut e: usize = n;
    proof {
        assert(s@.take(n as int) =~= s@);
    }
    while e > 0
        invariant
            n == s@.len(),
            e <= n,
            spec_strip_trailing_slashes(s@) == spec_strip_trailing_slashes(s@.take(e as int)),
        ensures
            e <= n,
            spec_strip_trailing_slashes(s@) == spec_strip_trailing_slashes(s@.take(e as int)),
            e > 0 ==> s@[e - 1] != '/',
        decreases e,
    {
        if s.as_str().get_char(e - 1) != '/' {
            break;
        }
        proof {
            assert(s@.take(e as int).last() == s@[e - 1]);
            assert(s@.take(e as int).drop_last() =~= s@.take(e - 1));
        }
        e = e - 1;
    }
    proof {
        if e > 0 {
            assert(s@.take(e as int).last() == s@[e - 1]);
        } else {
            assert(s@.take(0) =~= Seq::<char>::empty());
        }
        assert(s@.subrange(0, e as int) =~= s@.take(e as int));
    }
    s.as_str().substring_char(0, e).to_owned()
}

/// The fixed page shell the listing document opens with.
pub open spec fn spec_shell() -> Seq<char> {
    "<!DOCTYPE html><html lang=\"en\"><head><meta charset=\"UTF-8\"><meta name=\"viewport\" content=\"width=device-width, initial-scale=1.0\"><title>Directory Listing</title><style>body { font-family: Arial, sans-serif; }body { background-color: #121212; color: #ffffff; }h1 { color: #ffffff; }h2 { color: #ffffff; }ul { list-style-type: none; padding: 0; }li { margin: 5px 0; }a { text-decoration: none; color: #007BFF; }a:hover { text-decoration: underline; }a:visited { color: #007BFF; }a:active { color: #007BFF; }a:focus { color: #007BFF; }li a { display: block; padding: 10px; }</style></head><body><h1>Directory Listing</h1><h2>Available files:</h2><ul>"@
}

/// The list item of a subdirectory: its link is the entry's path with
/// separators collapsed and the trailing one stripped, its label the name
/// behind a folder glyph, with a separator appended.
pub open spec fn spec_dir_item(e: EntryView) -> Seq<char> {
    "<li><a href=\""@ + spec_strip_trailing_slashes(spec_collapse_slashes(e.path))
        + "\">\u{1f4c1} "@ + e.name + "/</a></li>"@
}

/// The list item of a file: its link is the entry's path with separators
/// collapsed, its label the name behind a document glyph.
pub open spec fn spec_file_item(e: EntryView) -> Seq<char> {
    "<li><a href=\""@ + spec_collapse_slashes(e.path) + "\">\u{1f4c4} "@ + e.name + "</a></li>"@
}

/// The list items of the subdirectories among the entries, in order.
pub open spec fn spec_dir_items(es: Seq<EntryView>) -> Seq<char>
    decreases es.len(),
{
    if es.len() == 0 {
        Seq::empty()
    } else {
        spec_dir_items(es.drop_last()) + if es.last().is_dir {
            spec_dir_item(es.last())
        } else {
            Seq::empty()
        }
    }
}

/// The list items of the files among the entries, in order.
pub open spec fn spec_file_items(es: Seq<EntryView>) -> Seq<char>
    decreases es.len(),
{
    if es.len() == 0 {
        Seq::empty()
    } else {
        spec_file_items(es.drop_last()) + if !es.last().is_dir {
            spec_file_item(es.last())
        } else {
            Seq::empty()
        }
    }
}

/// The whole listing document: the shell, then one item per subdirectory in
/// enumeration order, then one item per file in enumeration order.
pub open spec fn spec_html_list(es: Seq<EntryView>) -> Seq<char> {
    spec_shell() + spec_dir_items(es) + spec_file_items(es)
}

/// Renders the listing document for the given entries.
pub fn html_list(entries: &Vec<Entry>) -> (r: String)
    ensures
        r@ == spec_html_list(views_of(entries@)),
{
    let ghost vs = views_of(entries@);
    let mut r =
        "<!DOCTYPE html><html lang=\"en\"><head><meta charset=\"UTF-8\"><meta name=\"viewport\" content=\"width=device-width, initial-scale=1.0\"><title>Directory Listing</title><style>body { font-family: Arial, sans-serif; }body { background-color: #121212; color: #ffffff; }h1 { color: #ffffff; }h2 { color: #ffffff; }ul { list-style-type: none; padding: 0; }li { margin: 5px 0; }a { text-decoration: none; color: #007BFF; }a:hover { text-decoration: underline; }a:visited { color: #007BFF; }a:active { color: #007BFF; }a:focus { color: #007BFF; }li a { display: block; padding: 10px; }</style></head><body><h1>Directory Listing</h1><h2>Available files:</h2><ul>".to_owned();
    proof {
        assert(vs.take(0) =~= Seq::<EntryView>::empty());
        assert(r@ + Seq::<char>::empty() =~= r@);
    }
    let mut i: usize = 0;
    while i < entries.len()
        invariant
            vs == views_of(entries@),
            vs.len() == entries@.len(),
            i <= entries.len(),
            r@ == spec_shell() + spec_dir_items(vs.take(i as int)),
        decreases entries.len() - i,
    {
        let ghost r0 = r@;
        proof {
            assert(vs[i as int] == entries@[i as int]@);
            assert(vs.take(i as int + 1).drop_last() =~= vs.take(i as int));
            assert(vs.take(i as int + 1).last() == vs[i as int]);
        }
        let e = &entries[i];
        if e.is_dir {
            r.append("<li><a href=\"");
            let collapsed = collapse_slashes(&e.path);
            let href = strip_trailing_slashes(&collapsed);
            r.append(href.as_str());
            r.append("\">\u{1f4c1} ");
            r.append(e.name.as_str());
            r.append("/</a></li>");
            proof {
                assert(r@ =~= r0 + spec_dir_item(vs[i as int]));
                assert(r0 + spec_dir_item(vs[i as int]) =~= spec_shell() + spec_dir_items(
                    vs.take(i as int + 1),
                ));
            }
        } else {
            proof {
                assert(r0 + Seq::<char>::empty() =~= r0);
                assert(r0 =~= spec_shell() + spec_dir_items(vs.take(i as int + 1)));
            }
        }
        i = i + 1;
    }
    proof {
        assert(vs.take(vs.len() as int) =~= vs);
        assert(vs.take(0) =~= Seq::<EntryView>::empty());
        assert((spec_shell() + spec_dir_items(vs)) + Seq::<char>::empty() =~= spec_shell()
            + spec_dir_items(vs));
    }
    let mut j: usize = 0;
    while j < entries.len()
        invariant
            vs == views_of(entries@),
            vs.len() == entries@.len(),
            j <= entries.len(),
            r@ == (spec_shell() + spec_dir_items(vs)) + spec_file_items(vs.take(j as int)),
        decreases entries.len() - j,
    {
        let ghost r0 = r@;
        proof {
            assert(vs[j as int] == entries@[j as int]@);
            assert(vs.take(j as int + 1).drop_last() =~= vs.take(j as int));
            assert(vs.take(j as int + 1).last() == vs[j as int]);
        }
        let e = &entries[j];
        if !e.is_dir {
            r.append("<li><a href=\"");
            let href = collapse_slashes(&e.path);
            r.append(href.as_str());
            r.append("\">\u{1f4c4} ");
            r.append(e.name.as_str());
            r.append("</a></li>");
            proof {
                assert(r@ =~= r0 + spec_file_item(vs[j as int]));
                assert(r0 + spec_file_item(vs[j as int]) =~= (spec_shell() + spec_dir_items(vs))
                    + spec_file_items(vs.take(j as int + 1)));
            }
        } else {
            proof {
                assert(r0 + Seq::<char>::empty() =~= r0);
                assert(r0 =~= (spec_shell() + spec_dir_items(vs)) + spec_file_items(
                    vs.take(j as int + 1),
                ));
            }
        }
        j = j + 1;
    }
    proof {
        assert(vs.take(vs.len() as int) =~= vs);
        assert((spec_shell() + spec_dir_items(vs)) + spec_file_items(vs) =~= spec_html_list(vs));
    }
    r
}

proof fn lemma_collapse_head(s: Seq<char>)
    requires
        s.len() > 0,
    ensures
        spec_collapse_slashes(s).len() >= 1,
        spec_collapse_slashes(s)[0] == s[0],
    decreases s.len(),
{
    if s.len() >= 2 && s[0] == '/' && s[1] == '/' {
        lemma_collapse_head(s.drop_first());
    }
}

/// Law: after collapsing, no two adjacent positions both hold a separator.
pub proof fn lemma_collapse_no_adjacent_slashes(s: Seq<char>)
    ensures
        forall|i: int|
            0 <= i && i + 1 < spec_collapse_slashes(s).len() ==> !(#[trigger] spec_collapse_slashes(
                s,
            )[i] == '/' && spec_collapse_slashes(s)[i + 1] == '/'),
    decreases s.len(),
{
    if s.len() == 0 {
    } else if s.len() >= 2 && s[0] == '/' && s[1] == '/' {
        lemma_collapse_no_adjacent_slashes(s.drop_first());
        assert(spec_collapse_slashes(s) == spec_collapse_slashes(s.drop_first()));
    } else {
        let t = s.drop_first();
        let c = spec_collapse_slashes(t);
        lemma_collapse_no_adjacent_slashes(t);
        let r = spec_collapse_slashes(s);
        assert(r == seq![s[0]] + c);
        assert forall|i: int| 0 <= i && i + 1 < r.len() implies !(#[trigger] r[i] == '/' && r[i + 1]
            == '/') by {
            if i == 0 {
                assert(r[0] == s[0]);
                if s[0] == '/' {
                    if t.len() == 0 {
                        assert(c == t);
                        assert(r.len() == 1);
                    } else {
                        lemma_collapse_head(t);
                        assert(r[1] == c[0]);
                        assert(c[0] == t[0]);
                        assert(t[0] == s[1]);
                        assert(s[1] != '/');
                    }
                }
            } else {
                assert(r[i] == c[i - 1]);
                assert(r[i + 1] == c[i]);
            }
        }
    }
}

/// Law: after stripping, the result does not end with a separator.
pub proof fn lemma_strip_no_trailing_slash(s: Seq<char>)
    ensures
        spec_strip_trailing_slashes(s).len() > 0 ==> spec_strip_trailing_slashes(s).last() != '/',
    decreases s.len(),
{
    if s.len() > 0 && s.last() == '/' {
        lemma_strip_no_trailing_slash(s.drop_last());
    }
}

} // verus!
