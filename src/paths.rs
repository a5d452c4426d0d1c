//! Source file names, display names, and where a compiled page is written
//! and published.

use crate::dates::starts_with_iso_date;
use crate::text::{chars_of, join2, same, slice};
use vstd::prelude::*;

verus! {

/// Index of the last `c` in `s`, or -1 when there is none.
pub open spec fn last_index(s: Seq<char>, c: char) -> int
    decreases s.len(),
{
    if s.len() == 0 {
        -1
    } else if s.last() == c {
        s.len() - 1
    } else {
        last_index(s.drop_last(), c)
    }
}

pub open spec fn last_dot(s: Seq<char>) -> int {
    last_index(s, '.')
}

/// What follows the last `/` of a path: its final segment.
pub open spec fn last_segment(s: Seq<char>) -> Seq<char> {
    s.subrange(last_index(s, '/') + 1, s.len() as int)
}

/// The extension of a file name: what follows its last dot, where that dot
/// is not the name's first character.
pub open spec fn extension(name: Seq<char>) -> Option<Seq<char>> {
    if last_dot(name) > 0 {
        Some(name.subrange(last_dot(name) + 1, name.len() as int))
    } else {
        None
    }
}

/// The file name without its extension and the dot before it.
pub open spec fn stem(name: Seq<char>) -> Seq<char> {
    if last_dot(name) > 0 {
        name.subrange(0, last_dot(name))
    } else {
        name
    }
}

/// Only markdown (`md`) and plain text (`txt`) files are compiled.
pub open spec fn is_page_source(name: Seq<char>) -> bool {
    extension(name) == Some("md"@) || extension(name) == Some("txt"@)
}

/// The stem, less a leading `YYYY-MM-DD` and the one separator after it.
pub open spec fn display_name(name: Seq<char>) -> Seq<char> {
    let st = stem(name);
    if st.len() >= 11 && starts_with_iso_date(st) {
        st.subrange(11, st.len() as int)
    } else {
        st
    }
}

proof fn lemma_last_index_bounds(s: Seq<char>, c: char)
    ensures
        -1 <= last_index(s, c) < s.len(),
        last_index(s, c) >= 0 ==> s[last_index(s, c)] == c,
        forall|j: int| last_index(s, c) < j < s.len() ==> s[j] != c,
    decreases s.len(),
{
    if s.len() > 0 && s.last() != c {
        let t = s.drop_last();
        lemma_last_index_bounds(t, c);
        assert forall|j: int| last_index(s, c) < j < s.len() implies s[j] != c by {
            if j < s.len() - 1 {
                assert(t[j] == s[j]);
            }
        }
    }
}

/// Position of the last `c` in `name`, as `last_index` has it.
fn find_last(name: &Vec<char>, c: char) -> (r: Option<usize>)
    ensures
        match r {
            Some(k) => k as int == last_index(name@, c),
            None => last_index(name@, c) == -1,
        },
{
    let mut i: usize = name.len();
    assert(name@.subrange(0, i as int) =~= name@);
    while i > 0
        invariant
            i <= name@.len(),
            last_index(name@, c) == last_index(name@.subrange(0, i as int), c),
        decreases i,
    {
        let ghost pre = name@.subrange(0, i as int);
        assert(pre.drop_last() =~= name@.subrange(0, i - 1));
        if name[i - 1] == c {
            return Some(i - 1);
        }
        i = i - 1;
    }
    None
}

/// The extension of a file name, if it has one.
pub fn file_extension(name: &str) -> (r: Option<String>)
    ensures
        match r {
            Some(e) => extension(name@) == Some(e@),
            None => extension(name@) is None,
        },
{
    let v = chars_of(name);
    proof {
        lemma_last_index_bounds(name@, '.');
    }
    match find_last(&v, '.') {
        Some(k) => {
            assert(v@ == name@);
            assert(k < v.len());
            if k > 0 {
                Some(slice(name, k + 1, v.len()))
            } else {
                None
            }
        },
        None => None,
    }
}

/// The file name without its extension.
pub fn file_stem(name: &str) -> (r: String)
    ensures
        r@ == stem(name@),
{
    let v = chars_of(name);
    proof {
        lemma_last_index_bounds(name@, '.');
    }
    match find_last(&v, '.') {
        Some(k) => {
            if k > 0 {
                slice(name, 0, k)
            } else {
                slice(name, 0, v.len())
            }
        },
        None => slice(name, 0, v.len()),
    }
}

/// Whether a file of this name is compiled at all.
pub fn is_source_file(name: &str) -> (r: bool)
    ensures
        r == is_page_source(name@),
{
    match file_extension(name) {
        Some(e) => same(e.as_str(), "md") || same(e.as_str(), "txt"),
        None => false,
    }
}

/// Relies on regex's `Regex::new` and `Regex::is_match` for the pattern
/// `^[0-9]{4}-[0-9]{2}-[0-9]{2}`: true exactly when the text opens with four
/// ASCII digits, a dash, two digits, a dash and two digits.
#[verifier::external_body]
fn regex_is_match(pattern: &str, text: &str) -> (r: bool)
    requires
        pattern@ == "^[0-9]{4}-[0-9]{2}-[0-9]{2}"@,
    ensures
        r == starts_with_iso_date(text@),
{
    regex::Regex::new(pattern).unwrap().is_match(text)
}

/// The name under which a source file is published: its stem, with a leading
/// date and separator taken off.
pub fn page_name(file_name: &str) -> (r: String)
    ensures
        r@ == display_name(file_name@),
{
    let st = file_stem(file_name);
    let n = chars_of(st.as_str()).len();
    if n >= 11 && regex_is_match("^[0-9]{4}-[0-9]{2}-[0-9]{2}", st.as_str()) {
        slice(st.as_str(), 11, n)
    } else {
        st
    }
}

/// The final segment of a directory path, which names the directory.
pub fn directory_name(path: &str) -> (r: String)
    ensures
        r@ == last_segment(path@),
{
    let v = chars_of(path);
    proof {
        lemma_last_index_bounds(path@, '/');
    }
    match find_last(&v, '/') {
        Some(k) => slice(path, k + 1, v.len()),
        None => slice(path, 0, v.len()),
    }
}

/// The view of an optional text.
pub open spec fn opt_text(o: Option<String>) -> Option<Seq<char>> {
    match o {
        Some(s) => Some(s@),
        None => None,
    }
}

pub open spec fn join_path(a: Seq<char>, b: Seq<char>) -> Seq<char> {
    a + seq!['/'] + b
}

/// The directory a pass writes into: the output root, or the subdirectory
/// of it named after the pass's source directory.
pub open spec fn pass_dir(root: Seq<char>, sub: Option<Seq<char>>) -> Seq<char> {
    match sub {
        Some(d) => join_path(root, d),
        None => root,
    }
}

/// The start of every public URL of a pass: `/` or `/sub/`.
pub open spec fn url_base(sub: Option<Seq<char>>) -> Seq<char> {
    match sub {
        Some(d) => seq!['/'] + d + seq!['/'],
        None => seq!['/'],
    }
}

/// A page gets a directory of its own: directory-per-page mode, and not the index page.
pub open spec fn own_directory(name: Seq<char>, per_page: bool) -> bool {
    per_page && name != "index"@
}

/// The file a page is written to.
pub open spec fn output_file(root: Seq<char>, sub: Option<Seq<char>>, name: Seq<char>, per_page: bool) -> Seq<char> {
    if own_directory(name, per_page) {
        join_path(join_path(pass_dir(root, sub), name), "index.html"@)
    } else {
        join_path(pass_dir(root, sub), name + ".html"@)
    }
}

/// The URL a page is published under.
pub open spec fn public_url(sub: Option<Seq<char>>, name: Seq<char>, per_page: bool) -> Seq<char> {
    if per_page {
        if name == "index"@ {
            url_base(sub)
        } else {
            url_base(sub) + name
        }
    } else {
        url_base(sub) + name + ".html"@
    }
}

/// The directory made for a page, if one is: none where the page's name is
/// that of the post collection, whose directory already exists.
pub open spec fn new_directory(
    root: Seq<char>,
    sub: Option<Seq<char>>,
    name: Seq<char>,
    per_page: bool,
    collection: Option<Seq<char>>,
) -> Option<Seq<char>> {
    if own_directory(name, per_page) && collection != Some(name) {
        Some(join_path(pass_dir(root, sub), name))
    } else {
        None
    }
}

/// Where a page goes: the file, its URL, and the directory made for it.
pub struct OutputTarget {
    pub file: String,
    pub url: String,
    pub new_dir: Option<String>,
}

/// `a/b`.
pub fn path_join(a: &str, b: &str) -> (r: String)
    ensures
        r@ == join_path(a@, b@),
{
    proof {
        reveal_strlit("/");
    }
    let r = join2(join2(a, "/").as_str(), b);
    assert(r@ =~= join_path(a@, b@));
    r
}

/// The directory a pass writes into.
pub fn pass_directory(root: &str, sub: &Option<String>) -> (r: String)
    ensures
        r@ == pass_dir(root@, opt_text(*sub)),
{
    match sub {
        Some(d) => path_join(root, d.as_str()),
        None => String::from_str(root),
    }
}

fn url_start(sub: &Option<String>) -> (r: String)
    ensures
        r@ == url_base(opt_text(*sub)),
{
    match sub {
        Some(d) => {
            let r = join2(join2("/", d.as_str()).as_str(), "/");
            proof {
                reveal_strlit("/");
            }
            r
        },
        None => {
            proof {
                reveal_strlit("/");
            }
            String::from_str("/")
        },
    }
}

/// Output file, URL and new directory of a page named `name`, in a pass that
/// writes into `sub` under `root`.
pub fn resolve_output(
    root: &str,
    sub: &Option<String>,
    name: &str,
    per_page: bool,
    collection: &Option<String>,
) -> (r: OutputTarget)
    ensures
        r.file@ == output_file(root@, opt_text(*sub), name@, per_page),
        r.url@ == public_url(opt_text(*sub), name@, per_page),
        opt_text(r.new_dir) == new_directory(root@, opt_text(*sub), name@, per_page, opt_text(*collection)),
{
    proof {
        reveal_strlit("/");
    }
    let dir = pass_directory(root, sub);
    let is_index = same(name, "index");
    let base = url_start(sub);
    if per_page && !is_index {
        let page_dir = path_join(dir.as_str(), name);
        let file = path_join(page_dir.as_str(), "index.html");
        let url = join2(base.as_str(), name);
        let shared = match collection {
            Some(c) => same(c.as_str(), name),
            None => false,
        };
        let new_dir = if shared { None } else { Some(page_dir) };
        OutputTarget { file, url, new_dir }
    } else {
        let file = path_join(dir.as_str(), join2(name, ".html").as_str());
        let url = if per_page { base } else { join2(join2(base.as_str(), name).as_str(), ".html") };
        OutputTarget { file, url, new_dir: None }
    }
}

} // verus!
