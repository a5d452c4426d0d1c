//! The build stage: one procedure, run once over the post directory and once
//! over the top-level pages. It reads each markdown or text source, compiles
//! it, and plans the directories and files that the caller then creates.

use crate::compile::{
    compile_document, compiled, opt_views, prepare_document, prepared_of, CompileError, Prepared,
    PreparedView, SiteSettings,
};
use crate::document::{dates_wf, views, CompilationResult, ResultView};
use crate::paths::{
    display_name, is_page_source, is_source_file, join_path, new_directory, opt_text, output_file, page_name,
    pass_dir, pass_directory, public_url, resolve_output,
};
use crate::text::chars_of;
use vstd::multiset::Multiset;
use vstd::prelude::*;

verus! {

/// A source file as the caller read it: its file name and its text.
#[derive(Clone, Debug)]
pub struct SourceDocument {
    pub file_name: String,
    pub content: String,
}

/// `a` comes no later than `b` in character order, a prefix first.
pub open spec fn text_le(a: Seq<char>, b: Seq<char>) -> bool
    decreases a.len(),
{
    if a.len() == 0 {
        true
    } else if b.len() == 0 {
        false
    } else if a[0] != b[0] {
        a[0] < b[0]
    } else {
        text_le(a.drop_first(), b.drop_first())
    }
}

proof fn lemma_text_le_total(a: Seq<char>, b: Seq<char>)
    ensures
        text_le(a, b) || text_le(b, a),
    decreases a.len(),
{
    if a.len() > 0 && b.len() > 0 && a[0] == b[0] {
        lemma_text_le_total(a.drop_first(), b.drop_first());
    }
}

proof fn lemma_text_le_trans(a: Seq<char>, b: Seq<char>, c: Seq<char>)
    requires
        text_le(a, b),
        text_le(b, c),
    ensures
        text_le(a, c),
    decreases a.len(),
{
    if a.len() > 0 && b.len() > 0 && c.len() > 0 && a[0] == b[0] && b[0] == c[0] {
        lemma_text_le_trans(a.drop_first(), b.drop_first(), c.drop_first());
    }
}

proof fn lemma_text_le_skip(a: Seq<char>, b: Seq<char>, i: int)
    requires
        0 <= i <= a.len(),
        i <= b.len(),
        a.subrange(0, i) == b.subrange(0, i),
    ensures
        text_le(a, b) == text_le(a.subrange(i, a.len() as int), b.subrange(i, b.len() as int)),
    decreases i,
{
    if i > 0 {
        assert(a[0] == a.subrange(0, i)[0]);
        assert(b[0] == b.subrange(0, i)[0]);
        let a1 = a.drop_first();
        let b1 = b.drop_first();
        assert(a1.subrange(0, i - 1) =~= a.subrange(0, i).drop_first());
        assert(b1.subrange(0, i - 1) =~= b.subrange(0, i).drop_first());
        lemma_text_le_skip(a1, b1, i - 1);
        assert(a1.subrange(i - 1, a1.len() as int) =~= a.subrange(i, a.len() as int));
        assert(b1.subrange(i - 1, b1.len() as int) =~= b.subrange(i, b.len() as int));
    } else {
        assert(a.subrange(0, a.len() as int) =~= a);
        assert(b.subrange(0, b.len() as int) =~= b);
    }
}

proof fn lemma_text_le_antisym(a: Seq<char>, b: Seq<char>)
    requires
        text_le(a, b),
        text_le(b, a),
    ensures
        a == b,
    decreases a.len(),
{
    if a.len() > 0 && b.len() > 0 {
        lemma_text_le_antisym(a.drop_first(), b.drop_first());
        assert(a =~= seq![a[0]] + a.drop_first());
        assert(b =~= seq![b[0]] + b.drop_first());
    }
}

/// Whether `a` comes no later than `b` in character order.
pub fn name_le(a: &str, b: &str) -> (r: bool)
    ensures
        r == text_le(a@, b@),
{
    let av = chars_of(a);
    let bv = chars_of(b);
    let mut i: usize = 0;
    while i < av.len() && i < bv.len() && av[i] == bv[i]
        invariant
            av@ == a@,
            bv@ == b@,
            i <= av@.len(),
            i <= bv@.len(),
            a@.subrange(0, i as int) == b@.subrange(0, i as int),
        decreases av@.len() - i,
    {
        proof {
            assert(a@.subrange(0, i + 1) =~= a@.subrange(0, i as int).push(a@[i as int]));
            assert(b@.subrange(0, i + 1) =~= b@.subrange(0, i as int).push(b@[i as int]));
        }
        i = i + 1;
    }
    proof {
        lemma_text_le_skip(a@, b@, i as int);
    }
    let ghost ar = a@.subrange(i as int, a@.len() as int);
    let ghost br = b@.subrange(i as int, b@.len() as int);
    if i == av.len() {
        assert(ar.len() == 0);
        true
    } else if i == bv.len() {
        assert(br.len() == 0);
        false
    } else {
        assert(ar[0] == av@[i as int]);
        assert(br[0] == bv@[i as int]);
        av[i] < bv[i]
    }
}

/// Names in descending character order: for dated names, newest first.
pub open spec fn sorted_desc(docs: Seq<SourceDocument>) -> bool {
    forall|i: int, j: int| 0 <= i < j < docs.len() ==> text_le(#[trigger] docs[j].file_name@, #[trigger] docs[i].file_name@)
}

/// The documents of a directory, ordered by name from last to first.
pub fn sort_sources(docs: Vec<SourceDocument>) -> (r: Vec<SourceDocument>)
    ensures
        r@.to_multiset() == docs@.to_multiset(),
        sorted_desc(r@),
{
    broadcast use vstd::seq_lib::group_to_multiset_ensures, vstd::multiset::group_multiset_axioms;

    let mut rest = docs;
    let mut out: Vec<SourceDocument> = Vec::new();
    while rest.len() > 0
        invariant
            rest@.to_multiset().add(out@.to_multiset()) == docs@.to_multiset(),
            sorted_desc(out@),
        decreases rest@.len(),
    {
        let ghost before_rest = rest@;
        let x = rest.pop().unwrap();
        proof {
            assert(before_rest =~= rest@.push(x));
        }
        let mut j: usize = 0;
        while j < out.len() && !name_le(out[j].file_name.as_str(), x.file_name.as_str())
            invariant
                j <= out@.len(),
                forall|k: int| 0 <= k < j ==> text_le(x.file_name@, #[trigger] out@[k].file_name@),
            decreases out@.len() - j,
        {
            proof {
                lemma_text_le_total(out@[j as int].file_name@, x.file_name@);
            }
            j = j + 1;
        }
        let ghost old_out = out@;
        proof {
            if j < out@.len() {
                assert forall|k: int| j <= k < old_out.len() implies text_le(#[trigger] old_out[k].file_name@, x.file_name@) by {
                    if k > j {
                        lemma_text_le_trans(old_out[k].file_name@, old_out[j as int].file_name@, x.file_name@);
                    }
                }
            }
        }
        out.insert(j, x);
        proof {
            assert(out@ == old_out.insert(j as int, x));
            assert forall|a: int, b: int| 0 <= a < b < out@.len() implies text_le(#[trigger] out@[b].file_name@, #[trigger] out@[a].file_name@) by {
                if a < j && b == j {
                    assert(out@[a] == old_out[a]);
                    assert(out@[b] == x);
                } else if a < j && b > j {
                    assert(out@[a] == old_out[a]);
                    assert(out@[b] == old_out[b - 1]);
                    assert(text_le(x.file_name@, old_out[a].file_name@));
                    lemma_text_le_trans(old_out[b - 1].file_name@, x.file_name@, old_out[a].file_name@);
                } else if a == j {
                    assert(out@[a] == x);
                    assert(out@[b] == old_out[b - 1]);
                    assert(text_le(old_out[b - 1].file_name@, x.file_name@));
                } else if b < j {
                    assert(out@[a] == old_out[a]);
                    assert(out@[b] == old_out[b]);
                } else {
                    assert(out@[b] == old_out[b - 1]);
                    assert(out@[a] == old_out[a - 1]);
                }
            }
            vstd::seq_lib::to_multiset_insert(old_out, j as int, x);
            vstd::seq_lib::to_multiset_build(rest@, x);
            assert(rest@.to_multiset().add(out@.to_multiset()) =~= docs@.to_multiset());
        }
    }
    proof {
        assert(rest@ =~= Seq::<SourceDocument>::empty());
        assert(rest@.to_multiset() =~= Multiset::<SourceDocument>::empty());
    }
    out
}

/// No two documents share a file name, as in one directory.
pub open spec fn names_distinct(docs: Seq<SourceDocument>) -> bool {
    forall|i: int, j: int| 0 <= i < docs.len() && 0 <= j < docs.len() && i != j ==> #[trigger] docs[i].file_name@ != #[trigger] docs[j].file_name@
}

/// The order in which a directory lists its files does not matter: any two
/// orderings of the same files, each sorted by name from last to first, are
/// the same sequence, and so is everything a build computes from it.
pub proof fn lemma_listing_order_irrelevant(a: Seq<SourceDocument>, b: Seq<SourceDocument>)
    requires
        a.to_multiset() == b.to_multiset(),
        names_distinct(a),
        sorted_desc(a),
        sorted_desc(b),
    ensures
        a == b,
    decreases a.len(),
{
    broadcast use vstd::seq_lib::group_to_multiset_ensures, vstd::multiset::group_multiset_axioms;

    vstd::seq_lib::to_multiset_len(a);
    vstd::seq_lib::to_multiset_len(b);
    if a.len() == 0 {
        assert(b.len() == 0);
        assert(a =~= b);
    } else {
        assert(b.len() == a.len());
        assert(a.to_multiset().contains(b[0]));
        let k = choose|k: int| 0 <= k < a.len() && a[k] == b[0];
        assert(b.to_multiset().contains(a[0]));
        let m = choose|m: int| 0 <= m < b.len() && b[m] == a[0];
        if m > 0 {
            assert(text_le(b[m].file_name@, b[0].file_name@));
        } else {
            assert(text_le(b[0].file_name@, b[0].file_name@)) by {
                lemma_text_le_total(b[0].file_name@, b[0].file_name@);
            }
        }
        if k > 0 {
            assert(text_le(a[k].file_name@, a[0].file_name@));
            lemma_text_le_antisym(a[k].file_name@, a[0].file_name@);
        }
        assert(a[0] == b[0]);
        vstd::seq_lib::to_multiset_remove(a, 0);
        vstd::seq_lib::to_multiset_remove(b, 0);
        assert(a.remove(0) =~= a.drop_first());
        assert(b.remove(0) =~= b.drop_first());
        let a1 = a.drop_first();
        let b1 = b.drop_first();
        assert forall|i: int, j: int| 0 <= i < j < a1.len() implies text_le(#[trigger] a1[j].file_name@, #[trigger] a1[i].file_name@) by {
            assert(a1[i] == a[i + 1] && a1[j] == a[j + 1]);
        }
        assert forall|i: int, j: int| 0 <= i < j < b1.len() implies text_le(#[trigger] b1[j].file_name@, #[trigger] b1[i].file_name@) by {
            assert(b1[i] == b[i + 1] && b1[j] == b[j + 1]);
        }
        assert forall|i: int, j: int| 0 <= i < a1.len() && 0 <= j < a1.len() && i != j implies #[trigger] a1[i].file_name@ != #[trigger] a1[j].file_name@ by {
            assert(a1[i] == a[i + 1] && a1[j] == a[j + 1]);
        }
        lemma_listing_order_irrelevant(a1, b1);
        assert(a =~= seq![a[0]] + a1);
        assert(b =~= seq![b[0]] + b1);
    }
}

/// A compiled source's name and prepared text, waiting for its body to be rendered.
pub struct PendingPage {
    pub name: String,
    pub prepared: Prepared,
}

/// A change to the output tree.
#[derive(Clone, Debug)]
pub enum Action {
    CreateDir(String),
    WriteFile(String, String),
}

pub enum ActionView {
    CreateDir(Seq<char>),
    WriteFile(Seq<char>, Seq<char>),
}

impl View for Action {
    type V = ActionView;

    open spec fn view(&self) -> ActionView {
        match self {
            Action::CreateDir(d) => ActionView::CreateDir(d@),
            Action::WriteFile(f, c) => ActionView::WriteFile(f@, c@),
        }
    }
}

/// What one pass produces: its results in input order, and the changes to
/// the output tree in the order they are to be made.
pub struct PassOutput {
    pub results: Vec<CompilationResult>,
    pub actions: Vec<Action>,
}

pub open spec fn doc_views(docs: Seq<SourceDocument>) -> Seq<(Seq<char>, Seq<char>)> {
    docs.map_values(|d: SourceDocument| (d.file_name@, d.content@))
}

pub open spec fn pending_views(ps: Seq<PendingPage>) -> Seq<(Seq<char>, PreparedView)> {
    ps.map_values(|p: PendingPage| (p.name@, p.prepared@))
}

pub open spec fn action_views(a: Seq<Action>) -> Seq<ActionView> {
    a.map_values(|x: Action| x@)
}

/// The pages a pass compiles, in input order: each markdown or text source
/// under its display name with its front matter read; the first failure in
/// order where one fails.
pub open spec fn planned(docs: Seq<(Seq<char>, Seq<char>)>, with_fm: bool) -> Result<Seq<(Seq<char>, PreparedView)>, CompileError>
    decreases docs.len(),
{
    if docs.len() == 0 {
        Ok(Seq::empty())
    } else {
        match planned(docs.drop_last(), with_fm) {
            Err(e) => Err(e),
            Ok(ps) => {
                let (name, content) = docs.last();
                if is_page_source(name) {
                    match prepared_of(content, with_fm) {
                        Err(e) => Err(e),
                        Ok(p) => Ok(ps.push((display_name(name), p))),
                    }
                } else {
                    Ok(ps)
                }
            },
        }
    }
}

/// The sources among `docs`, in order.
pub open spec fn sources_only(docs: Seq<(Seq<char>, Seq<char>)>) -> Seq<(Seq<char>, Seq<char>)>
    decreases docs.len(),
{
    if docs.len() == 0 {
        Seq::empty()
    } else if is_page_source(docs.last().0) {
        sources_only(docs.drop_last()).push(docs.last())
    } else {
        sources_only(docs.drop_last())
    }
}

/// Files whose extension is neither `md` nor `txt` have no part in a pass:
/// the pages planned from a directory are those planned from its sources alone.
pub proof fn lemma_only_sources_compiled(docs: Seq<(Seq<char>, Seq<char>)>, with_fm: bool)
    ensures
        planned(docs, with_fm) == planned(sources_only(docs), with_fm),
    decreases docs.len(),
{
    if docs.len() > 0 {
        lemma_only_sources_compiled(docs.drop_last(), with_fm);
        if is_page_source(docs.last().0) {
            let s = sources_only(docs.drop_last()).push(docs.last());
            assert(s.drop_last() =~= sources_only(docs.drop_last()));
        }
    }
}

/// A page's display name does not depend on whether its front matter is
/// read: where both readings succeed, they name the same pages alike.
pub proof fn lemma_names_independent_of_front_matter(docs: Seq<(Seq<char>, Seq<char>)>)
    requires
        planned(docs, true) is Ok,
        planned(docs, false) is Ok,
    ensures
        planned(docs, true)->Ok_0.len() == planned(docs, false)->Ok_0.len(),
        forall|i: int| 0 <= i < planned(docs, true)->Ok_0.len() ==>
            (#[trigger] planned(docs, true)->Ok_0[i]).0 == planned(docs, false)->Ok_0[i].0,
    decreases docs.len(),
{
    if docs.len() > 0 {
        lemma_names_independent_of_front_matter(docs.drop_last());
    }
}

proof fn lemma_planned_err(docs: Seq<(Seq<char>, Seq<char>)>, k: int, with_fm: bool)
    requires
        0 <= k <= docs.len(),
        planned(docs.subrange(0, k), with_fm) is Err,
    ensures
        planned(docs, with_fm) == planned(docs.subrange(0, k), with_fm),
    decreases docs.len() - k,
{
    if k < docs.len() {
        assert(docs.subrange(0, k + 1).drop_last() =~= docs.subrange(0, k));
        lemma_planned_err(docs, k + 1, with_fm);
    } else {
        assert(docs.subrange(0, k) =~= docs);
    }
}

/// Picks out the sources of a pass, names them and reads their front matter.
pub fn plan_pass(docs: &Vec<SourceDocument>, with_front_matter: bool) -> (r: Result<Vec<PendingPage>, CompileError>)
    ensures
        match r {
            Ok(ps) => planned(doc_views(docs@), with_front_matter) == Ok::<_, CompileError>(pending_views(ps@)),
            Err(e) => planned(doc_views(docs@), with_front_matter) == Err::<Seq<(Seq<char>, PreparedView)>, _>(e),
        },
        r matches Ok(ps) ==> forall|i: int| 0 <= i < ps@.len() ==> (#[trigger] ps@[i].prepared.date matches Some(d) ==> d.wf()),
{
    let ghost dv = doc_views(docs@);
    let mut out: Vec<PendingPage> = Vec::new();
    let mut i: usize = 0;
    proof {
        assert(dv.subrange(0, 0) =~= Seq::<(Seq<char>, Seq<char>)>::empty());
        assert(pending_views(out@) =~= Seq::<(Seq<char>, PreparedView)>::empty());
    }
    while i < docs.len()
        invariant
            i <= docs@.len(),
            dv == doc_views(docs@),
            planned(dv.subrange(0, i as int), with_front_matter) == Ok::<_, CompileError>(pending_views(out@)),
            forall|j: int| 0 <= j < out@.len() ==> (#[trigger] out@[j].prepared.date matches Some(d) ==> d.wf()),
        decreases docs@.len() - i,
    {
        let doc = &docs[i];
        proof {
            assert(dv.subrange(0, i + 1).drop_last() =~= dv.subrange(0, i as int));
            assert(dv.subrange(0, i + 1).last() == (doc.file_name@, doc.content@));
        }
        if is_source_file(doc.file_name.as_str()) {
            match prepare_document(doc.content.as_str(), with_front_matter) {
                Ok(p) => {
                    let name = page_name(doc.file_name.as_str());
                    let ghost old_out = out@;
                    out.push(PendingPage { name, prepared: p });
                    proof {
                        assert(pending_views(out@) =~= pending_views(old_out).push((display_name(doc.file_name@), p@)));
                    }
                },
                Err(e) => {
                    proof {
                        lemma_planned_err(dv, i + 1, with_front_matter);
                    }
                    return Err(e);
                },
            }
        }
        i = i + 1;
    }
    proof {
        assert(dv.subrange(0, i as int) =~= dv);
    }
    Ok(out)
}

/// A compiled page with its public URL set.
pub open spec fn with_url(v: ResultView, url: Seq<char>) -> ResultView {
    ResultView { html: v.html, plain: v.plain, title: v.title, date: v.date, url: Some(url) }
}

pub open spec fn text_views(v: Seq<String>) -> Seq<Seq<char>> {
    v.map_values(|s: String| s@)
}

/// The results of the first `n` pages of a pass, each with its URL; the
/// first failure in order where one fails.
pub open spec fn built(
    pages: Seq<(Seq<char>, PreparedView)>,
    rendered: Seq<Seq<char>>,
    item: Option<Seq<char>>,
    s: SiteSettings,
    sub: Option<Seq<char>>,
    posts: Option<Seq<ResultView>>,
    n: nat,
) -> Result<Seq<ResultView>, CompileError>
    decreases n,
{
    if n == 0 {
        Ok(Seq::empty())
    } else {
        match built(pages, rendered, item, s, sub, posts, (n - 1) as nat) {
            Err(e) => Err(e),
            Ok(rs) => match compiled(pages[n - 1].1, rendered[n - 1], item, s, posts) {
                Err(e) => Err(e),
                Ok(v) => Ok(rs.push(with_url(v, public_url(sub, pages[n - 1].0, s.directory_per_page)))),
            },
        }
    }
}

/// The changes one page makes: its own directory where it gets a new one,
/// then its file.
pub open spec fn page_actions(s: SiteSettings, sub: Option<Seq<char>>, name: Seq<char>, html: Seq<char>) -> Seq<ActionView> {
    let write = seq![ActionView::WriteFile(output_file(s.output_root@, sub, name, s.directory_per_page), html)];
    match new_directory(s.output_root@, sub, name, s.directory_per_page, opt_text(s.collection_dir)) {
        Some(d) => seq![ActionView::CreateDir(d)] + write,
        None => write,
    }
}

/// The changes of a sequence of named pages, in order.
pub open spec fn pages_actions(s: SiteSettings, sub: Option<Seq<char>>, pages: Seq<(Seq<char>, Seq<char>)>) -> Seq<ActionView>
    decreases pages.len(),
{
    if pages.len() == 0 {
        Seq::empty()
    } else {
        pages_actions(s, sub, pages.drop_last()) + page_actions(s, sub, pages.last().0, pages.last().1)
    }
}

/// Each page's name beside its compiled HTML.
pub open spec fn named_html(pages: Seq<(Seq<char>, PreparedView)>, rs: Seq<ResultView>, n: nat) -> Seq<(Seq<char>, Seq<char>)> {
    Seq::new(n, |j: int| (pages[j].0, rs[j].html))
}

/// All changes of a pass: the pass's own subdirectory first, if it has one.
pub open spec fn pass_actions(
    s: SiteSettings,
    sub: Option<Seq<char>>,
    pages: Seq<(Seq<char>, PreparedView)>,
    rs: Seq<ResultView>,
) -> Seq<ActionView> {
    let head = match sub {
        Some(_) => seq![ActionView::CreateDir(pass_dir(s.output_root@, sub))],
        None => Seq::empty(),
    };
    head + pages_actions(s, sub, named_html(pages, rs, pages.len()))
}

proof fn lemma_built_err(
    pages: Seq<(Seq<char>, PreparedView)>,
    rendered: Seq<Seq<char>>,
    item: Option<Seq<char>>,
    s: SiteSettings,
    sub: Option<Seq<char>>,
    posts: Option<Seq<ResultView>>,
    k: nat,
    n: nat,
)
    requires
        k <= n,
        built(pages, rendered, item, s, sub, posts, k) is Err,
    ensures
        built(pages, rendered, item, s, sub, posts, n) == built(pages, rendered, item, s, sub, posts, k),
    decreases n,
{
    if k < n {
        lemma_built_err(pages, rendered, item, s, sub, posts, k, (n - 1) as nat);
    }
}

/// A top-level page named like the post collection gets no directory of its
/// own in directory-per-page mode: its one change is to write `index.html`
/// into the collection's directory, which the collection pass creates first.
pub proof fn lemma_page_shares_collection_directory(
    s: SiteSettings,
    name: Seq<char>,
    html: Seq<char>,
    posts: Seq<(Seq<char>, PreparedView)>,
    post_results: Seq<ResultView>,
)
    requires
        s.directory_per_page,
        opt_text(s.collection_dir) == Some(name),
        name != "index"@,
    ensures
        new_directory(s.output_root@, None, name, true, opt_text(s.collection_dir)) is None,
        page_actions(s, None, name, html) == seq![
            ActionView::WriteFile(join_path(pass_dir(s.output_root@, Some(name)), "index.html"@), html),
        ],
        pass_actions(s, Some(name), posts, post_results)[0] == ActionView::CreateDir(pass_dir(s.output_root@, Some(name))),
{
    let head = seq![ActionView::CreateDir(pass_dir(s.output_root@, Some(name)))];
    assert((head + pages_actions(s, Some(name), named_html(posts, post_results, posts.len())))[0] == head[0]);
}

/// A pass run twice on the same inputs yields the same results and the same
/// changes to the output tree.
pub proof fn lemma_pass_reproducible(
    pages: Seq<(Seq<char>, PreparedView)>,
    rendered: Seq<Seq<char>>,
    item: Option<Seq<char>>,
    s: SiteSettings,
    sub: Option<Seq<char>>,
    posts: Option<Seq<ResultView>>,
    first: Seq<ResultView>,
    second: Seq<ResultView>,
)
    requires
        built(pages, rendered, item, s, sub, posts, pages.len()) == Ok::<_, CompileError>(first),
        built(pages, rendered, item, s, sub, posts, pages.len()) == Ok::<_, CompileError>(second),
    ensures
        first == second,
        pass_actions(s, sub, pages, first) == pass_actions(s, sub, pages, second),
{
}

/// Compiles the pages of one pass, given the HTML each body rendered to, and
/// plans the output tree: the pass's subdirectory if it has one, then for
/// each page its directory where it gets a new one, and its file.
pub fn build_pass(
    pending: &Vec<PendingPage>,
    rendered: &Vec<String>,
    item: &Option<String>,
    settings: &SiteSettings,
    sub: &Option<String>,
    posts: &Option<Vec<CompilationResult>>,
) -> (r: Result<PassOutput, CompileError>)
    requires
        rendered@.len() == pending@.len(),
        forall|i: int| 0 <= i < pending@.len() ==> (#[trigger] pending@[i].prepared.date matches Some(d) ==> d.wf()),
        posts matches Some(ps) ==> dates_wf(views(ps@)),
    ensures
        match r {
            Ok(o) => {
                &&& built(pending_views(pending@), text_views(rendered@), opt_text(*item), *settings, opt_text(*sub),
                    opt_views(*posts), pending@.len()) == Ok::<_, CompileError>(views(o.results@))
                &&& action_views(o.actions@) == pass_actions(*settings, opt_text(*sub), pending_views(pending@), views(o.results@))
            },
            Err(e) => built(pending_views(pending@), text_views(rendered@), opt_text(*item), *settings, opt_text(*sub),
                opt_views(*posts), pending@.len()) == Err::<Seq<ResultView>, _>(e),
        },
        r matches Ok(o) ==> dates_wf(views(o.results@)),
{
    let ghost pv = pending_views(pending@);
    let ghost rv = text_views(rendered@);
    let ghost sv = opt_text(*sub);
    let mut results: Vec<CompilationResult> = Vec::new();
    let mut actions: Vec<Action> = Vec::new();
    if sub.is_some() {
        actions.push(Action::CreateDir(pass_directory(settings.output_root.as_str(), sub)));
    }
    let ghost head = action_views(actions@);
    proof {
        assert(views(results@) =~= Seq::<ResultView>::empty());
        assert(named_html(pv, views(results@), 0) =~= Seq::<(Seq<char>, Seq<char>)>::empty());
        assert(action_views(actions@) =~= head + pages_actions(*settings, sv, named_html(pv, views(results@), 0)));
        assert(head =~= pass_actions(*settings, sv, pv, views(results@)).subrange(0, head.len() as int));
    }
    let mut i: usize = 0;
    while i < pending.len()
        invariant
            i <= pending@.len(),
            rendered@.len() == pending@.len(),
            pv == pending_views(pending@),
            rv == text_views(rendered@),
            sv == opt_text(*sub),
            results@.len() == i,
            forall|k: int| 0 <= k < pending@.len() ==> (#[trigger] pending@[k].prepared.date matches Some(d) ==> d.wf()),
            posts matches Some(ps) ==> dates_wf(views(ps@)),
            dates_wf(views(results@)),
            head == (match sv {
                Some(_) => seq![ActionView::CreateDir(pass_dir(settings.output_root@, sv))],
                None => Seq::<ActionView>::empty(),
            }),
            built(pv, rv, opt_text(*item), *settings, sv, opt_views(*posts), i as nat) == Ok::<_, CompileError>(views(results@)),
            action_views(actions@) == head + pages_actions(*settings, sv, named_html(pv, views(results@), i as nat)),
        decreases pending@.len() - i,
    {
        let page = &pending[i];
        assert(pending@[i as int].prepared.date matches Some(d) ==> d.wf());
        let compiled_page = compile_document(&page.prepared, rendered[i].as_str(), item, settings, posts);
        proof {
            assert(pv[i as int] == (page.name@, page.prepared@));
            assert(rv[i as int] == rendered@[i as int]@);
        }
        let mut c = match compiled_page {
            Ok(c) => c,
            Err(e) => {
                proof {
                    lemma_built_err(pv, rv, opt_text(*item), *settings, sv, opt_views(*posts), (i + 1) as nat, pending@.len() as nat);
                }
                return Err(e);
            },
        };
        let target = resolve_output(
            settings.output_root.as_str(),
            sub,
            page.name.as_str(),
            settings.directory_per_page,
            &settings.collection_dir,
        );
        let ghost old_actions = actions@;
        let ghost old_rs = views(results@);
        let ghost before = named_html(pv, old_rs, i as nat);
        match target.new_dir {
            Some(d) => {
                actions.push(Action::CreateDir(d));
            },
            None => {},
        }
        actions.push(Action::WriteFile(target.file, c.html.clone()));
        c.url = Some(target.url);
        results.push(c);
        proof {
            let rs = views(results@);
            assert(rs =~= old_rs.push(rs[i as int]));
            let after = named_html(pv, rs, (i + 1) as nat);
            assert(after.drop_last() =~= before);
            assert(after.last() == (page.name@, rs[i as int].html));
            assert(action_views(actions@) =~= action_views(old_actions) + page_actions(*settings, sv, page.name@, rs[i as int].html));
            assert(action_views(actions@) =~= head + pages_actions(*settings, sv, after));
            assert forall|k: int| 0 <= k < rs.len() implies (#[trigger] rs[k].date matches Some(d) ==> d.wf()) by {
                if k < i {
                    assert(rs[k] == old_rs[k]);
                }
            }
        }
        i = i + 1;
    }
    Ok(PassOutput { results, actions })
}

} // verus!
