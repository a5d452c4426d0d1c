//! Compiling one source document: front matter, markdown, templates, style,
//! post list and minification, in that order.

use crate::dates::{is_iso_date_text, iso_shaped, iso_value, parse_ymd, Date};
use crate::document::{dates_wf, views, CompilationResult, FrontMatter, ResultView};
use crate::paths::opt_text;
use crate::post_list::{post_list_text, render_post_list};
use crate::template::{
    compose, composed, meta_view, post_list_token, style_token, PageMeta,
};
use crate::text::{contains, occurs_in, replace_all, replaced};
use vstd::prelude::*;

verus! {

/// Why a document could not be compiled.
#[derive(Clone, Copy, Debug, PartialEq, Eq, Structural)]
pub enum CompileError {
    /// Front matter was asked for and the text does not open with a valid block.
    MissingFrontMatter,
    /// The front matter's date is not a `YYYY-MM-DD` calendar date.
    InvalidDate,
    /// The minifier rejected the HTML.
    Minify,
}

/// The one configuration value of a build, shared by both passes.
#[derive(Clone, Debug)]
pub struct SiteSettings {
    /// The directory the site is written to.
    pub output_root: String,
    /// The page template every document is composed into.
    pub parent_template: String,
    /// The stylesheet put in at `{{style}}`, if one is configured.
    pub style: Option<String>,
    /// The template of one post-list entry; empty for the default fragment.
    pub list_template: String,
    pub directory_per_page: bool,
    pub minify: bool,
    /// The base name of the post directory, if posts are built.
    pub collection_dir: Option<String>,
}

/// What the front matter parser makes of a text: title, date text and body,
/// or nothing where the text does not open with a valid block.
pub uninterp spec fn front_matter_of(raw: Seq<char>) -> Option<(Option<Seq<char>>, Option<Seq<char>>, Seq<char>)>;

/// What the HTML minifier makes of a page, or nothing where it fails.
pub uninterp spec fn minified(html: Seq<char>) -> Option<Seq<char>>;

/// Relies on gray_matter's `Matter::<YAML>::parse`, reading `title` and
/// `date` out of the block as optional strings as serde would for a struct.
#[verifier::external_body]
fn split_front_matter(raw: &str) -> (r: Option<(FrontMatter, String)>)
    ensures
        match r {
            Some((fm, body)) => front_matter_of(raw@) == Some((opt_text(fm.title), opt_text(fm.date), body@)),
            None => front_matter_of(raw@) is None,
        },
{
    let entity = gray_matter::Matter::<gray_matter::engine::YAML>::new().parse(raw);
    let fields = entity.data?.as_hashmap().ok()?;
    let field = |k: &str| fields.get(k).map(|p| p.deserialize::<Option<String>>()).transpose();
    let title = field("title").ok()?.flatten();
    let date = field("date").ok()?.flatten();
    Some((FrontMatter { title, date }, entity.content))
}

/// Relies on html-minifier's `HTMLMinifier::digest` and `get_html`.
#[verifier::external_body]
fn minify_html(html: &str) -> (r: Option<String>)
    ensures
        opt_text(r) == minified(html@),
{
    let mut minifier = html_minifier::HTMLMinifier::new();
    minifier.digest(html).ok()?;
    String::from_utf8(minifier.get_html().to_vec()).ok()
}

pub open spec fn untitled() -> Seq<char> {
    "Untitled"@
}

pub open spec fn epoch_text() -> Seq<char> {
    "1970-01-01"@
}

/// A source document with its front matter read: the markdown still to be
/// rendered, and the title and date of a post.
pub struct Prepared {
    pub body: String,
    pub title: Option<String>,
    pub date: Option<Date>,
}

pub struct PreparedView {
    pub body: Seq<char>,
    pub title: Option<Seq<char>>,
    pub date: Option<Date>,
}

impl View for Prepared {
    type V = PreparedView;

    open spec fn view(&self) -> PreparedView {
        PreparedView { body: self.body@, title: opt_text(self.title), date: self.date }
    }
}

/// A document's text split into metadata and body: the whole text is the
/// body without front matter; with it, a missing title reads `Untitled` and a
/// missing date 1970-01-01, and a date that is not exactly `YYYY-MM-DD` of an
/// existing day is an error.
pub open spec fn prepared_of(raw: Seq<char>, with_fm: bool) -> Result<PreparedView, CompileError> {
    if with_fm {
        match front_matter_of(raw) {
            None => Err(CompileError::MissingFrontMatter),
            Some((t, d, body)) => {
                let title = match t {
                    Some(x) => x,
                    None => untitled(),
                };
                let date_text = match d {
                    Some(x) => x,
                    None => epoch_text(),
                };
                if iso_shaped(date_text) && iso_value(date_text).wf() {
                    Ok(PreparedView { body, title: Some(title), date: Some(iso_value(date_text)) })
                } else {
                    Err(CompileError::InvalidDate)
                }
            },
        }
    } else {
        Ok(PreparedView { body: raw, title: None, date: None })
    }
}

/// The page's metadata for its templates: a post's title and date, used only
/// where an item template is given.
pub open spec fn meta_of(p: PreparedView, item: Option<Seq<char>>) -> Option<(Seq<char>, Date)> {
    match (item, p.title, p.date) {
        (Some(_), Some(t), Some(d)) => Some((t, d)),
        _ => None,
    }
}

/// The page with the stylesheet put in, where one is configured.
pub open spec fn styled(html: Seq<char>, style: Option<Seq<char>>) -> Seq<char> {
    match style {
        Some(s) => replaced(html, style_token(), s),
        None => html,
    }
}

/// The page with the post list put in, where it asks for one and posts are given.
pub open spec fn listed(html: Seq<char>, template: Seq<char>, posts: Option<Seq<ResultView>>) -> Seq<char> {
    match posts {
        Some(ps) => if occurs_in(html, post_list_token()) {
            replaced(html, post_list_token(), post_list_text(template, ps))
        } else {
            html
        },
        None => html,
    }
}

pub open spec fn opt_views(posts: Option<Vec<CompilationResult>>) -> Option<Seq<ResultView>> {
    match posts {
        Some(ps) => Some(views(ps@)),
        None => None,
    }
}

/// The outcome of compiling a prepared document, given the HTML that its
/// body renders to.
pub open spec fn compiled(
    p: PreparedView,
    rendered: Seq<char>,
    item: Option<Seq<char>>,
    s: SiteSettings,
    posts: Option<Seq<ResultView>>,
) -> Result<ResultView, CompileError> {
    let meta = meta_of(p, item);
    let h0 = composed(s.parent_template@, item, rendered, meta);
    let h = listed(styled(h0, opt_text(s.style)), s.list_template@, posts);
    let out = if s.minify { minified(h) } else { Some(h) };
    match out {
        Some(m) => Ok(ResultView {
            html: m,
            plain: p.body,
            title: match meta { Some((t, _)) => Some(t), None => None },
            date: match meta { Some((_, d)) => Some(d), None => None },
            url: None,
        }),
        None => Err(CompileError::Minify),
    }
}

/// Reads a document's front matter, if asked to.
pub fn prepare_document(raw: &str, with_front_matter: bool) -> (r: Result<Prepared, CompileError>)
    ensures
        match r {
            Ok(p) => prepared_of(raw@, with_front_matter) == Ok::<PreparedView, CompileError>(p@),
            Err(e) => prepared_of(raw@, with_front_matter) == Err::<PreparedView, CompileError>(e),
        },
        r matches Ok(p) ==> (p.date matches Some(d) ==> d.wf()),
{
    if with_front_matter {
        let (fm, body) = match split_front_matter(raw) {
            Some(p) => p,
            None => {
                return Err(CompileError::MissingFrontMatter);
            },
        };
        let title = match fm.title {
            Some(t) => t,
            None => String::from_str("Untitled"),
        };
        let date_text = match fm.date {
            Some(d) => d,
            None => String::from_str("1970-01-01"),
        };
        if !is_iso_date_text(date_text.as_str()) {
            return Err(CompileError::InvalidDate);
        }
        let date = match parse_ymd(date_text.as_str()) {
            Some(d) => d,
            None => {
                return Err(CompileError::InvalidDate);
            },
        };
        Ok(Prepared { body, title: Some(title), date: Some(date) })
    } else {
        Ok(Prepared { body: String::from_str(raw), title: None, date: None })
    }
}

/// Composes a prepared document, whose body rendered to `rendered`, into
/// the templates, then puts in the stylesheet and the post list and minifies
/// as the settings ask. The URL is left for the build stage.
pub fn compile_document(
    prepared: &Prepared,
    rendered: &str,
    item: &Option<String>,
    settings: &SiteSettings,
    posts: &Option<Vec<CompilationResult>>,
) -> (r: Result<CompilationResult, CompileError>)
    requires
        prepared.date matches Some(d) ==> d.wf(),
        posts matches Some(ps) ==> dates_wf(views(ps@)),
    ensures
        match r {
            Ok(c) => compiled(prepared@, rendered@, opt_text(*item), *settings, opt_views(*posts)) == Ok::<ResultView, CompileError>(c@),
            Err(e) => compiled(prepared@, rendered@, opt_text(*item), *settings, opt_views(*posts)) == Err::<ResultView, CompileError>(e),
        },
        r matches Ok(c) ==> (c.date matches Some(d) ==> d.wf()),
{
    proof {
        reveal_strlit("{{style}}");
        reveal_strlit("{{post_list}}");
    }
    let meta = match (item, &prepared.title, &prepared.date) {
        (Some(_), Some(t), Some(d)) => Some(PageMeta { title: t.clone(), date: *d }),
        _ => None,
    };
    assert(meta_view(meta) == meta_of(prepared@, opt_text(*item)));
    let mut html = compose(settings.parent_template.as_str(), item, rendered, &meta);
    proof {
        assert(match item { Some(t) => Some(t@), None => None::<Seq<char>> } == opt_text(*item));
    }
    if let Some(style) = &settings.style {
        html = replace_all(html.as_str(), "{{style}}", style.as_str());
    }
    if let Some(ps) = posts {
        if contains(html.as_str(), "{{post_list}}") {
            let list = render_post_list(settings.list_template.as_str(), ps);
            html = replace_all(html.as_str(), "{{post_list}}", list.as_str());
        }
    }
    if settings.minify {
        match minify_html(html.as_str()) {
            Some(m) => {
                html = m;
            },
            None => {
                return Err(CompileError::Minify);
            },
        }
    }
    let (title, date) = match meta {
        Some(m) => (Some(m.title), Some(m.date)),
        None => (None, None),
    };
    Ok(CompilationResult { html, plain: prepared.body.clone(), title, date, url: None })
}

} // verus!
