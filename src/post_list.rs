//! The post list: one fragment per complete post, in the order given.

use crate::dates::{format_human, format_iso, human_text, iso_text, Date};
use crate::document::{dates_wf, views, CompilationResult, ResultView};
use crate::text::{join2, replace_all, replaced};
use vstd::prelude::*;

verus! {

/// `<time datetime='ISO'>HUMAN</time>`.
pub open spec fn time_element(d: Date) -> Seq<char> {
    "<time datetime='"@ + iso_text(d) + "'>"@ + human_text(d) + "</time>"@
}

/// One post's fragment: the list template filled in when it is not empty,
/// else the default `article` fragment.
pub open spec fn list_entry(template: Seq<char>, url: Seq<char>, title: Seq<char>, d: Date) -> Seq<char> {
    if template.len() > 0 {
        let a = replaced(template, "{{url}}"@, url);
        let b = replaced(a, "{{link}}"@, "<a href='"@ + url + "'>{{title}}</a>"@);
        let c = replaced(b, "{{title}}"@, title);
        replaced(c, "{{date}}"@, time_element(d))
    } else {
        "<article class='post-link'><a href='"@ + url + "'>"@ + title + "</a>"@ + time_element(d)
            + "</article>"@
    }
}

/// A post's fragment, or nothing where it lacks a URL, title or date.
pub open spec fn entry_of(template: Seq<char>, p: ResultView) -> Seq<char> {
    match (p.url, p.title, p.date) {
        (Some(u), Some(t), Some(d)) => list_entry(template, u, t, d),
        _ => Seq::empty(),
    }
}

/// The fragments of all posts, concatenated in order.
pub open spec fn post_list_text(template: Seq<char>, ps: Seq<ResultView>) -> Seq<char>
    decreases ps.len(),
{
    if ps.len() == 0 {
        Seq::empty()
    } else {
        post_list_text(template, ps.drop_last()) + entry_of(template, ps.last())
    }
}

fn render_entry(template: &str, url: &str, title: &str, d: Date) -> (r: String)
    requires
        d.wf(),
    ensures
        r@ == list_entry(template@, url@, title@, d),
{
    proof {
        reveal_strlit("{{url}}");
        reveal_strlit("{{link}}");
        reveal_strlit("{{title}}");
        reveal_strlit("{{date}}");
    }
    let iso = format_iso(d);
    let human = format_human(d);
    let time = join2(
        join2(join2(join2("<time datetime='", iso.as_str()).as_str(), "'>").as_str(), human.as_str()).as_str(),
        "</time>",
    );
    if template.unicode_len() > 0 {
        let link = join2(join2("<a href='", url).as_str(), "'>{{title}}</a>");
        let a = replace_all(template, "{{url}}", url);
        let b = replace_all(a.as_str(), "{{link}}", link.as_str());
        let c = replace_all(b.as_str(), "{{title}}", title);
        let r = replace_all(c.as_str(), "{{date}}", time.as_str());
        proof {
            assert(link@ =~= "<a href='"@ + url@ + "'>{{title}}</a>"@);
        }
        r
    } else {
        let a = join2(join2("<article class='post-link'><a href='", url).as_str(), "'>");
        let b = join2(join2(a.as_str(), title).as_str(), "</a>");
        let r = join2(join2(b.as_str(), time.as_str()).as_str(), "</article>");
        r
    }
}

/// The post list of `posts` under `template` (empty for the default fragment).
pub fn render_post_list(template: &str, posts: &Vec<CompilationResult>) -> (r: String)
    requires
        dates_wf(views(posts@)),
    ensures
        r@ == post_list_text(template@, views(posts@)),
{
    let mut out = String::new();
    let mut i: usize = 0;
    proof {
        assert(views(posts@).subrange(0, 0) =~= Seq::<ResultView>::empty());
    }
    while i < posts.len()
        invariant
            i <= posts@.len(),
            dates_wf(views(posts@)),
            out@ == post_list_text(template@, views(posts@).subrange(0, i as int)),
        decreases posts@.len() - i,
    {
        let p = &posts[i];
        let ghost vs = views(posts@);
        proof {
            assert(vs.subrange(0, i + 1).drop_last() =~= vs.subrange(0, i as int));
            assert(vs.subrange(0, i + 1).last() == vs[i as int]);
            assert(vs[i as int] == p@);
        }
        match (&p.url, &p.title, &p.date) {
            (Some(u), Some(t), Some(d)) => {
                proof {
                    assert(vs[i as int].date matches Some(dd) ==> dd.wf());
                }
                let e = render_entry(template, u.as_str(), t.as_str(), *d);
                out.append(e.as_str());
            },
            _ => {
                proof {
                    assert(out@ + Seq::<char>::empty() =~= out@);
                }
            },
        }
        i = i + 1;
    }
    proof {
        assert(views(posts@).subrange(0, i as int) =~= views(posts@));
    }
    out
}

} // verus!
