//! Template composition: an item template filled with a page's metadata and
//! rendered body, then placed into the parent template.

use crate::dates::{format_human, human_text, Date};
use crate::text::{replace_all, replaced};
use vstd::prelude::*;

verus! {

pub open spec fn content_token() -> Seq<char> {
    "{{content}}"@
}

pub open spec fn title_token() -> Seq<char> {
    "{{title}}"@
}

pub open spec fn date_token() -> Seq<char> {
    "{{date}}"@
}

pub open spec fn style_token() -> Seq<char> {
    "{{style}}"@
}

pub open spec fn post_list_token() -> Seq<char> {
    "{{post_list}}"@
}

/// The metadata a post brings to its item template.
#[derive(Clone, Debug)]
pub struct PageMeta {
    pub title: String,
    pub date: Date,
}

/// The item template with title, human date and rendered body put in.
pub open spec fn filled_item(item: Seq<char>, title: Seq<char>, date: Date, body: Seq<char>) -> Seq<char> {
    replaced(
        replaced(replaced(item, title_token(), title), date_token(), human_text(date)),
        content_token(),
        body,
    )
}

/// The page as composed from its templates, before style and post list.
pub open spec fn composed(
    parent: Seq<char>,
    item: Option<Seq<char>>,
    body: Seq<char>,
    meta: Option<(Seq<char>, Date)>,
) -> Seq<char> {
    let inner = match item {
        Some(t) => match meta {
            Some((title, date)) => filled_item(t, title, date, body),
            None => replaced(t, content_token(), body),
        },
        None => body,
    };
    replaced(parent, content_token(), inner)
}

pub open spec fn meta_view(m: Option<PageMeta>) -> Option<(Seq<char>, Date)> {
    match m {
        Some(p) => Some((p.title@, p.date)),
        None => None,
    }
}

/// Composes a rendered body into the parent template, through the item
/// template when there is one.
pub fn compose(parent: &str, item: &Option<String>, body: &str, meta: &Option<PageMeta>) -> (r: String)
    requires
        meta matches Some(m) ==> m.date.wf(),
    ensures
        r@ == composed(parent@, match item { Some(t) => Some(t@), None => None }, body@, meta_view(*meta)),
{
    proof {
        reveal_strlit("{{content}}");
        reveal_strlit("{{title}}");
        reveal_strlit("{{date}}");
    }
    match item {
        Some(t) => {
            let inner = match meta {
                Some(m) => {
                    let human = format_human(m.date);
                    let a = replace_all(t.as_str(), "{{title}}", m.title.as_str());
                    let b = replace_all(a.as_str(), "{{date}}", human.as_str());
                    replace_all(b.as_str(), "{{content}}", body)
                },
                None => replace_all(t.as_str(), "{{content}}", body),
            };
            replace_all(parent, "{{content}}", inner.as_str())
        },
        None => replace_all(parent, "{{content}}", body),
    }
}

} // verus!
