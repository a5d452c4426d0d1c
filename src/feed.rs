//! The feed: one item per post, in the order of the post collection, under
//! the site's own title, link and description.

use crate::dates::{format_rfc2822_midnight, rfc2822_midnight, Date};
use crate::document::{dates_wf, views, CompilationResult, ResultView};
use crate::text::join2;
use vstd::prelude::*;

verus! {

/// The site settings the feed is made from.
#[derive(Clone, Debug)]
pub struct SiteConfig {
    pub title: String,
    pub url: String,
    pub description: String,
}

/// One feed item.
#[derive(Clone, Debug)]
pub struct FeedItem {
    pub title: Option<String>,
    pub link: String,
    pub guid: String,
    pub guid_is_permalink: bool,
    pub pub_date: String,
    pub description: String,
}

/// A whole feed channel.
#[derive(Clone, Debug)]
pub struct Feed {
    pub title: String,
    pub link: String,
    pub description: String,
    pub items: Vec<FeedItem>,
}

pub struct FeedItemView {
    pub title: Option<Seq<char>>,
    pub link: Seq<char>,
    pub guid: Seq<char>,
    pub guid_is_permalink: bool,
    pub pub_date: Seq<char>,
    pub description: Seq<char>,
}

pub struct FeedView {
    pub title: Seq<char>,
    pub link: Seq<char>,
    pub description: Seq<char>,
    pub items: Seq<FeedItemView>,
}

impl View for FeedItem {
    type V = FeedItemView;

    open spec fn view(&self) -> FeedItemView {
        FeedItemView {
            title: match self.title {
                Some(t) => Some(t@),
                None => None,
            },
            link: self.link@,
            guid: self.guid@,
            guid_is_permalink: self.guid_is_permalink,
            pub_date: self.pub_date@,
            description: self.description@,
        }
    }
}

impl View for Feed {
    type V = FeedView;

    open spec fn view(&self) -> FeedView {
        FeedView {
            title: self.title@,
            link: self.link@,
            description: self.description@,
            items: self.items@.map_values(|i: FeedItem| i@),
        }
    }
}

/// Why no feed could be made.
#[derive(Clone, Copy, Debug, PartialEq, Eq, Structural)]
pub enum FeedError {
    /// A feed was asked for without a site configuration.
    MissingConfig,
    /// A post's year lies outside 0..=9999, which the feed's date format cannot hold.
    DateOutOfRange,
}

/// The RSS document that the feed library writes for a channel.
pub uninterp spec fn rss_text(f: FeedView) -> Seq<char>;

/// The date a post is published under: its own, or 1970-01-01.
pub open spec fn feed_date(p: ResultView) -> Date {
    match p.date {
        Some(d) => d,
        None => Date { year: 1970, month: 1, day: 1 },
    }
}

/// The link of a post: the site URL and the post URL, concatenated as they stand.
pub open spec fn item_link(c: SiteConfig, p: ResultView) -> Seq<char> {
    c.url@ + match p.url {
        Some(u) => u,
        None => Seq::empty(),
    }
}

pub open spec fn item_of(c: SiteConfig, p: ResultView) -> FeedItemView {
    FeedItemView {
        title: p.title,
        link: item_link(c, p),
        guid: item_link(c, p),
        guid_is_permalink: true,
        pub_date: rfc2822_midnight(feed_date(p)),
        description: p.plain,
    }
}

pub open spec fn feed_of(c: SiteConfig, ps: Seq<ResultView>) -> FeedView {
    FeedView {
        title: c.title@,
        link: c.url@,
        description: c.description@,
        items: ps.map_values(|p: ResultView| item_of(c, p)),
    }
}

/// Every post's publication year can be written in the feed's date format.
pub open spec fn feed_dates_ok(ps: Seq<ResultView>) -> bool {
    forall|i: int| 0 <= i < ps.len() ==> 0 <= #[trigger] feed_date(ps[i]).year <= 9999
}

/// Relies on rss's `ItemBuilder`, `Guid`, `ChannelBuilder` and the channel's
/// `Display`: the XML document of the channel.
#[verifier::external_body]
pub(crate) fn render_rss(f: &Feed) -> (r: String)
    ensures
        r@ == rss_text(f@),
{
    let items: Vec<rss::Item> = f.items.iter().map(|i| {
        let mut guid = rss::Guid::default();
        guid.set_value(i.guid.clone());
        guid.set_permalink(i.guid_is_permalink);
        rss::ItemBuilder::default().title(i.title.clone()).link(i.link.clone()).guid(guid)
            .pub_date(i.pub_date.clone()).description(i.description.clone()).build()
    }).collect();
    rss::ChannelBuilder::default().title(f.title.clone()).link(f.link.clone())
        .description(f.description.clone()).items(items).build().to_string()
}

/// The feed channel of the posts under the site configuration.
pub fn build_feed(config: &SiteConfig, posts: &Vec<CompilationResult>) -> (r: Result<Feed, FeedError>)
    requires
        dates_wf(views(posts@)),
    ensures
        match r {
            Ok(f) => feed_dates_ok(views(posts@)) && f@ == feed_of(*config, views(posts@)),
            Err(e) => e == FeedError::DateOutOfRange && !feed_dates_ok(views(posts@)),
        },
{
    let ghost ps = views(posts@);
    let mut items: Vec<FeedItem> = Vec::new();
    let mut i: usize = 0;
    while i < posts.len()
        invariant
            i <= posts@.len(),
            ps == views(posts@),
            dates_wf(ps),
            items@.len() == i,
            forall|k: int| 0 <= k < i ==> 0 <= #[trigger] feed_date(ps[k]).year <= 9999,
            forall|k: int| 0 <= k < i ==> #[trigger] items@[k]@ == item_of(*config, ps[k]),
        decreases posts@.len() - i,
    {
        let p = &posts[i];
        assert(ps[i as int] == p@);
        let d = match p.date {
            Some(d) => d,
            None => Date::epoch(),
        };
        assert(ps[i as int].date matches Some(x) ==> x.wf());
        assert(feed_date(ps[i as int]) == d);
        if d.year < 0 || d.year > 9999 {
            return Err(FeedError::DateOutOfRange);
        }
        let url = match &p.url {
            Some(u) => u.clone(),
            None => String::new(),
        };
        let link = join2(config.url.as_str(), url.as_str());
        let title = match &p.title {
            Some(t) => Some(t.clone()),
            None => None,
        };
        let item = FeedItem {
            title,
            link: link.clone(),
            guid: link,
            guid_is_permalink: true,
            pub_date: format_rfc2822_midnight(d),
            description: p.plain.clone(),
        };
        items.push(item);
        i = i + 1;
    }
    let f = Feed {
        title: config.title.clone(),
        link: config.url.clone(),
        description: config.description.clone(),
        items,
    };
    assert(f@.items =~= feed_of(*config, ps).items);
    Ok(f)
}

/// The feed document of the posts; a site configuration must be given.
pub fn compile_feed(config: &Option<SiteConfig>, posts: &Vec<CompilationResult>) -> (r: Result<String, FeedError>)
    requires
        dates_wf(views(posts@)),
    ensures
        config is None <==> r == Err::<String, FeedError>(FeedError::MissingConfig),
        config matches Some(c) ==> match r {
            Ok(x) => feed_dates_ok(views(posts@)) && x@ == rss_text(feed_of(*c, views(posts@))),
            Err(e) => e == FeedError::DateOutOfRange && !feed_dates_ok(views(posts@)),
        },
{
    match config {
        None => Err(FeedError::MissingConfig),
        Some(c) => {
            let f = build_feed(c, posts)?;
            Ok(render_rss(&f))
        },
    }
}

} // verus!
