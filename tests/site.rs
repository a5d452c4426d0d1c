use orogene::compile::{compile_document, prepare_document, CompileError, SiteSettings};
use orogene::dates::Date;
use orogene::document::CompilationResult;
use orogene::feed::{build_feed, compile_feed, FeedError, SiteConfig};
use orogene::paths::{directory_name, file_extension, file_stem, is_source_file, page_name, resolve_output};
use orogene::post_list::render_post_list;
use orogene::stage::{build_pass, plan_pass, sort_sources, Action, SourceDocument};
use orogene::text::{contains, replace_all};

fn settings() -> SiteSettings {
    SiteSettings {
        output_root: "out".to_string(),
        parent_template: "<html>{{content}}</html>".to_string(),
        style: None,
        list_template: String::new(),
        directory_per_page: false,
        minify: false,
        collection_dir: None,
    }
}

fn post(url: &str, title: &str, year: i32, month: u32, day: u32) -> CompilationResult {
    CompilationResult {
        html: String::new(),
        plain: format!("body of {}", title),
        title: Some(title.to_string()),
        date: Some(Date { year, month, day }),
        url: Some(url.to_string()),
    }
}

fn doc(name: &str, content: &str) -> SourceDocument {
    SourceDocument { file_name: name.to_string(), content: content.to_string() }
}

fn render(md: &str) -> String {
    comrak::markdown_to_html(md, &comrak::Options::default())
}

#[test]
fn replace_all_replaces_every_occurrence() {
    assert_eq!(replace_all("a{{x}}b{{x}}c", "{{x}}", "Y"), "aYbYc");
    assert_eq!(replace_all("{{x}}", "{{x}}", "{{x}}{{x}}"), "{{x}}{{x}}");
    assert_eq!(replace_all("none here", "{{x}}", "Y"), "none here");
    assert_eq!(replace_all("", "{{x}}", "Y"), "");
}

#[test]
fn contains_finds_a_pattern() {
    assert!(contains("<p>{{post_list}}</p>", "{{post_list}}"));
    assert!(!contains("<p>{{post_lis}}</p>", "{{post_list}}"));
    assert!(contains("abc", ""));
}

#[test]
fn display_name_strips_date_prefix() {
    assert_eq!(page_name("2021-05-01-hello-world.md"), "hello-world");
    assert_eq!(page_name("2021-05-01_hello.txt"), "hello");
    assert_eq!(page_name("about.md"), "about");
    assert_eq!(page_name("2021-05-01.md"), "2021-05-01");
    assert_eq!(page_name("2021-5-01-x.md"), "2021-5-01-x");
}

#[test]
fn display_name_same_with_or_without_front_matter() {
    let docs = vec![doc("2021-05-01-hello-world.md", "---\ntitle: Hello\n---\nbody")];
    assert_eq!(plan_pass(&docs, true).unwrap()[0].name, "hello-world");
    assert_eq!(plan_pass(&docs, false).unwrap()[0].name, "hello-world");
}

#[test]
fn extensions_and_stems() {
    assert_eq!(file_extension("a.b.md"), Some("md".to_string()));
    assert_eq!(file_extension("README"), None);
    assert_eq!(file_extension(".hidden"), None);
    assert_eq!(file_stem("a.b.md"), "a.b");
    assert_eq!(file_stem(".hidden"), ".hidden");
    assert!(is_source_file("post.md"));
    assert!(is_source_file("notes.txt"));
    assert!(!is_source_file("image.png"));
    assert!(!is_source_file("page.html"));
    assert!(!is_source_file("md"));
}

#[test]
fn directory_name_is_last_segment() {
    assert_eq!(directory_name("content/blog"), "blog");
    assert_eq!(directory_name("posts"), "posts");
}

#[test]
fn directory_per_page_paths() {
    let t = resolve_output("out", &None, "about", true, &None);
    assert_eq!(t.file, "out/about/index.html");
    assert_eq!(t.url, "/about");
    assert_eq!(t.new_dir, Some("out/about".to_string()));
    let t = resolve_output("out", &None, "index", true, &None);
    assert_eq!(t.file, "out/index.html");
    assert_eq!(t.url, "/");
    assert_eq!(t.new_dir, None);
    let t = resolve_output("out", &Some("blog".to_string()), "first", true, &Some("blog".to_string()));
    assert_eq!(t.file, "out/blog/first/index.html");
    assert_eq!(t.url, "/blog/first");
}

#[test]
fn flat_paths() {
    let t = resolve_output("out", &None, "about", false, &None);
    assert_eq!(t.file, "out/about.html");
    assert_eq!(t.url, "/about.html");
    assert_eq!(t.new_dir, None);
    let t = resolve_output("out", &Some("blog".to_string()), "first", false, &None);
    assert_eq!(t.file, "out/blog/first.html");
    assert_eq!(t.url, "/blog/first.html");
}

#[test]
fn page_named_like_collection_shares_its_directory() {
    let t = resolve_output("out", &None, "blog", true, &Some("blog".to_string()));
    assert_eq!(t.new_dir, None);
    assert_eq!(t.file, "out/blog/index.html");
    assert_eq!(t.url, "/blog");
}

#[test]
fn default_post_list_two_posts() {
    let posts = vec![post("/blog/new", "New", 2021, 5, 12), post("/blog/old", "Old", 2021, 5, 1)];
    let html = render_post_list("", &posts);
    assert_eq!(
        html,
        "<article class='post-link'><a href='/blog/new'>New</a><time datetime='2021-05-12'>12 May 2021</time></article>\
         <article class='post-link'><a href='/blog/old'>Old</a><time datetime='2021-05-01'>1 May 2021</time></article>"
    );
}

#[test]
fn templated_post_list() {
    let posts = vec![post("/p", "P", 2020, 2, 29)];
    let html = render_post_list("<li>{{link}} [{{url}}] {{date}}</li>", &posts);
    assert_eq!(html, "<li><a href='/p'>P</a> [/p] <time datetime='2020-02-29'>29 Feb 2020</time></li>");
}

#[test]
fn post_list_skips_incomplete_results() {
    let mut incomplete = post("/q", "Q", 2021, 1, 1);
    incomplete.date = None;
    let posts = vec![incomplete, post("/p", "P", 2021, 1, 2)];
    let html = render_post_list("{{title}};", &posts);
    assert_eq!(html, "P;");
}

#[test]
fn front_matter_post_is_composed() {
    let raw = "---\ntitle: \"T\"\ndate: \"2021-05-01\"\n---\n# Hi\n";
    let prepared = prepare_document(raw, true).unwrap();
    assert_eq!(prepared.title, Some("T".to_string()));
    assert_eq!(prepared.date, Some(Date { year: 2021, month: 5, day: 1 }));
    let rendered = render(&prepared.body);
    assert!(rendered.contains("<h1>Hi</h1>"));
    let item = Some("<h2>{{title}}</h2><p>{{date}}</p>{{content}}<footer>{{title}}|{{date}}</footer>".to_string());
    let c = compile_document(&prepared, &rendered, &item, &settings(), &None).unwrap();
    assert_eq!(
        c.html,
        format!("<html><h2>T</h2><p>1 May 2021</p>{}<footer>T|1 May 2021</footer></html>", rendered)
    );
    assert_eq!(c.title, Some("T".to_string()));
    assert_eq!(c.url, None);
    let list = render_post_list("{{date}}", &vec![CompilationResult { url: Some("/x".to_string()), ..c }]);
    assert!(list.contains("datetime='2021-05-01'"));
}

#[test]
fn front_matter_defaults() {
    let prepared = prepare_document("---\nauthor: me\n---\nbody\n", true).unwrap();
    assert_eq!(prepared.title, Some("Untitled".to_string()));
    assert_eq!(prepared.date, Some(Date { year: 1970, month: 1, day: 1 }));
}

#[test]
fn front_matter_errors() {
    assert_eq!(prepare_document("no front matter here", true).err(), Some(CompileError::MissingFrontMatter));
    assert_eq!(
        prepare_document("---\ntitle: x\ndate: \"2021-13-01\"\n---\nbody\n", true).err(),
        Some(CompileError::InvalidDate)
    );
    assert_eq!(
        prepare_document("---\ntitle: x\ndate: \"soon\"\n---\nbody\n", true).err(),
        Some(CompileError::InvalidDate)
    );
}

#[test]
fn dates_must_be_strict_iso() {
    for date in ["2021-5-1", " 2021-05-01", "+2021-05-01", "2021-05-01 ", "May 1", "2021-02-30"] {
        let raw = format!("---\ntitle: x\ndate: \"{}\"\n---\nbody\n", date);
        assert_eq!(prepare_document(&raw, true).err(), Some(CompileError::InvalidDate), "{}", date);
    }
    let ok = prepare_document("---\ndate: \"2020-02-29\"\n---\nbody\n", true).unwrap();
    assert_eq!(ok.date, Some(Date { year: 2020, month: 2, day: 29 }));
}

#[test]
fn item_template_dates_are_unpadded() {
    let prepared = prepare_document("---\ntitle: T\ndate: 2021-05-01\n---\n# Hi", true).unwrap();
    let item = Some("{{date}} / {{date}}".to_string());
    let mut s = settings();
    s.parent_template = "{{content}}".to_string();
    let c = compile_document(&prepared, "<h1>Hi</h1>", &item, &s, &None).unwrap();
    assert_eq!(c.html, "1 May 2021 / 1 May 2021");
    let list = render_post_list("{{date}}", &vec![CompilationResult { url: Some("/p".to_string()), ..c }]);
    assert_eq!(list, "<time datetime='2021-05-01'>1 May 2021</time>");
}

#[test]
fn page_without_front_matter_keeps_whole_text() {
    let prepared = prepare_document("---\ntitle: x\n---\n", false).unwrap();
    assert_eq!(prepared.body, "---\ntitle: x\n---\n");
    assert_eq!(prepared.title, None);
}

#[test]
fn style_and_post_list_substitution() {
    let mut s = settings();
    s.parent_template = "<style>{{style}}</style>{{content}}{{post_list}}{{style}}".to_string();
    s.style = Some("p{}".to_string());
    let prepared = prepare_document("x", false).unwrap();
    let posts = Some(vec![post("/a", "A", 2021, 5, 1)]);
    let c = compile_document(&prepared, "<p>x</p>", &None, &s, &posts).unwrap();
    assert_eq!(
        c.html,
        "<style>p{}</style><p>x</p><article class='post-link'><a href='/a'>A</a><time datetime='2021-05-01'>1 May 2021</time></article>p{}"
    );
    let c = compile_document(&prepared, "<p>x</p>", &None, &s, &None).unwrap();
    assert_eq!(c.html, "<style>p{}</style><p>x</p>{{post_list}}p{}");
}

#[test]
fn minify_changes_the_page() {
    let mut s = settings();
    s.parent_template = "<html>\n    <body>\n        {{content}}\n    </body>\n</html>\n".to_string();
    let prepared = prepare_document("x", false).unwrap();
    let plain = compile_document(&prepared, "<p>x</p>", &None, &s, &None).unwrap();
    s.minify = true;
    let small = compile_document(&prepared, "<p>x</p>", &None, &s, &None).unwrap();
    assert!(small.html.len() < plain.html.len());
    assert!(small.html.contains("<p>x</p>"));
}

#[test]
fn only_markdown_and_text_are_planned() {
    let docs = vec![doc("a.md", "A"), doc("b.html", "B"), doc("c.txt", "C"), doc("d", "D"), doc("e.png", "E")];
    let pending = plan_pass(&docs, false).unwrap();
    let names: Vec<String> = pending.iter().map(|p| p.name.clone()).collect();
    assert_eq!(names, vec!["a".to_string(), "c".to_string()]);
}

#[test]
fn skipped_files_are_not_read_for_front_matter() {
    let docs = vec![doc("notes.html", "no front matter"), doc("2021-01-01-a.md", "---\ntitle: A\n---\nx")];
    let pending = plan_pass(&docs, true).unwrap();
    assert_eq!(pending.len(), 1);
    assert_eq!(pending[0].name, "a");
}

#[test]
fn sources_sorted_newest_first() {
    let docs = vec![doc("2021-01-01-a.md", ""), doc("2021-05-01-c.md", ""), doc("2021-03-01-b.md", ""), doc("about.md", "")];
    let sorted = sort_sources(docs);
    let names: Vec<String> = sorted.iter().map(|d| d.file_name.clone()).collect();
    assert_eq!(names, vec!["about.md", "2021-05-01-c.md", "2021-03-01-b.md", "2021-01-01-a.md"]);
}

fn run_site() -> (Vec<String>, Option<String>) {
    let mut s = settings();
    s.directory_per_page = true;
    s.collection_dir = Some("blog".to_string());
    s.parent_template = "<main>{{content}}</main>".to_string();
    let posts = sort_sources(vec![
        doc("2021-01-01-first.md", "---\ntitle: First\ndate: \"2021-01-01\"\n---\none"),
        doc("2021-02-01-second.md", "---\ntitle: Second\ndate: \"2021-02-01\"\n---\ntwo"),
        doc("image.png", "binary"),
    ]);
    let pending = plan_pass(&posts, true).unwrap();
    let rendered: Vec<String> = pending.iter().map(|p| render(&p.prepared.body)).collect();
    let item = Some("<h1>{{title}}</h1>{{content}}".to_string());
    let collection = build_pass(&pending, &rendered, &item, &s, &Some("blog".to_string()), &None).unwrap();
    let pages = sort_sources(vec![doc("index.md", "home"), doc("blog.md", "{{post_list}}")]);
    let pending = plan_pass(&pages, false).unwrap();
    let rendered: Vec<String> = pending.iter().map(|p| p.prepared.body.clone()).collect();
    let site = build_pass(&pending, &rendered, &None, &s, &None, &Some(collection.results.clone())).unwrap();
    let mut actions: Vec<String> = collection.actions.iter().map(|a| format!("{:?}", a)).collect();
    actions.extend(site.actions.iter().map(|a| format!("{:?}", a)));
    let config = Some(SiteConfig { title: "S".to_string(), url: "https://x".to_string(), description: "d".to_string() });
    (actions, compile_feed(&config, &collection.results).ok())
}

#[test]
fn full_build_plans_expected_tree() {
    let (actions, feed) = run_site();
    assert!(matches!(actions.first().map(|s| s.as_str()), Some("CreateDir(\"out/blog\")")));
    assert!(actions.contains(&"CreateDir(\"out/blog/second\")".to_string()));
    assert_eq!(actions.iter().filter(|a| a.as_str() == "CreateDir(\"out/blog\")").count(), 1);
    let blog_page = actions.iter().find(|a| a.starts_with("WriteFile(\"out/blog/index.html\"")).unwrap();
    assert!(blog_page.find("/blog/second").unwrap() < blog_page.find("/blog/first").unwrap());
    assert!(actions.iter().any(|a| a.starts_with("WriteFile(\"out/index.html\"")));
    assert!(feed.unwrap().contains("https://x/blog/second"));
}

#[test]
fn full_build_is_reproducible() {
    assert_eq!(run_site(), run_site());
}

#[test]
fn feed_requires_config() {
    let posts = vec![post("/p", "P", 2021, 5, 1)];
    assert_eq!(compile_feed(&None, &posts), Err(FeedError::MissingConfig));
}

#[test]
fn feed_item_link_is_plain_concatenation() {
    let config = SiteConfig { title: "S".to_string(), url: "https://x/".to_string(), description: "d".to_string() };
    let posts = vec![post("/p", "P", 2021, 5, 1)];
    let feed = build_feed(&config, &posts).unwrap();
    assert_eq!(feed.title, "S");
    assert_eq!(feed.link, "https://x/");
    assert_eq!(feed.description, "d");
    assert_eq!(feed.items.len(), 1);
    let item = &feed.items[0];
    assert_eq!(item.link, "https://x//p");
    assert_eq!(item.guid, "https://x//p");
    assert!(item.guid_is_permalink);
    assert_eq!(item.pub_date, "Sat, 1 May 2021 00:00:00 +0000");
    assert_eq!(item.description, "body of P");
    let xml = compile_feed(&Some(config), &posts).unwrap();
    assert!(xml.contains("<link>https://x//p</link>"));
    assert!(xml.contains("<guid>https://x//p</guid>"));
    assert!(!xml.contains("isPermaLink"));
    assert!(xml.contains("<title>S</title>"));
}

#[test]
fn feed_defaults_missing_date_and_url() {
    let config = SiteConfig { title: "S".to_string(), url: "https://x".to_string(), description: "d".to_string() };
    let mut p = post("/p", "P", 2021, 5, 1);
    p.date = None;
    p.url = None;
    let feed = build_feed(&config, &vec![p]).unwrap();
    assert_eq!(feed.items[0].link, "https://x");
    assert_eq!(feed.items[0].pub_date, "Thu, 1 Jan 1970 00:00:00 +0000");
}

#[test]
fn feed_rejects_unrepresentable_year() {
    let config = SiteConfig { title: "S".to_string(), url: "https://x".to_string(), description: "d".to_string() };
    let posts = vec![post("/p", "P", 12021, 5, 1)];
    assert_eq!(compile_feed(&Some(config), &posts), Err(FeedError::DateOutOfRange));
}
