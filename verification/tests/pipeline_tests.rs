use sitegen::config::{FeedConfig, FeedOutput, ServerConfig};
use sitegen::content::{
    load, make_items, sort_items, ContentSource, FeedContentType, FeedMeta, SourceFile,
};
use sitegen::date::parse_date;
use sitegen::generator::{assign_links, FeedRender, Generator};
use sitegen::resolver::{resolve, FsProbe, Outcome};

// One pass over the whole pipeline, on two posts of one feed: framing,
// metadata, ordering, link assignment, output assembly, and resolution.

fn parse_meta(meta_text: &str) -> FeedMeta {
    // The front matter of this feed is a fixed two-line shape:
    // a title line and a date line.
    let mut title = String::new();
    let mut date_str = String::new();
    for line in meta_text.lines() {
        if let Some(v) = line.strip_prefix("title: ") {
            title = v.to_string();
        } else if let Some(v) = line.strip_prefix("date: ") {
            date_str = v.to_string();
        }
    }
    FeedMeta {
        title,
        subtitle: None,
        date: parse_date(&date_str).expect("a well-formed date"),
        date_label: None,
        tags: None,
        image: None,
        links: None,
        content_type: FeedContentType::Html,
    }
}

#[test]
fn whole_pipeline_produces_pages_index_and_feed() {
    let config = ServerConfig {
        address: "127.0.0.1".to_string(),
        port: 8000,
        server_name: "https://example.org".to_string(),
        root_dir: "site".to_string(),
        index: "index.md".to_string(),
        error_template: None,
        content_ext: "md".to_string(),
        ignored_paths: vec!["posts".to_string()],
        feeds: vec![FeedConfig {
            title: "Blog".to_string(),
            description: "Posts".to_string(),
            link: "blog".to_string(),
            rss_feed_link: Some("blog/feed.xml".to_string()),
            source_dir: "posts".to_string(),
            content_output: Some(FeedOutput {
                template: "post.tpl".to_string(),
                link: "blog".to_string(),
            }),
            index_output: Some(FeedOutput {
                template: "index.tpl".to_string(),
                link: "blog/index".to_string(),
            }),
        }],
    };

    let files = vec![
        SourceFile {
            name: "older.md".to_string(),
            text: "title: Older\ndate: 2022-03-01\n___\nolder body".to_string(),
        },
        SourceFile {
            name: "newer.md".to_string(),
            text: "title: Newer\ndate: 2023-11-20\n___\nnewer body".to_string(),
        },
        SourceFile {
            name: "notes.txt".to_string(),
            text: "title: Notes\ndate: 2021-07-07\n___\nnotes body".to_string(),
        },
    ];

    let raws = load(&files).unwrap();
    assert_eq!(raws.len(), 3);
    let sources: Vec<ContentSource> = raws
        .into_iter()
        .map(|raw| {
            let meta = parse_meta(&raw.meta_text);
            ContentSource { id: raw.id, meta, body: raw.body }
        })
        .collect();
    let mut items = sort_items(make_items(sources));
    assert_eq!(items[0].file_name, "newer");
    assert_eq!(items[1].file_name, "older");
    assert_eq!(items[2].file_name, "notes");

    // Stand-in for the template engine: each page is title and body.
    let content_docs: Vec<String> = items
        .iter()
        .map(|it| format!("<h1>{}</h1>{}", it.meta.title, it.content))
        .collect();
    assign_links("blog", &mut items);
    let index_doc = format!("{} posts", items.len());

    let feeds = vec![FeedRender {
        items,
        content_docs: Some(content_docs),
        index_doc: Some(index_doc),
    }];
    let generator = Generator::generate(&config, feeds).unwrap();

    assert_eq!(generator.get("blog/newer").unwrap(), "<h1>Newer</h1>\nnewer body");
    assert_eq!(generator.get("blog/older").unwrap(), "<h1>Older</h1>\nolder body");
    assert_eq!(generator.get("blog/index").unwrap(), "3 posts");
    let feed = generator.get("blog/feed.xml").unwrap();
    assert!(feed.contains("<link>https://example.org/blog/newer</link>"));
    assert!(feed.contains("<pubDate>Mon, 20 Nov 2023 00:00:00 +0000</pubDate>"));

    // The generated page is served; its source directory is not.
    let probe = FsProbe {
        file_exists: false,
        content_template_exists: false,
        is_dir: false,
        index_template_exists: false,
    };
    match resolve("/blog/newer", &config, &generator, &probe) {
        Outcome::Generated { text, ext } => {
            assert_eq!(text, "<h1>Newer</h1>\nnewer body");
            assert!(ext.is_none());
        }
        _ => panic!("expected the generated page"),
    }
    assert!(matches!(
        resolve("/posts/newer.md", &config, &generator, &probe),
        Outcome::NotFound
    ));
}
