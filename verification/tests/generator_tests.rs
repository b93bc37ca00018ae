use sitegen::config::{FeedConfig, FeedOutput, ServerConfig};
use sitegen::content::{FeedContentType, FeedItem, FeedMeta};
use sitegen::date::Date;
use sitegen::generator::{assign_links, FeedRender, GenError, Generator};

fn item(id: &str, year: u32, month: u32, day: u32) -> FeedItem {
    FeedItem::new(
        id.to_string(),
        FeedMeta {
            title: format!("title of {}", id),
            subtitle: None,
            date: Date { year, month, day },
            date_label: None,
            tags: None,
            image: None,
            links: None,
            content_type: FeedContentType::Html,
        },
        format!("body of {}", id),
    )
}

fn config_with(feeds: Vec<FeedConfig>) -> ServerConfig {
    ServerConfig {
        address: "127.0.0.1".to_string(),
        port: 8000,
        server_name: "https://example.org".to_string(),
        root_dir: "site".to_string(),
        index: "index.md".to_string(),
        error_template: None,
        content_ext: "md".to_string(),
        ignored_paths: vec!["content".to_string()],
        feeds,
    }
}

fn full_feed_cfg() -> FeedConfig {
    FeedConfig {
        title: "Blog".to_string(),
        description: "Posts".to_string(),
        link: "blog".to_string(),
        rss_feed_link: Some("blog/feed.xml".to_string()),
        source_dir: "posts".to_string(),
        content_output: Some(FeedOutput {
            template: "post.tpl".to_string(),
            link: "blog".to_string(),
        }),
        index_output: Some(FeedOutput {
            template: "index.tpl".to_string(),
            link: "blog".to_string() + "/index",
        }),
    }
}

#[test]
fn generate_files_all_outputs() {
    let config = config_with(vec![full_feed_cfg()]);
    let mut items = vec![item("post1", 2023, 5, 1), item("post2", 2023, 4, 1)];
    let content_docs = vec!["doc one".to_string(), "doc two".to_string()];
    assign_links("blog", &mut items);
    let feeds = vec![FeedRender {
        items,
        content_docs: Some(content_docs),
        index_doc: Some("the index page".to_string()),
    }];
    let g = Generator::generate(&config, feeds).unwrap();
    assert_eq!(g.get("blog/post1").unwrap(), "doc one");
    assert_eq!(g.get("blog/post2").unwrap(), "doc two");
    assert_eq!(g.get("blog/index").unwrap(), "the index page");
    let rss = g.get("blog/feed.xml").unwrap();
    assert!(rss.starts_with("<rss version=\"2.0\""));
    assert!(rss.contains("<link>https://example.org/blog/post1</link>"));
    assert!(rss.contains("<link>https://example.org/blog/post2</link>"));
    assert!(g.get("blog/post3").is_none());
}

#[test]
fn generate_without_outputs_files_nothing() {
    let mut cfg = full_feed_cfg();
    cfg.content_output = None;
    cfg.index_output = None;
    cfg.rss_feed_link = None;
    let config = config_with(vec![cfg]);
    let feeds = vec![FeedRender {
        items: vec![item("post1", 2023, 5, 1)],
        content_docs: None,
        index_doc: None,
    }];
    let g = Generator::generate(&config, feeds).unwrap();
    assert!(g.get("blog/post1").is_none());
}

#[test]
fn generate_rejects_feed_link_without_index() {
    let mut cfg = full_feed_cfg();
    cfg.index_output = None;
    let config = config_with(vec![cfg]);
    let feeds = vec![FeedRender {
        items: vec![],
        content_docs: Some(vec![]),
        index_doc: None,
    }];
    let e = match Generator::generate(&config, feeds) {
        Err(e) => e,
        Ok(_) => panic!("expected a configuration error"),
    };
    assert_eq!(e, GenError::ConfigError("Blog".to_string()));
}

#[test]
fn later_feed_overwrites_an_earlier_path() {
    let mut first = full_feed_cfg();
    first.content_output = None;
    first.rss_feed_link = None;
    let mut second = full_feed_cfg();
    second.content_output = None;
    second.rss_feed_link = None;
    let config = config_with(vec![first, second]);
    let feeds = vec![
        FeedRender { items: vec![], content_docs: None, index_doc: Some("first".to_string()) },
        FeedRender { items: vec![], content_docs: None, index_doc: Some("second".to_string()) },
    ];
    let g = Generator::generate(&config, feeds).unwrap();
    assert_eq!(g.get("blog/index").unwrap(), "second");
}

#[test]
fn assign_links_joins_prefix_and_identifier() {
    let mut items = vec![item("a", 2023, 1, 1), item("b", 2023, 1, 2)];
    assign_links("blog", &mut items);
    assert_eq!(items[0].link.as_deref(), Some("blog/a"));
    assert_eq!(items[1].link.as_deref(), Some("blog/b"));
}
