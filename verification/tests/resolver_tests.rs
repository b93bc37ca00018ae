use sitegen::config::{FeedConfig, FeedOutput, ServerConfig};
use sitegen::generator::{FeedRender, Generator};
use sitegen::resolver::{resolve, FsProbe, Outcome};

fn config() -> ServerConfig {
    ServerConfig {
        address: "127.0.0.1".to_string(),
        port: 8000,
        server_name: "https://example.org".to_string(),
        root_dir: "site".to_string(),
        index: "index.md".to_string(),
        error_template: None,
        content_ext: "md".to_string(),
        ignored_paths: vec!["content".to_string(), "drafts".to_string()],
        feeds: vec![],
    }
}

fn empty_generator() -> Generator {
    let cfg = config();
    let feeds: Vec<FeedRender> = vec![];
    Generator::generate(&cfg, feeds).unwrap()
}

fn no_probe() -> FsProbe {
    FsProbe {
        file_exists: false,
        content_template_exists: false,
        is_dir: false,
        index_template_exists: false,
    }
}

#[test]
fn content_extension_redirects_to_canonical_path() {
    let g = empty_generator();
    let r = resolve("/foo.md", &config(), &g, &no_probe());
    match r {
        Outcome::Redirect { location } => assert_eq!(location, "/foo"),
        other => panic!("expected a redirect, got {:?}", outcome_name(&other)),
    }
}

#[test]
fn redirect_strips_only_the_last_extension() {
    let g = empty_generator();
    let mut cfg = config();
    cfg.content_ext = "gz".to_string();
    match resolve("/archive.tar.gz", &cfg, &g, &no_probe()) {
        Outcome::Redirect { location } => assert_eq!(location, "/archive.tar"),
        other => panic!("expected a redirect, got {:?}", outcome_name(&other)),
    }
}

#[test]
fn extension_less_path_renders_its_template_source() {
    let g = empty_generator();
    let probe = FsProbe { content_template_exists: true, ..no_probe() };
    let r = resolve("/foo", &config(), &g, &probe);
    match r {
        Outcome::RenderTemplate { rel_path } => assert_eq!(rel_path, "foo.md"),
        other => panic!("expected a template render, got {:?}", outcome_name(&other)),
    }
}

#[test]
fn directory_falls_back_to_its_index_template() {
    let g = empty_generator();
    let probe = FsProbe { is_dir: true, index_template_exists: true, ..no_probe() };
    let r = resolve("/dir", &config(), &g, &probe);
    match r {
        Outcome::RenderTemplate { rel_path } => assert_eq!(rel_path, "dir/index.md"),
        other => panic!("expected a template render, got {:?}", outcome_name(&other)),
    }
}

#[test]
fn ignored_prefix_hides_everything_under_it() {
    let g = empty_generator();
    let probe = FsProbe {
        file_exists: true,
        content_template_exists: true,
        is_dir: true,
        index_template_exists: true,
    };
    assert!(matches!(resolve("/content/post.md", &config(), &g, &probe), Outcome::NotFound));
    assert!(matches!(resolve("/drafts", &config(), &g, &probe), Outcome::NotFound));
    // A prefix only matches whole components.
    assert!(matches!(
        resolve("/contents", &config(), &g, &probe),
        Outcome::StaticFile { .. } | Outcome::RenderTemplate { .. }
    ));
}

#[test]
fn generated_document_is_served_with_extension_hint() {
    let page_feed = FeedConfig {
        title: "pages".to_string(),
        description: "d".to_string(),
        link: "page".to_string(),
        rss_feed_link: None,
        source_dir: "src".to_string(),
        content_output: None,
        index_output: Some(FeedOutput { template: "t.tpl".to_string(), link: "page".to_string() }),
    };
    let css_feed = FeedConfig {
        title: "styles".to_string(),
        description: "d".to_string(),
        link: "style.css".to_string(),
        rss_feed_link: None,
        source_dir: "src".to_string(),
        content_output: None,
        index_output: Some(FeedOutput {
            template: "t.tpl".to_string(),
            link: "style.css".to_string(),
        }),
    };
    let mut cfg = config();
    cfg.feeds = vec![page_feed, css_feed];
    let feeds = vec![
        FeedRender { items: vec![], content_docs: None, index_doc: Some("a page".to_string()) },
        FeedRender { items: vec![], content_docs: None, index_doc: Some("a style".to_string()) },
    ];
    let g = Generator::generate(&cfg, feeds).unwrap();
    match resolve("/page", &cfg, &g, &no_probe()) {
        Outcome::Generated { text, ext } => {
            assert_eq!(text, "a page");
            assert!(ext.is_none());
        },
        other => panic!("expected a generated page, got {:?}", outcome_name(&other)),
    }
    match resolve("/style.css", &cfg, &g, &no_probe()) {
        Outcome::Generated { text, ext } => {
            assert_eq!(text, "a style");
            assert_eq!(ext.as_deref(), Some("css"));
        },
        other => panic!("expected a generated style, got {:?}", outcome_name(&other)),
    }
}

#[test]
fn extensioned_existing_file_is_served_raw() {
    let g = empty_generator();
    let probe = FsProbe { file_exists: true, ..no_probe() };
    let r = resolve("/img.png", &config(), &g, &probe);
    match r {
        Outcome::StaticFile { path } => assert_eq!(path, "site/img.png"),
        other => panic!("expected a raw file, got {:?}", outcome_name(&other)),
    }
}

#[test]
fn extensioned_missing_file_is_not_found() {
    let g = empty_generator();
    assert!(matches!(resolve("/img.png", &config(), &g, &no_probe()), Outcome::NotFound));
}

#[test]
fn nothing_matching_is_not_found() {
    let g = empty_generator();
    assert!(matches!(resolve("/anything", &config(), &g, &no_probe()), Outcome::NotFound));
    assert!(matches!(resolve("", &config(), &g, &no_probe()), Outcome::NotFound));
}

fn outcome_name(o: &Outcome) -> &'static str {
    match o {
        Outcome::Generated { .. } => "Generated",
        Outcome::Redirect { .. } => "Redirect",
        Outcome::StaticFile { .. } => "StaticFile",
        Outcome::RenderTemplate { .. } => "RenderTemplate",
        Outcome::NotFound => "NotFound",
    }
}
