use sitegen::content::{
    load, make_items, render_content, sort_items, split_content_file, ContentSource,
    FeedContentType, FeedItem, FeedMeta, LoadError, SourceFile,
};
use sitegen::date::Date;

fn meta_with_date(year: u32, month: u32, day: u32) -> FeedMeta {
    FeedMeta {
        title: "t".to_string(),
        subtitle: None,
        date: Date { year, month, day },
        date_label: None,
        tags: None,
        image: None,
        links: None,
        content_type: FeedContentType::Html,
    }
}

fn item_with_date(id: &str, year: u32, month: u32, day: u32) -> FeedItem {
    FeedItem::new(id.to_string(), meta_with_date(year, month, day), String::new())
}

#[test]
fn splits_at_first_separator() {
    let r = split_content_file("title: x\n___\nbody text").unwrap();
    assert_eq!(r.0, "title: x\n");
    assert_eq!(r.1, "\nbody text");
}

#[test]
fn split_takes_first_of_several_separators() {
    let r = split_content_file("a___b___c").unwrap();
    assert_eq!(r.0, "a");
    assert_eq!(r.1, "b___c");
}

#[test]
fn split_without_separator_fails() {
    assert!(split_content_file("no separator here").is_none());
}

#[test]
fn load_frames_every_file() {
    let files = vec![
        SourceFile { name: "first.md".to_string(), text: "m1___b1".to_string() },
        SourceFile { name: "notes.txt".to_string(), text: "m2___b2".to_string() },
        SourceFile { name: "plain".to_string(), text: "m3___b3".to_string() },
    ];
    let v = load(&files).unwrap();
    assert_eq!(v.len(), 3);
    assert_eq!(v[0].id, "first");
    assert_eq!(v[0].meta_text, "m1");
    assert_eq!(v[0].body, "b1");
    assert_eq!(v[1].id, "notes");
    assert_eq!(v[1].meta_text, "m2");
    assert_eq!(v[1].body, "b2");
    assert_eq!(v[2].id, "plain");
    assert_eq!(v[2].meta_text, "m3");
    assert_eq!(v[2].body, "b3");
}

#[test]
fn load_fails_fast_on_missing_separator() {
    let files = vec![
        SourceFile { name: "good.md".to_string(), text: "m___b".to_string() },
        SourceFile { name: "broken.txt".to_string(), text: "no separator".to_string() },
        SourceFile { name: "later.md".to_string(), text: "m___b".to_string() },
    ];
    let e = load(&files).unwrap_err();
    assert_eq!(e, LoadError::MalformedContentFile("broken.txt".to_string()));
}

#[test]
fn render_content_passes_html_through() {
    let r = render_content("<p>as is</p>", &FeedContentType::Html).unwrap();
    assert_eq!(r, "<p>as is</p>");
}

#[test]
fn render_content_converts_markdown() {
    let r = render_content("# Heading", &FeedContentType::Markdown).unwrap();
    assert!(r.contains("<h1>"), "markdown was not converted: {:?}", r);
    assert!(r.contains("Heading"));
}

#[test]
fn make_items_keeps_order_and_ids() {
    let sources = vec![
        ContentSource {
            id: "a".to_string(),
            meta: meta_with_date(2023, 1, 1),
            body: "body a".to_string(),
        },
        ContentSource {
            id: "b".to_string(),
            meta: meta_with_date(2023, 2, 1),
            body: "body b".to_string(),
        },
    ];
    let items = make_items(sources);
    assert_eq!(items.len(), 2);
    assert_eq!(items[0].file_name, "a");
    assert_eq!(items[0].content, "body a");
    assert!(items[0].link.is_none());
    assert_eq!(items[1].file_name, "b");
}

#[test]
fn sort_orders_newest_first() {
    let items = vec![
        item_with_date("old", 2020, 5, 1),
        item_with_date("new", 2024, 1, 15),
        item_with_date("mid", 2022, 12, 31),
    ];
    let sorted = sort_items(items);
    let ids: Vec<&str> = sorted.iter().map(|i| i.file_name.as_str()).collect();
    assert_eq!(ids, vec!["new", "mid", "old"]);
}

#[test]
fn sort_keeps_scan_order_on_equal_dates() {
    let items = vec![
        item_with_date("first", 2023, 6, 1),
        item_with_date("second", 2023, 6, 1),
        item_with_date("newer", 2023, 7, 1),
        item_with_date("third", 2023, 6, 1),
    ];
    let sorted = sort_items(items);
    let ids: Vec<&str> = sorted.iter().map(|i| i.file_name.as_str()).collect();
    assert_eq!(ids, vec!["newer", "first", "second", "third"]);
}
