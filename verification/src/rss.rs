use crate::config::{FeedConfig, FeedOutput};
use crate::content::FeedItem;
use crate::date::{date_to_rfc822, rfc822_of};
use vstd::prelude::*;

verus! {

// The feed emitter. It writes the RSS 2.0 document itself — the document
// is this library's own output format — so the whole text is pinned down:
// a channel with title, link, a self-referencing atom:link, description,
// and one item element per content item, indented by two spaces per level.

/// One character, escaped for XML text and attribute content.
pub open spec fn escape_char(c: char) -> Seq<char> {
    if c == '&' {
        "&amp;"@
    } else if c == '<' {
        "&lt;"@
    } else if c == '>' {
        "&gt;"@
    } else if c == '"' {
        "&quot;"@
    } else if c == '\'' {
        "&apos;"@
    } else {
        seq![c]
    }
}

/// A text, escaped character by character.
pub open spec fn xml_escaped(s: Seq<char>) -> Seq<char>
    decreases s.len(),
{
    if s.len() == 0 {
        Seq::empty()
    } else {
        xml_escaped(s.drop_last()) + escape_char(s.last())
    }
}

/// Escapes a text for XML content.
pub fn escape_xml(s: &str) -> (r: String)
    ensures
        r@ == xml_escaped(s@),
{
    proof {
        reveal_strlit("&amp;");
        reveal_strlit("&lt;");
        reveal_strlit("&gt;");
        reveal_strlit("&quot;");
        reveal_strlit("&apos;");
    }
    let n = s.unicode_len();
    let mut out = String::new();
    let mut i: usize = 0;
    while i < n
        invariant
            i <= n,
            n == s@.len(),
            out@ == xml_escaped(s@.take(i as int)),
        decreases n - i,
    {
        let c = s.get_char(i);
        if c == '&' {
            out.append("&amp;");
        } else if c == '<' {
            out.append("&lt;");
        } else if c == '>' {
            out.append("&gt;");
        } else if c == '"' {
            out.append("&quot;");
        } else if c == '\'' {
            out.append("&apos;");
        } else {
            out.append(s.substring_char(i, i + 1));
        }
        proof {
            assert(s@.subrange(i as int, i + 1) =~= seq![s@[i as int]]);
            assert(s@.take(i + 1).drop_last() =~= s@.take(i as int));
            assert(s@.take(i + 1).last() == s@[i as int]);
            assert(out@ =~= xml_escaped(s@.take(i + 1)));
        }
        i += 1;
    }
    proof {
        assert(s@.take(n as int) =~= s@);
    }
    out
}

/// The absolute link an item is syndicated under: its own page when one
/// was generated, otherwise the index page with the item's identifier as
/// a fragment.
pub open spec fn item_link_of(server: Seq<char>, index_link: Seq<char>, it: FeedItem) -> Seq<
    char,
> {
    match it.link {
        Some(l) => server + "/"@ + l@,
        None => server + "/"@ + index_link + "#"@ + it.file_name@,
    }
}

fn item_link(server: &str, index_link: &str, it: &FeedItem) -> (r: String)
    ensures
        r@ == item_link_of(server@, index_link@, *it),
{
    let mut r = server.to_owned();
    r.append("/");
    match &it.link {
        Some(l) => {
            r.append(l.as_str());
        },
        None => {
            r.append(index_link);
            r.append("#");
            r.append(it.file_name.as_str());
        },
    }
    r
}

/// One `item` element: title, link, description, guid, publication date.
pub open spec fn rss_item_xml(server: Seq<char>, index_link: Seq<char>, it: FeedItem) -> Seq<
    char,
> {
    let link = xml_escaped(item_link_of(server, index_link, it));
    "\n  <item>\n    <title>"@ + xml_escaped(it.meta.title@) + "</title>\n    <link>"@ + link
        + "</link>\n    <description>"@ + xml_escaped(it.content@)
        + "</description>\n    <guid>"@ + link + "</guid>\n    <pubDate>"@ + rfc822_of(
        it.meta.date,
    ) + "</pubDate>\n  </item>"@
}

/// The `item` elements of a feed, one per item, in order.
pub open spec fn rss_items_xml(server: Seq<char>, index_link: Seq<char>, items: Seq<FeedItem>) -> Seq<
    char,
>
    decreases items.len(),
{
    if items.len() == 0 {
        Seq::empty()
    } else {
        rss_items_xml(server, index_link, items.drop_last()) + rss_item_xml(
            server,
            index_link,
            items.last(),
        )
    }
}

/// The whole RSS 2.0 document for a feed.
pub open spec fn rss_xml(
    items: Seq<FeedItem>,
    title: Seq<char>,
    description: Seq<char>,
    server: Seq<char>,
    index_link: Seq<char>,
    feed_link: Seq<char>,
) -> Seq<char> {
    let full = xml_escaped(server + "/"@ + feed_link);
    "<rss version=\"2.0\" xmlns:atom=\"http://www.w3.org/2005/Atom\"><channel>\n  <title>"@
        + xml_escaped(title) + "</title>\n  <link>"@ + full + "</link>\n  <atom:link href=\""@
        + full + "\" rel=\"self\" type=\"application/rss+xml\"/>\n  <description>"@
        + xml_escaped(description) + "</description>"@ + rss_items_xml(server, index_link, items)
        + "\n</channel></rss>"@
}

fn push_item(out: &mut String, server: &str, index_link: &str, it: &FeedItem)
    requires
        it.meta.date.valid(),
    ensures
        final(out)@ == old(out)@ + rss_item_xml(server@, index_link@, *it),
{
    let link = escape_xml(item_link(server, index_link, it).as_str());
    out.append("\n  <item>\n    <title>");
    out.append(escape_xml(it.meta.title.as_str()).as_str());
    out.append("</title>\n    <link>");
    out.append(link.as_str());
    out.append("</link>\n    <description>");
    out.append(escape_xml(it.content.as_str()).as_str());
    out.append("</description>\n    <guid>");
    out.append(link.as_str());
    out.append("</guid>\n    <pubDate>");
    out.append(date_to_rfc822(&it.meta.date).as_str());
    out.append("</pubDate>\n  </item>");
    proof {
        assert(out@ =~= old(out)@ + rss_item_xml(server@, index_link@, *it));
    }
}

/// Writes the RSS 2.0 document for one feed: a channel holding the feed's
/// escaped title and description, its absolute link, a self-referencing
/// `atom:link`, and one `item` element per content item, in the order the
/// items are given.
pub fn generate_rss_xml(
    feed_items: &Vec<FeedItem>,
    feed_cfg: &FeedConfig,
    server_name: &String,
    index_output: &FeedOutput,
    feed_link: &String,
) -> (r: Result<String, String>)
    requires
        forall|k: int|
            0 <= k < feed_items@.len() ==> (#[trigger] feed_items@[k]).meta.date.valid(),
    ensures
        match r {
            Ok(s) => s@ == rss_xml(
                feed_items@,
                feed_cfg.title@,
                feed_cfg.description@,
                server_name@,
                index_output.link@,
                feed_link@,
            ),
            Err(_) => false,
        },
{
    let mut full = server_name.clone();
    full.append("/");
    full.append(feed_link.as_str());
    let full_esc = escape_xml(full.as_str());
    let mut out = String::new();
    out.append("<rss version=\"2.0\" xmlns:atom=\"http://www.w3.org/2005/Atom\"><channel>\n  <title>");
    out.append(escape_xml(feed_cfg.title.as_str()).as_str());
    out.append("</title>\n  <link>");
    out.append(full_esc.as_str());
    out.append("</link>\n  <atom:link href=\"");
    out.append(full_esc.as_str());
    out.append("\" rel=\"self\" type=\"application/rss+xml\"/>\n  <description>");
    out.append(escape_xml(feed_cfg.description.as_str()).as_str());
    out.append("</description>");
    let ghost head = out@;
    let n = feed_items.len();
    let mut i: usize = 0;
    while i < n
        invariant
            i <= n,
            n == feed_items@.len(),
            forall|k: int|
                0 <= k < feed_items@.len() ==> (#[trigger] feed_items@[k]).meta.date.valid(),
            out@ == head + rss_items_xml(server_name@, index_output.link@, feed_items@.take(i as int)),
        decreases n - i,
    {
        push_item(&mut out, server_name.as_str(), index_output.link.as_str(), &feed_items[i]);
        proof {
            assert(feed_items@.take(i + 1).drop_last() =~= feed_items@.take(i as int));
            assert(feed_items@.take(i + 1).last() == feed_items@[i as int]);
            assert(out@ =~= head + rss_items_xml(
                server_name@,
                index_output.link@,
                feed_items@.take(i + 1),
            ));
        }
        i += 1;
    }
    out.append("\n</channel></rss>");
    proof {
        assert(feed_items@.take(n as int) =~= feed_items@);
        assert(out@ =~= rss_xml(
            feed_items@,
            feed_cfg.title@,
            feed_cfg.description@,
            server_name@,
            index_output.link@,
            feed_link@,
        ));
    }
    Ok(out)
}

/// Whether `s` opens with the six characters of an `item` element start.
pub open spec fn starts_marker(s: Seq<char>) -> bool {
    s.len() >= 6 && s[0] == '<' && s[1] == 'i' && s[2] == 't' && s[3] == 'e' && s[4] == 'm'
        && s[5] == '>'
}

/// How often the `item` marker `<item>` occurs in `s`.
pub open spec fn count_items(s: Seq<char>) -> nat
    decreases s.len(),
{
    if s.len() < 6 {
        0
    } else {
        (if starts_marker(s) {
            1nat
        } else {
            0nat
        }) + count_items(s.drop_first())
    }
}

/// No `<` anywhere in `s`.
pub open spec fn no_lt(s: Seq<char>) -> bool {
    forall|i: int| 0 <= i < s.len() ==> s[i] != '<'
}

/// No `<` among the last five characters of `s`: nothing that could grow
/// into an `item` marker once more text follows.
pub open spec fn tail_clear(s: Seq<char>) -> bool {
    forall|p: int| 0 <= p < s.len() && s.len() - 5 <= p ==> s[p] != '<'
}

/// A text without `<` holds no `item` marker.
proof fn lemma_no_lt_count_zero(s: Seq<char>)
    requires
        no_lt(s),
    ensures
        count_items(s) == 0,
        tail_clear(s),
    decreases s.len(),
{
    if s.len() >= 6 {
        assert(no_lt(s.drop_first())) by {
            assert(forall|i: int| 0 <= i < s.len() - 1 ==> s.drop_first()[i] == s[i + 1]);
        }
        lemma_no_lt_count_zero(s.drop_first());
    }
}

/// No `<` in `s` is followed by an `i`.
pub open spec fn no_item_start(s: Seq<char>) -> bool {
    forall|p: int|
        0 <= p < s.len() && #[trigger] s[p] == '<' ==> p + 1 >= s.len() || s[p + 1] != 'i'
}

/// A text in which no `<` is followed by an `i` holds no `item` marker.
proof fn lemma_no_item_start_zero(s: Seq<char>)
    requires
        no_item_start(s),
    ensures
        count_items(s) == 0,
    decreases s.len(),
{
    if s.len() >= 6 {
        assert(no_item_start(s.drop_first())) by {
            assert(forall|i: int| 0 <= i < s.len() - 1 ==> s.drop_first()[i] == s[i + 1]);
        }
        lemma_no_item_start_zero(s.drop_first());
    }
}

/// Counting distributes over concatenation when the left part cannot
/// start a marker that the right part would finish.
proof fn lemma_count_concat(a: Seq<char>, b: Seq<char>)
    requires
        tail_clear(a),
    ensures
        count_items(a + b) == count_items(a) + count_items(b),
    decreases a.len(),
{
    let ab = a + b;
    if a.len() == 0 {
        assert(ab =~= b);
    } else {
        let at = a.drop_first();
        assert(ab.drop_first() =~= at + b);
        assert(tail_clear(at)) by {
            assert(forall|i: int| 0 <= i < a.len() - 1 ==> at[i] == a[i + 1]);
        }
        lemma_count_concat(at, b);
        if a.len() >= 6 {
            assert(starts_marker(ab) == starts_marker(a));
        } else {
            assert(a[0] != '<');
            assert(!starts_marker(ab));
        }
    }
}

/// Appending a text without `<` leaves the count alone.
proof fn lemma_append_clear(s: Seq<char>, x: Seq<char>)
    requires
        tail_clear(s),
        no_lt(x),
    ensures
        count_items(s + x) == count_items(s),
        tail_clear(s + x),
{
    lemma_no_lt_count_zero(x);
    lemma_count_concat(s, x);
}

/// Appending a fixed piece of markup adds that piece's own count,
/// provided the piece is long enough to shield what came before it.
proof fn lemma_append_lit(s: Seq<char>, x: Seq<char>)
    requires
        tail_clear(s),
        tail_clear(x),
        x.len() >= 5,
    ensures
        count_items(s + x) == count_items(s) + count_items(x),
        tail_clear(s + x),
{
    lemma_count_concat(s, x);
}

/// An escaped text holds no `<` at all: `<` itself becomes an entity.
proof fn lemma_escape_no_lt(s: Seq<char>)
    ensures
        no_lt(xml_escaped(s)),
    decreases s.len(),
{
    reveal_strlit("&amp;");
    reveal_strlit("&lt;");
    reveal_strlit("&gt;");
    reveal_strlit("&quot;");
    reveal_strlit("&apos;");
    if s.len() > 0 {
        lemma_escape_no_lt(s.drop_last());
        assert(no_lt(escape_char(s.last())));
    }
}

/// A formatted date line holds no `<`: weekday and month names, digits,
/// and punctuation only.
proof fn lemma_rfc822_no_lt(d: crate::date::Date)
    ensures
        no_lt(rfc822_of(d)),
{
    assert(no_lt(crate::date::weekday_name(crate::date::weekday_of(d))));
    assert(no_lt(crate::date::two_digits(d.day as int)));
    assert(no_lt(crate::date::month_name(d.month as int)));
    assert(no_lt(crate::date::four_digits(d.year as int)));
}

/// Appending one whole `item` element adds exactly one marker.
proof fn lemma_append_item_xml(
    s: Seq<char>,
    server: Seq<char>,
    index_link: Seq<char>,
    it: FeedItem,
)
    requires
        tail_clear(s),
    ensures
        count_items(s + rss_item_xml(server, index_link, it)) == count_items(s) + 1,
        tail_clear(s + rss_item_xml(server, index_link, it)),
{
    reveal_strlit("\n  <item>\n    <title>");
    reveal_strlit("</title>\n    <link>");
    reveal_strlit("</link>\n    <description>");
    reveal_strlit("</description>\n    <guid>");
    reveal_strlit("</guid>\n    <pubDate>");
    reveal_strlit("</pubDate>\n  </item>");
    let link = xml_escaped(item_link_of(server, index_link, it));
    let title = xml_escaped(it.meta.title@);
    let body = xml_escaped(it.content@);
    let rfc = rfc822_of(it.meta.date);
    lemma_escape_no_lt(item_link_of(server, index_link, it));
    lemma_escape_no_lt(it.meta.title@);
    lemma_escape_no_lt(it.content@);
    lemma_rfc822_no_lt(it.meta.date);
    assert(count_items("\n  <item>\n    <title>"@) == 1) by {
        reveal_strlit("\n  ");
        reveal_strlit("<item>");
        reveal_strlit("\n    <title>");
        reveal_with_fuel(count_items, 3);
        assert(count_items("\n  "@) == 0);
        assert(starts_marker("<item>"@));
        assert(count_items("<item>"@) == 1);
        assert(no_item_start("\n    <title>"@));
        lemma_no_item_start_zero("\n    <title>"@);
        assert(tail_clear("\n  "@));
        assert(tail_clear("<item>"@));
        lemma_count_concat("<item>"@, "\n    <title>"@);
        lemma_count_concat("\n  "@, "<item>"@ + "\n    <title>"@);
        assert("\n  <item>\n    <title>"@ =~= "\n  "@ + ("<item>"@ + "\n    <title>"@));
    }
    assert(count_items("</title>\n    <link>"@) == 0) by {
        assert(no_item_start("</title>\n    <link>"@));
        lemma_no_item_start_zero("</title>\n    <link>"@);
    }
    assert(count_items("</link>\n    <description>"@) == 0) by {
        assert(no_item_start("</link>\n    <description>"@));
        lemma_no_item_start_zero("</link>\n    <description>"@);
    }
    assert(count_items("</description>\n    <guid>"@) == 0) by {
        assert(no_item_start("</description>\n    <guid>"@));
        lemma_no_item_start_zero("</description>\n    <guid>"@);
    }
    assert(count_items("</guid>\n    <pubDate>"@) == 0) by {
        assert(no_item_start("</guid>\n    <pubDate>"@));
        lemma_no_item_start_zero("</guid>\n    <pubDate>"@);
    }
    assert(count_items("</pubDate>\n  </item>"@) == 0) by {
        assert(no_item_start("</pubDate>\n  </item>"@));
        lemma_no_item_start_zero("</pubDate>\n  </item>"@);
    }
    assert(tail_clear("\n  <item>\n    <title>"@));
    assert(tail_clear("</title>\n    <link>"@));
    assert(tail_clear("</link>\n    <description>"@));
    assert(tail_clear("</description>\n    <guid>"@));
    assert(tail_clear("</guid>\n    <pubDate>"@));
    assert(tail_clear("</pubDate>\n  </item>"@));
    let s1 = s + "\n  <item>\n    <title>"@;
    lemma_append_lit(s, "\n  <item>\n    <title>"@);
    let s2 = s1 + title;
    lemma_append_clear(s1, title);
    let s3 = s2 + "</title>\n    <link>"@;
    lemma_append_lit(s2, "</title>\n    <link>"@);
    let s4 = s3 + link;
    lemma_append_clear(s3, link);
    let s5 = s4 + "</link>\n    <description>"@;
    lemma_append_lit(s4, "</link>\n    <description>"@);
    let s6 = s5 + body;
    lemma_append_clear(s5, body);
    let s7 = s6 + "</description>\n    <guid>"@;
    lemma_append_lit(s6, "</description>\n    <guid>"@);
    let s8 = s7 + link;
    lemma_append_clear(s7, link);
    let s9 = s8 + "</guid>\n    <pubDate>"@;
    lemma_append_lit(s8, "</guid>\n    <pubDate>"@);
    let s10 = s9 + rfc;
    lemma_append_clear(s9, rfc);
    let s11 = s10 + "</pubDate>\n  </item>"@;
    lemma_append_lit(s10, "</pubDate>\n  </item>"@);
    assert(s + rss_item_xml(server, index_link, it) =~= s11);
}

/// Appending a feed's whole item section adds one marker per item.
proof fn lemma_items_fold_count(
    s: Seq<char>,
    server: Seq<char>,
    index_link: Seq<char>,
    items: Seq<FeedItem>,
)
    requires
        tail_clear(s),
    ensures
        count_items(s + rss_items_xml(server, index_link, items)) == count_items(s)
            + items.len(),
        tail_clear(s + rss_items_xml(server, index_link, items)),
    decreases items.len(),
{
    if items.len() == 0 {
        assert(s + rss_items_xml(server, index_link, items) =~= s);
    } else {
        lemma_items_fold_count(s, server, index_link, items.drop_last());
        let s1 = s + rss_items_xml(server, index_link, items.drop_last());
        lemma_append_item_xml(s1, server, index_link, items.last());
        assert(s + rss_items_xml(server, index_link, items) =~= s1 + rss_item_xml(
            server,
            index_link,
            items.last(),
        ));
    }
}

/// The syndication document holds exactly one `item` element opening per
/// content item.
pub proof fn lemma_rss_item_count(
    items: Seq<FeedItem>,
    title: Seq<char>,
    description: Seq<char>,
    server: Seq<char>,
    index_link: Seq<char>,
    feed_link: Seq<char>,
)
    ensures
        count_items(rss_xml(items, title, description, server, index_link, feed_link))
            == items.len(),
{
    reveal_strlit("<rss version=\"2.0\" xmlns:atom=\"http://www.w3.org/2005/Atom\"><channel>\n  <title>");
    reveal_strlit("</title>\n  <link>");
    reveal_strlit("</link>\n  <atom:link href=\"");
    reveal_strlit("\" rel=\"self\" type=\"application/rss+xml\"/>\n  <description>");
    reveal_strlit("</description>");
    reveal_strlit("\n</channel></rss>");
    let full = xml_escaped(server + "/"@ + feed_link);
    let etitle = xml_escaped(title);
    let edesc = xml_escaped(description);
    lemma_escape_no_lt(server + "/"@ + feed_link);
    lemma_escape_no_lt(title);
    lemma_escape_no_lt(description);
    assert(count_items(
        "<rss version=\"2.0\" xmlns:atom=\"http://www.w3.org/2005/Atom\"><channel>\n  <title>"@,
    ) == 0) by {
        assert(no_item_start(
            "<rss version=\"2.0\" xmlns:atom=\"http://www.w3.org/2005/Atom\"><channel>\n  <title>"@,
        ));
        lemma_no_item_start_zero(
            "<rss version=\"2.0\" xmlns:atom=\"http://www.w3.org/2005/Atom\"><channel>\n  <title>"@,
        );
    }
    assert(count_items("</title>\n  <link>"@) == 0) by {
        assert(no_item_start("</title>\n  <link>"@));
        lemma_no_item_start_zero("</title>\n  <link>"@);
    }
    assert(count_items("</link>\n  <atom:link href=\""@) == 0) by {
        assert(no_item_start("</link>\n  <atom:link href=\""@));
        lemma_no_item_start_zero("</link>\n  <atom:link href=\""@);
    }
    assert(count_items("\" rel=\"self\" type=\"application/rss+xml\"/>\n  <description>"@)
        == 0) by {
        assert(no_item_start(
            "\" rel=\"self\" type=\"application/rss+xml\"/>\n  <description>"@,
        ));
        lemma_no_item_start_zero(
            "\" rel=\"self\" type=\"application/rss+xml\"/>\n  <description>"@,
        );
    }
    assert(count_items("</description>"@) == 0) by {
        assert(no_item_start("</description>"@));
        lemma_no_item_start_zero("</description>"@);
    }
    assert(count_items("\n</channel></rss>"@) == 0) by {
        assert(no_item_start("\n</channel></rss>"@));
        lemma_no_item_start_zero("\n</channel></rss>"@);
    }
    assert(tail_clear(
        "<rss version=\"2.0\" xmlns:atom=\"http://www.w3.org/2005/Atom\"><channel>\n  <title>"@,
    ));
    assert(tail_clear("</title>\n  <link>"@));
    assert(tail_clear("</link>\n  <atom:link href=\""@));
    assert(tail_clear("\" rel=\"self\" type=\"application/rss+xml\"/>\n  <description>"@));
    assert(tail_clear("</description>"@));
    assert(tail_clear("\n</channel></rss>"@));
    let s1 =
        "<rss version=\"2.0\" xmlns:atom=\"http://www.w3.org/2005/Atom\"><channel>\n  <title>"@;
    let s2 = s1 + etitle;
    lemma_append_clear(s1, etitle);
    let s3 = s2 + "</title>\n  <link>"@;
    lemma_append_lit(s2, "</title>\n  <link>"@);
    let s4 = s3 + full;
    lemma_append_clear(s3, full);
    let s5 = s4 + "</link>\n  <atom:link href=\""@;
    lemma_append_lit(s4, "</link>\n  <atom:link href=\""@);
    let s6 = s5 + full;
    lemma_append_clear(s5, full);
    let s7 = s6 + "\" rel=\"self\" type=\"application/rss+xml\"/>\n  <description>"@;
    lemma_append_lit(s6, "\" rel=\"self\" type=\"application/rss+xml\"/>\n  <description>"@);
    let s8 = s7 + edesc;
    lemma_append_clear(s7, edesc);
    let s9 = s8 + "</description>"@;
    lemma_append_lit(s8, "</description>"@);
    lemma_items_fold_count(s9, server, index_link, items);
    let s10 = s9 + rss_items_xml(server, index_link, items);
    let s11 = s10 + "\n</channel></rss>"@;
    lemma_append_lit(s10, "\n</channel></rss>"@);
    assert(rss_xml(items, title, description, server, index_link, feed_link) =~= s11);
}

/// When every item of a feed is linked to its own generated page — as the
/// rendering pipeline links them, at the per-item link prefix joined with
/// the item's identifier — the syndication document references each item
/// at the server origin, a slash, and that link.
pub proof fn lemma_rss_links(
    server: Seq<char>,
    index_link: Seq<char>,
    content_link: Seq<char>,
    items: Seq<FeedItem>,
)
    requires
        forall|k: int|
            0 <= k < items.len() ==> (#[trigger] items[k]).link is Some
                && items[k].link->Some_0@ == crate::paths::join_of(
                content_link,
                items[k].file_name@,
            ),
    ensures
        forall|k: int|
            0 <= k < items.len() ==> item_link_of(server, index_link, #[trigger] items[k])
                == server + "/"@ + crate::paths::join_of(content_link, items[k].file_name@),
{
}

} // verus!
