use crate::config::{FeedConfig, ServerConfig};
use crate::content::FeedItem;
use crate::paths::{join_of, join_path};
use crate::rss::{generate_rss_xml, rss_xml};
use crate::strmap::StrMap;
use vstd::prelude::*;

verus! {

// The rendering pipeline's assembly stage. Templates are rendered by an
// outside engine, so the pipeline is staged: the caller loads and sorts a
// feed's items, renders the per-item documents, has the links assigned,
// renders the index document, and hands everything here. This stage owns
// the output paths, the ordering of insertions, the syndication document,
// and the rule that a syndication link demands an index output.

/// What the caller rendered for one feed: the feed's sorted items, one
/// document per item when a per-item output is configured, and the index
/// document when an index output is configured.
pub struct FeedRender {
    pub items: Vec<FeedItem>,
    pub content_docs: Option<Vec<String>>,
    pub index_doc: Option<String>,
}

/// Why assembling the outputs failed.
#[derive(Debug, PartialEq, Eq)]
pub enum GenError {
    /// The named feed declares a syndication link but no index output.
    ConfigError(String),
}

/// Gives every item the link of its generated page: the per-item link
/// prefix joined with the item's identifier. The other fields stay.
pub fn assign_links(output_link: &str, items: &mut Vec<FeedItem>)
    ensures
        final(items)@.len() == old(items)@.len(),
        forall|k: int|
            0 <= k < old(items)@.len() ==> {
                let it = #[trigger] final(items)@[k];
                &&& it.link is Some
                &&& it.link->Some_0@ == join_of(output_link@, old(items)@[k].file_name@)
                &&& it.file_name == old(items)@[k].file_name
                &&& it.meta == old(items)@[k].meta
                &&& it.content == old(items)@[k].content
            },
{
    let n = items.len();
    let mut k: usize = 0;
    while k < n
        invariant
            k <= n,
            n == items@.len(),
            items@.len() == old(items)@.len(),
            forall|m: int| k <= m < n ==> items@[m] == old(items)@[m],
            forall|m: int|
                0 <= m < k ==> {
                    let it = #[trigger] items@[m];
                    &&& it.link is Some
                    &&& it.link->Some_0@ == join_of(output_link@, old(items)@[m].file_name@)
                    &&& it.file_name == old(items)@[m].file_name
                    &&& it.meta == old(items)@[m].meta
                    &&& it.content == old(items)@[m].content
                },
        decreases n - k,
    {
        let link = join_path(output_link, items[k].file_name.as_str());
        items[k].link = Some(link);
        k += 1;
    }
}

/// The output table after the per-item documents of one feed are filed:
/// document `k` under the link prefix joined with item `k`'s identifier.
pub open spec fn content_entries(
    m0: Map<Seq<char>, Seq<char>>,
    o_link: Seq<char>,
    items: Seq<FeedItem>,
    docs: Seq<String>,
) -> Map<Seq<char>, Seq<char>>
    decreases items.len(),
{
    if items.len() == 0 {
        m0
    } else {
        content_entries(m0, o_link, items.drop_last(), docs.drop_last()).insert(
            join_of(o_link, items.last().file_name@),
            docs.last()@,
        )
    }
}

/// The output table after one whole feed is filed: its per-item documents,
/// then its index document, then its syndication document.
pub open spec fn feed_map(
    m0: Map<Seq<char>, Seq<char>>,
    server: Seq<char>,
    fc: FeedConfig,
    fr: FeedRender,
) -> Map<Seq<char>, Seq<char>> {
    let m1 = match fc.content_output {
        Some(o) => match fr.content_docs {
            Some(docs) => content_entries(m0, o.link@, fr.items@, docs@),
            None => m0,
        },
        None => m0,
    };
    let m2 = match fc.index_output {
        Some(o) => match fr.index_doc {
            Some(doc) => m1.insert(o.link@, doc@),
            None => m1,
        },
        None => m1,
    };
    match fc.rss_feed_link {
        Some(l) => m2.insert(
            l@,
            rss_xml(
                fr.items@,
                fc.title@,
                fc.description@,
                server,
                fc.index_output->Some_0.link@,
                l@,
            ),
        ),
        None => m2,
    }
}

/// The output table after every feed is filed, in order.
pub open spec fn feeds_map(
    m0: Map<Seq<char>, Seq<char>>,
    server: Seq<char>,
    fcs: Seq<FeedConfig>,
    frs: Seq<FeedRender>,
) -> Map<Seq<char>, Seq<char>>
    decreases fcs.len(),
{
    if fcs.len() == 0 {
        m0
    } else {
        feed_map(
            feeds_map(m0, server, fcs.drop_last(), frs.drop_last()),
            server,
            fcs.last(),
            frs.last(),
        )
    }
}

/// The generated-output table: logical path to rendered document. Built
/// once, read by every request.
pub struct Generator {
    files: StrMap,
}

impl View for Generator {
    type V = Map<Seq<char>, Seq<char>>;

    closed spec fn view(&self) -> Map<Seq<char>, Seq<char>> {
        self.files@
    }
}

impl Generator {
    /// Assembles the output table from the feeds' rendered parts, feed by
    /// feed, exactly as `feeds_map` lays them out. Fails on the first feed
    /// that declares a syndication link without an index output, and then
    /// produces no table at all.
    pub fn generate(config: &ServerConfig, feeds: Vec<FeedRender>) -> (r: Result<
        Generator,
        GenError,
    >)
        requires
            feeds@.len() == config.feeds@.len(),
            forall|f: int|
                0 <= f < feeds@.len() ==> {
                    let fc = config.feeds@[f];
                    let fr = #[trigger] feeds@[f];
                    &&& (fr.content_docs is Some <==> fc.content_output is Some)
                    &&& (fr.content_docs is Some ==> fr.content_docs->Some_0@.len()
                        == fr.items@.len())
                    &&& (fr.index_doc is Some <==> fc.index_output is Some)
                    &&& forall|k: int|
                        0 <= k < fr.items@.len() ==> (#[trigger] fr.items@[k]).meta.date.valid()
                },
        ensures
            match r {
                Ok(g) => {
                    &&& forall|f: int|
                        0 <= f < config.feeds@.len() ==> (#[trigger] config.feeds@[f]).syndication_ok()
                    &&& g@ == feeds_map(
                        Map::empty(),
                        config.server_name@,
                        config.feeds@,
                        feeds@,
                    )
                },
                Err(e) => match e {
                    GenError::ConfigError(t) => exists|f: int|
                        {
                            &&& 0 <= f < config.feeds@.len()
                            &&& !(#[trigger] config.feeds@[f]).syndication_ok()
                            &&& t@ == config.feeds@[f].title@
                            &&& forall|m: int|
                                0 <= m < f ==> (#[trigger] config.feeds@[m]).syndication_ok()
                        },
                },
            },
    {
        let ghost frs0 = feeds@;
        let nf = feeds.len();
        let mut files = StrMap::new();
        let mut frs = feeds;
        let mut f: usize = 0;
        while f < nf
            invariant
                f <= nf,
                nf == config.feeds@.len(),
                frs0 == feeds@,
                frs0.len() == nf,
                frs@ =~= frs0.skip(f as int),
                files@ == feeds_map(
                    Map::empty(),
                    config.server_name@,
                    config.feeds@.take(f as int),
                    frs0.take(f as int),
                ),
                forall|m: int|
                    0 <= m < f ==> (#[trigger] config.feeds@[m]).syndication_ok(),
                forall|m: int|
                    0 <= m < nf ==> {
                        let fc = config.feeds@[m];
                        let fr = #[trigger] frs0[m];
                        &&& (fr.content_docs is Some <==> fc.content_output is Some)
                        &&& (fr.content_docs is Some ==> fr.content_docs->Some_0@.len()
                            == fr.items@.len())
                        &&& (fr.index_doc is Some <==> fc.index_output is Some)
                        &&& forall|k: int|
                            0 <= k < fr.items@.len() ==> (#[trigger] fr.items@[k]).meta.date.valid()
                    },
            decreases nf - f,
        {
            let fr = frs.remove(0);
            proof {
                assert(fr == frs0[f as int]);
            }
            let fc = &config.feeds[f];
            let FeedRender { items, content_docs, index_doc } = fr;
            let ghost m_start = files@;

            // Per-item documents.
            match (&fc.content_output, content_docs) {
                (Some(o), Some(docs)) => {
                    let ni = items.len();
                    let mut k: usize = 0;
                    while k < ni
                        invariant
                            k <= ni,
                            ni == items@.len(),
                            docs@.len() == ni,
                            files@ == content_entries(
                                m_start,
                                o.link@,
                                items@.take(k as int),
                                docs@.take(k as int),
                            ),
                        decreases ni - k,
                    {
                        let key = join_path(o.link.as_str(), items[k].file_name.as_str());
                        files.insert(key, docs[k].clone());
                        proof {
                            assert(items@.take(k + 1).drop_last() =~= items@.take(k as int));
                            assert(docs@.take(k + 1).drop_last() =~= docs@.take(k as int));
                            assert(items@.take(k + 1).last() == items@[k as int]);
                            assert(docs@.take(k + 1).last() == docs@[k as int]);
                        }
                        k += 1;
                    }
                    proof {
                        assert(items@.take(ni as int) =~= items@);
                        assert(docs@.take(ni as int) =~= docs@);
                    }
                },
                (None, None) => {},
                _ => {
                    proof {
                        assert(false);
                    }
                },
            }

            // The index document.
            match (&fc.index_output, index_doc) {
                (Some(o), Some(doc)) => {
                    files.insert(o.link.clone(), doc);
                },
                (None, None) => {},
                _ => {
                    proof {
                        assert(false);
                    }
                },
            }

            // The syndication document.
            match &fc.rss_feed_link {
                Some(l) => match &fc.index_output {
                    Some(io) => {
                        match generate_rss_xml(&items, fc, &config.server_name, io, l) {
                            Ok(doc) => {
                                files.insert(l.clone(), doc);
                            },
                            Err(_) => {
                                proof {
                                    assert(false);
                                }
                            },
                        }
                    },
                    None => {
                        return Err(GenError::ConfigError(fc.title.clone()));
                    },
                },
                None => {},
            }

            proof {
                assert(config.feeds@.take(f + 1).drop_last() =~= config.feeds@.take(f as int));
                assert(frs0.take(f + 1).drop_last() =~= frs0.take(f as int));
                assert(config.feeds@.take(f + 1).last() == config.feeds@[f as int]);
                assert(frs0.take(f + 1).last() == frs0[f as int]);
                assert(frs@ =~= frs0.skip(f + 1));
            }
            f += 1;
        }
        proof {
            assert(config.feeds@.take(nf as int) =~= config.feeds@);
            assert(frs0.take(nf as int) =~= frs0);
        }
        Ok(Generator { files })
    }

    /// Looks a logical path up in the table.
    pub fn get<'a>(&'a self, path: &str) -> (r: Option<&'a String>)
        ensures
            match r {
                Some(v) => self@.contains_key(path@) && v@ == self@[path@],
                None => !self@.contains_key(path@),
            },
    {
        self.files.get(path)
    }
}

} // verus!
