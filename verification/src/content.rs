use crate::date::{date_le, Date};
use crate::paths::strip_extension_of;
use vstd::prelude::*;

verus! {

// The content loader. A source file is front matter, a separator, and a
// body; the loader frames the file into those parts and derives the item's
// identifier from the file's name. Reading the directory and decoding the
// front matter into field values happen outside; the loader owns the
// framing, the fail-fast policy, and the item assembly.

/// How a content body is marked up.
pub enum FeedContentType {
    Html,
    Markdown,
}

/// An image reference in a content item's metadata.
pub struct FeedImage {
    pub alt: String,
    pub file_name: String,
}

/// An outbound link in a content item's metadata.
pub struct FeedLink {
    pub content: String,
    pub url: String,
}

/// The metadata of one content item.
pub struct FeedMeta {
    pub title: String,
    pub subtitle: Option<String>,
    pub date: Date,
    pub date_label: Option<String>,
    pub tags: Option<Vec<String>>,
    pub image: Option<FeedImage>,
    pub links: Option<Vec<FeedLink>>,
    pub content_type: FeedContentType,
}

/// One content item: identifier, metadata, rendered body, and the link it
/// resolves to once a per-item page is generated for it.
pub struct FeedItem {
    pub file_name: String,
    pub meta: FeedMeta,
    pub content: String,
    pub link: Option<String>,
}

impl FeedItem {
    /// A fresh item, not yet linked to a generated page.
    pub fn new(id: String, meta: FeedMeta, content: String) -> (r: FeedItem)
        ensures
            r.file_name == id,
            r.meta == meta,
            r.content == content,
            r.link is None,
    {
        FeedItem { file_name: id, meta, content, link: None }
    }
}

/// One file of a feed's source directory, as handed to the loader.
pub struct SourceFile {
    pub name: String,
    pub text: String,
}

/// One framed content file: identifier, front-matter text, body text.
#[derive(Debug)]
pub struct RawContent {
    pub id: String,
    pub meta_text: String,
    pub body: String,
}

/// Why loading a content directory failed.
#[derive(Debug, PartialEq, Eq)]
pub enum LoadError {
    /// The named file has no front-matter separator, or its front matter
    /// does not decode.
    MalformedContentFile(String),
}

/// Whether `pat` occurs in `s` at position `i`.
pub open spec fn occurs_at(s: Seq<char>, pat: Seq<char>, i: int) -> bool {
    0 <= i && i + pat.len() <= s.len() && s.subrange(i, i + pat.len()) == pat
}

/// The position of the first occurrence of a nonempty `pat` in `s` at or
/// after `from`; an empty `pat` is found nowhere.
pub open spec fn find_sub(s: Seq<char>, pat: Seq<char>, from: int) -> Option<int>
    decreases s.len() - from,
{
    if from < 0 || pat.len() == 0 || from + pat.len() > s.len() {
        None
    } else if occurs_at(s, pat, from) {
        Some(from)
    } else {
        find_sub(s, pat, from + 1)
    }
}

/// What `find_sub` returns: the first occurrence at or after `from`.
pub proof fn lemma_find_sub(s: Seq<char>, pat: Seq<char>, from: int)
    requires
        0 <= from,
        pat.len() > 0,
    ensures
        match find_sub(s, pat, from) {
            Some(k) => from <= k && occurs_at(s, pat, k) && (forall|m: int|
                from <= m < k ==> !occurs_at(s, pat, m)),
            None => forall|m: int| from <= m ==> !(#[trigger] occurs_at(s, pat, m)),
        },
    decreases s.len() - from,
{
    if from + pat.len() > s.len() {
        assert(forall|m: int| from <= m ==> !(#[trigger] occurs_at(s, pat, m)));
    } else if !occurs_at(s, pat, from) {
        lemma_find_sub(s, pat, from + 1);
    }
}

fn match_at(s: &str, pat: &str, i: usize, n: usize, plen: usize) -> (r: bool)
    requires
        n == s@.len(),
        plen == pat@.len(),
        i + plen <= n,
    ensures
        r == occurs_at(s@, pat@, i as int),
{
    let mut k: usize = 0;
    while k < plen
        invariant
            k <= plen,
            n == s@.len(),
            plen == pat@.len(),
            i + plen <= n,
            forall|m: int| 0 <= m < k ==> s@[i + m] == pat@[m],
        decreases plen - k,
    {
        if s.get_char(i + k) != pat.get_char(k) {
            proof {
                assert(s@.subrange(i as int, i + plen)[k as int] == s@[i + k]);
            }
            return false;
        }
        k += 1;
    }
    proof {
        assert(s@.subrange(i as int, i + plen) =~= pat@);
    }
    true
}

/// The position of the first occurrence of `pat` in `s` at or after `from`.
pub fn find_substring(s: &str, pat: &str, from: usize) -> (r: Option<usize>)
    ensures
        match r {
            Some(k) => find_sub(s@, pat@, from as int) == Some(k as int),
            None => find_sub(s@, pat@, from as int) is None,
        },
{
    let n = s.unicode_len();
    let plen = pat.unicode_len();
    if plen == 0 || plen > n || from > n - plen {
        return None;
    }
    let mut i: usize = from;
    while i <= n - plen
        invariant
            from <= i,
            i <= n - plen + 1,
            1 <= plen <= n,
            n == s@.len(),
            plen == pat@.len(),
            find_sub(s@, pat@, from as int) == find_sub(s@, pat@, i as int),
        decreases n - i,
    {
        if match_at(s, pat, i, n, plen) {
            return Some(i);
        }
        i += 1;
    }
    None
}

/// The front-matter separator: three underscores.
pub open spec fn separator() -> Seq<char> {
    seq!['_', '_', '_']
}

/// A content file split at the first separator: the front matter before
/// it, the body after it. `None` when the file has no separator.
pub open spec fn split_at_sep(s: Seq<char>) -> Option<(Seq<char>, Seq<char>)> {
    match find_sub(s, separator(), 0) {
        Some(i) => Some((s.subrange(0, i), s.subrange(i + 3, s.len() as int))),
        None => None,
    }
}

/// Splits a content file at the first front-matter separator.
pub fn split_content_file(text: &str) -> (r: Option<(String, String)>)
    ensures
        match r {
            Some(p) => split_at_sep(text@) == Some((p.0@, p.1@)),
            None => split_at_sep(text@) is None,
        },
{
    proof {
        reveal_strlit("___");
        assert("___"@ =~= separator());
        lemma_find_sub(text@, separator(), 0);
    }
    let n = text.unicode_len();
    match find_substring(text, "___", 0) {
        Some(i) => Some(
            (text.substring_char(0, i).to_owned(), text.substring_char(i + 3, n).to_owned()),
        ),
        None => None,
    }
}

/// Frames every file of a directory listing, in order.
///
/// Returns one raw item per file, its identifier the file's name without
/// its extension, or the first file with no front-matter separator as a
/// `MalformedContentFile` error naming that file. All-or-nothing: one
/// malformed file fails the whole directory.
pub fn load(files: &Vec<SourceFile>) -> (r: Result<Vec<RawContent>, LoadError>)
    ensures
        match r {
            Ok(v) => {
                &&& v@.len() == files@.len()
                &&& forall|k: int|
                    0 <= k < v@.len() ==> {
                        &&& (#[trigger] v@[k]).id@ == strip_extension_of(files@[k].name@)
                        &&& split_at_sep(files@[k].text@) == Some(
                            (v@[k].meta_text@, v@[k].body@),
                        )
                    }
            },
            Err(e) => match e {
                LoadError::MalformedContentFile(nm) => exists|k: int|
                    {
                        &&& 0 <= k < files@.len()
                        &&& split_at_sep(#[trigger] files@[k].text@) is None
                        &&& nm@ == files@[k].name@
                        &&& forall|m: int|
                            0 <= m < k ==> split_at_sep(#[trigger] files@[m].text@) is Some
                    },
            },
        },
{
    let n = files.len();
    let mut out: Vec<RawContent> = Vec::new();
    let mut i: usize = 0;
    while i < n
        invariant
            i <= n,
            n == files@.len(),
            out@.len() == i,
            forall|k: int|
                0 <= k < i ==> {
                    &&& (#[trigger] out@[k]).id@ == strip_extension_of(files@[k].name@)
                    &&& split_at_sep(files@[k].text@) == Some(
                        (out@[k].meta_text@, out@[k].body@),
                    )
                },
        decreases n - i,
    {
        let f = &files[i];
        match split_content_file(f.text.as_str()) {
            Some(parts) => {
                let id = crate::paths::strip_extension(f.name.as_str());
                out.push(RawContent { id, meta_text: parts.0, body: parts.1 });
            },
            None => {
                proof {
                    assert(split_at_sep(files@[i as int].text@) is None);
                    assert forall|m: int|
                        0 <= m < i implies split_at_sep(#[trigger] files@[m].text@) is Some by {
                        assert(out@[m].id@ == strip_extension_of(files@[m].name@));
                    }
                }
                return Err(LoadError::MalformedContentFile(f.name.clone()));
            },
        }
        i += 1;
    }
    Ok(out)
}

/// What converting a markdown text to HTML yields. The conversion is done
/// by an outside library; this names its result, a function of the input
/// text alone.
pub uninterp spec fn markdown_html_of(s: Seq<char>) -> Seq<char>;

/// Relies on comrak::markdown_to_html with default options: a pure
/// markdown-to-HTML conversion, a function of the input text alone.
#[verifier::external_body]
fn markdown_convert(input: &str) -> (r: String)
    ensures
        r@ == markdown_html_of(input@),
{
    comrak::markdown_to_html(input, &comrak::Options::default())
}

/// The body a content item carries into rendering: HTML passed through
/// verbatim, markdown converted.
pub open spec fn rendered_body(body: Seq<char>, t: FeedContentType) -> Seq<char> {
    match t {
        FeedContentType::Html => body,
        FeedContentType::Markdown => markdown_html_of(body),
    }
}

/// Converts a raw body to the markup the templates expect, as its
/// content-format tag directs.
pub fn render_content(input: &str, content_type: &FeedContentType) -> (r: Result<String, String>)
    ensures
        match r {
            Ok(s) => s@ == rendered_body(input@, *content_type),
            Err(_) => false,
        },
{
    match content_type {
        FeedContentType::Html => Ok(input.to_owned()),
        FeedContentType::Markdown => Ok(markdown_convert(input)),
    }
}

/// One decoded source: identifier, metadata, raw body.
pub struct ContentSource {
    pub id: String,
    pub meta: FeedMeta,
    pub body: String,
}

/// Builds one item per source, in order: the identifier kept, the body
/// rendered by its content-format tag, no link yet.
pub fn make_items(sources: Vec<ContentSource>) -> (r: Vec<FeedItem>)
    ensures
        r@.len() == sources@.len(),
        forall|k: int|
            0 <= k < r@.len() ==> {
                &&& (#[trigger] r@[k]).file_name == sources@[k].id
                &&& r@[k].meta == sources@[k].meta
                &&& r@[k].content@ == rendered_body(
                    sources@[k].body@,
                    sources@[k].meta.content_type,
                )
                &&& r@[k].link is None
            },
{
    let ghost orig = sources@;
    let mut rest = sources;
    let mut out: Vec<FeedItem> = Vec::new();
    while rest.len() > 0
        invariant
            out@.len() + rest@.len() == orig.len(),
            rest@ =~= orig.skip(out@.len() as int),
            forall|k: int|
                0 <= k < out@.len() ==> {
                    &&& (#[trigger] out@[k]).file_name == orig[k].id
                    &&& out@[k].meta == orig[k].meta
                    &&& out@[k].content@ == rendered_body(
                        orig[k].body@,
                        orig[k].meta.content_type,
                    )
                    &&& out@[k].link is None
                },
        decreases rest@.len(),
    {
        let s = rest.remove(0);
        proof {
            assert(s == orig[out@.len() as int]);
        }
        let body = match render_content(s.body.as_str(), &s.meta.content_type) {
            Ok(b) => b,
            Err(_) => {
                proof {
                    assert(false);
                }
                String::new()
            },
        };
        out.push(FeedItem::new(s.id, s.meta, body));
        proof {
            assert(rest@ =~= orig.skip(out@.len() as int));
        }
    }
    out
}

/// Newest first: every item is dated no earlier than any item after it.
pub open spec fn sorted_by_date_desc(s: Seq<FeedItem>) -> bool {
    forall|i: int, j: int|
        0 <= i < j < s.len() ==> (#[trigger] s[i]).meta.date.key() >= (#[trigger] s[j]).meta.date.key()
}

/// The position of the newest item of a nonempty collection, the
/// earliest position winning ties.
pub open spec fn first_max_idx(s: Seq<FeedItem>) -> int
    decreases s.len(),
{
    if s.len() <= 1 {
        0
    } else {
        let rest = first_max_idx(s.drop_first()) + 1;
        if s[0].meta.date.key() >= s[rest].meta.date.key() {
            0
        } else {
            rest
        }
    }
}

/// `first_max_idx` names a position of the newest item, and the first one.
pub proof fn lemma_first_max_idx(s: Seq<FeedItem>)
    requires
        s.len() > 0,
    ensures
        0 <= first_max_idx(s) < s.len(),
        forall|k: int|
            0 <= k < s.len() ==> (#[trigger] s[k]).meta.date.key()
                <= s[first_max_idx(s)].meta.date.key(),
        forall|k: int|
            0 <= k < first_max_idx(s) ==> (#[trigger] s[k]).meta.date.key()
                < s[first_max_idx(s)].meta.date.key(),
    decreases s.len(),
{
    if s.len() > 1 {
        let t = s.drop_first();
        lemma_first_max_idx(t);
        let i = first_max_idx(s);
        assert(forall|k: int| 0 <= k < s.len() - 1 ==> #[trigger] t[k] == s[k + 1]);
        assert forall|k: int|
            0 <= k < s.len() implies (#[trigger] s[k]).meta.date.key()
            <= s[i].meta.date.key() by {
            if k > 0 {
                assert(s[k] == t[k - 1]);
                assert(t[k - 1].meta.date.key() <= t[first_max_idx(t)].meta.date.key());
            }
        }
        assert forall|k: int|
            0 <= k < i implies (#[trigger] s[k]).meta.date.key() < s[i].meta.date.key() by {
            if k > 0 {
                assert(t[k - 1].meta.date.key() < t[first_max_idx(t)].meta.date.key());
            }
        }
    }
}

/// The position with the largest key, strictly larger than everything
/// before it, is the one `first_max_idx` names.
proof fn lemma_first_max_idx_unique(s: Seq<FeedItem>, b: int)
    requires
        0 <= b < s.len(),
        forall|k: int|
            0 <= k < s.len() ==> (#[trigger] s[k]).meta.date.key() <= s[b].meta.date.key(),
        forall|k: int| 0 <= k < b ==> (#[trigger] s[k]).meta.date.key() < s[b].meta.date.key(),
    ensures
        b == first_max_idx(s),
    decreases s.len(),
{
    lemma_first_max_idx(s);
    assert(forall|k: int| 0 <= k < s.len() - 1 ==> #[trigger] s.drop_first()[k] == s[k + 1]);
    if b == 0 {
    } else {
        assert(s[0].meta.date.key() < s[b].meta.date.key());
        lemma_first_max_idx_unique(s.drop_first(), b - 1);
    }
}

#[via_fn]
proof fn stable_sort_desc_decreases(s: Seq<FeedItem>) {
    if s.len() > 0 {
        lemma_first_max_idx(s);
    }
}

/// The collection ordered newest first, items sharing a date keeping
/// their relative order: the first newest item, then the rest, ordered
/// the same way.
pub open spec fn stable_sort_desc(s: Seq<FeedItem>) -> Seq<FeedItem>
    decreases s.len(),
    via stable_sort_desc_decreases
{
    if s.len() == 0 {
        Seq::empty()
    } else {
        seq![s[first_max_idx(s)]] + stable_sort_desc(s.remove(first_max_idx(s)))
    }
}


/// Orders a collection by publication date, newest first. The result
/// holds exactly the given items; ones sharing a date keep their
/// relative order.
pub fn sort_items(items: Vec<FeedItem>) -> (r: Vec<FeedItem>)
    requires
        forall|k: int| 0 <= k < items@.len() ==> (#[trigger] items@[k]).meta.date.valid(),
    ensures
        r@ == stable_sort_desc(items@),
        sorted_by_date_desc(r@),
        r@.to_multiset() == items@.to_multiset(),
        r@.len() == items@.len(),
{
    broadcast use vstd::seq_lib::group_to_multiset_ensures;

    let mut src = items;
    let mut out: Vec<FeedItem> = Vec::new();
    let ghost orig_ms = src@.to_multiset();
    proof {
        assert(out@.to_multiset().add(src@.to_multiset()) =~= orig_ms);
    }
    while src.len() > 0
        invariant
            forall|k: int| 0 <= k < src@.len() ==> (#[trigger] src@[k]).meta.date.valid(),
            sorted_by_date_desc(out@),
            forall|a: int, b: int|
                0 <= a < out@.len() && 0 <= b < src@.len() ==> (#[trigger] out@[a]).meta.date.key()
                    >= (#[trigger] src@[b]).meta.date.key(),
            out@.to_multiset().add(src@.to_multiset()) == orig_ms,
            orig_ms == items@.to_multiset(),
            out@.len() + src@.len() == items@.len(),
            out@ + stable_sort_desc(src@) == stable_sort_desc(items@),
        decreases src@.len(),
    {
        let n = src.len();
        let mut best: usize = 0;
        let mut t: usize = 1;
        while t < n
            invariant
                n == src@.len(),
                0 < n,
                best < t <= n,
                forall|k: int| 0 <= k < src@.len() ==> (#[trigger] src@[k]).meta.date.valid(),
                forall|k: int|
                    0 <= k < t ==> (#[trigger] src@[k]).meta.date.key()
                        <= src@[best as int].meta.date.key(),
                forall|k: int|
                    0 <= k < best ==> (#[trigger] src@[k]).meta.date.key()
                        < src@[best as int].meta.date.key(),
            decreases n - t,
        {
            if !date_le(&src[t].meta.date, &src[best].meta.date) {
                best = t;
            }
            t += 1;
        }
        let ghost src_before = src@;
        let ghost out_before = out@;
        proof {
            lemma_first_max_idx_unique(src_before, best as int);
        }
        let x = src.remove(best);
        out.push(x);
        proof {
            broadcast use vstd::multiset::group_multiset_axioms;

            src_before.to_multiset_ensures();
            out_before.to_multiset_ensures();
            assert(src_before.contains(src_before[best as int]));
            assert(src_before.to_multiset().count(src_before[best as int]) > 0);
            assert(out@.to_multiset().add(src@.to_multiset()) =~= out_before.to_multiset().add(
                src_before.to_multiset(),
            ));
            assert(forall|b: int|
                0 <= b < src@.len() ==> #[trigger] src@[b] == if b < best {
                    src_before[b]
                } else {
                    src_before[b + 1]
                });
            assert(stable_sort_desc(src_before) == seq![x] + stable_sort_desc(src@));
            assert(out@ + stable_sort_desc(src@) =~= out_before + stable_sort_desc(
                src_before,
            ));
        }
    }
    proof {
        assert(stable_sort_desc(src@) =~= Seq::<FeedItem>::empty());
        assert(out@ =~= out@ + stable_sort_desc(src@));
    }
    out
}

} // verus!

