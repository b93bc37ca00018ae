use vstd::prelude::*;

verus! {

/// Where one kind of output of a feed goes: the template that renders it
/// and the logical path it is served under.
pub struct FeedOutput {
    pub template: String,
    pub link: String,
}

/// One feed: its public identity, its source directory, and which outputs
/// it generates.
pub struct FeedConfig {
    pub title: String,
    pub description: String,
    pub link: String,
    /// The logical path the feed's syndication document is served under.
    pub rss_feed_link: Option<String>,
    pub source_dir: String,
    /// Per-item pages: template and link-path prefix.
    pub content_output: Option<FeedOutput>,
    /// The feed's index page: template and link path.
    pub index_output: Option<FeedOutput>,
}

impl FeedConfig {
    /// A syndication document references its feed's index page, so a feed
    /// that declares a syndication link must declare an index output too.
    pub open spec fn syndication_ok(self) -> bool {
        self.rss_feed_link is Some ==> self.index_output is Some
    }
}

/// The whole server configuration, as plain values. Paths are logical,
/// slash-separated, and carry no trailing slash.
pub struct ServerConfig {
    pub address: String,
    pub port: u16,
    pub server_name: String,
    pub root_dir: String,
    pub index: String,
    pub error_template: Option<String>,
    pub content_ext: String,
    pub ignored_paths: Vec<String>,
    pub feeds: Vec<FeedConfig>,
}

} // verus!
