//! Feeds: which urls are accepted, and what is read of a feed's text.
use std::str::FromStr;
use vstd::prelude::*;

pub mod markup;
pub mod search;

use markup::is_readable;
use markup::readable;

pub use search::Search;
pub use search::SearchResult;

verus! {

/// The scheme that the `url` crate finds in `s`, parsed as an absolute url;
/// `None` where it rejects `s`.
pub uninterp spec fn url_scheme(s: Seq<char>) -> Option<Seq<char>>;

/// What the `rss` crate reads from the text of a feed: the channel's title,
/// and for each item, in the order of the feed, its title if it has one;
/// `None` where it rejects the text.
pub uninterp spec fn rss_channel(text: Seq<char>) -> Option<(Seq<char>, Seq<Option<Seq<char>>>)>;

/// `url::Url::parse`, then `Url::scheme` on what it returns.
///
/// Nothing is claimed of how a url is parsed: the result is known only as
/// `url_scheme` of the input.
#[verifier::external_body]
fn parse_scheme(s: &str) -> (scheme: Option<String>)
    ensures
        scheme.deep_view() == url_scheme(s@),
{
    match url::Url::parse(s) {
        Ok(url) => Some(url.scheme().to_owned()),
        Err(_) => None,
    }
}

/// `rss::Channel::from_str`; of the channel it returns, `title()` and the
/// `title()` of each of its `items()` are handed on.
///
/// Nothing is claimed of how a feed is parsed: the result is known only as
/// `rss_channel` of the input, which is `None` exactly where the crate gives
/// an error.
///
/// The call is made on readable texts only. On others the crate may not
/// return: it unwraps what it parses of the period and the frequency of an
/// update schedule, and it calls itself once for each element that stands
/// open inside an extension element, until the stack is used up.
#[verifier::external_body]
fn read_channel(text: &str) -> (channel: Option<(String, Vec<Option<String>>)>)
    requires
        readable(text@),
    ensures
        channel.deep_view() == rss_channel(text@),
{
    let channel = rss::Channel::from_str(text).ok()?;
    let titles = channel.items().iter().map(|item| item.title().map(|t| t.to_owned())).collect();
    Some((channel.title().to_owned(), titles))
}

/// Whether a scheme is http or https.
pub open spec fn is_web_scheme(scheme: Seq<char>) -> bool {
    scheme == "http"@ || scheme == "https"@
}

/// Whether `s` is an absolute url whose scheme is http or https.
pub open spec fn is_valid_url(s: Seq<char>) -> bool {
    match url_scheme(s) {
        Some(scheme) => is_web_scheme(scheme),
        None => false,
    }
}

/// Whether a scheme is one that a feed or an episode can be fetched by.
pub fn web_scheme(scheme: &str) -> (web: bool)
    ensures
        web == is_web_scheme(scheme@),
{
    let scheme = scheme.to_owned();
    scheme == "http".to_owned() || scheme == "https".to_owned()
}

/// Whether `s` is the url of something that the player can fetch: an
/// absolute url whose scheme is http or https.
pub fn valid_url(s: &str) -> (valid: bool)
    ensures
        valid == is_valid_url(s@),
{
    match parse_scheme(s) {
        Some(scheme) => web_scheme(scheme.as_str()),
        None => false,
    }
}

/// What the player keeps of a feed.
#[derive(Debug, Clone, PartialEq, Eq)]
pub struct Feed {
    /// The channel's title.
    pub title: String,
    /// For each item, in the order of the feed, its title if it has one.
    pub items: Vec<Option<String>>,
}

/// A feed, with its texts as sequences of characters.
pub struct FeedView {
    pub title: Seq<char>,
    pub items: Seq<Option<Seq<char>>>,
}

impl View for Feed {
    type V = FeedView;

    open spec fn view(&self) -> FeedView {
        FeedView { title: self.title@, items: self.items.deep_view() }
    }
}

/// Why a feed could not be used.
#[derive(Debug, Clone, Copy, PartialEq, Eq, Structural)]
pub enum FeedError {
    /// The body is not an rss channel.
    Parse,
    /// The body is not handed to the parser: its elements nest too deep, or
    /// it names the period or the frequency of an update schedule.
    Unreadable,
}

impl FeedError {
    /// The sentence that stands for this error, for the feed at `url`.
    pub open spec fn text(self, url: Seq<char>) -> Seq<char> {
        match self {
            FeedError::Parse => "can not parse feed body as rss, text: "@ + url,
            FeedError::Unreadable => "will not parse feed body, text: "@ + url,
        }
    }

    /// The sentence shown to the user, for the feed that was fetched from `url`.
    pub fn message(&self, url: &str) -> (message: String)
        ensures
            message@ == self.text(url@),
    {
        match self {
            FeedError::Parse => "can not parse feed body as rss, text: ".to_owned().concat(url),
            FeedError::Unreadable => "will not parse feed body, text: ".to_owned().concat(url),
        }
    }
}

/// The feed that `text` holds, if it is an rss channel. A text that is not
/// readable is refused unparsed.
pub fn get_podcast_info(text: &str) -> (info: Result<Feed, FeedError>)
    ensures
        match info {
            Ok(feed) => readable(text@) && rss_channel(text@) == Some((feed@.title, feed@.items)),
            Err(FeedError::Parse) => readable(text@) && rss_channel(text@) is None,
            Err(FeedError::Unreadable) => !readable(text@),
        },
{
    if !is_readable(text) {
        return Err(FeedError::Unreadable);
    }
    match read_channel(text) {
        Some((title, items)) => Ok(Feed { title, items }),
        None => Err(FeedError::Parse),
    }
}

/// The values that are present in `items`, in their order.
pub open spec fn present<T>(items: Seq<Option<T>>) -> Seq<T>
    decreases items.len(),
{
    if items.len() == 0 {
        Seq::empty()
    } else {
        let before = present(items.drop_last());
        match items.last() {
            Some(item) => before.push(item),
            None => before,
        }
    }
}

/// The titles of the episodes of a feed: one for each item that has a
/// title, in the order of the feed. Items without a title are left out.
pub fn get_episode_info(items: &Vec<Option<String>>) -> (titles: Vec<String>)
    ensures
        titles.deep_view() == present(items.deep_view()),
{
    let mut titles: Vec<String> = Vec::new();
    let ghost all = items.deep_view();
    assert(all.take(0) =~= Seq::empty());
    for i in 0..items.len()
        invariant
            all == items.deep_view(),
            titles.deep_view() == present(all.take(i as int)),
    {
        let ghost before = titles.deep_view();
        proof {
            assert(all.take(i + 1).drop_last() =~= all.take(i as int));
            assert(all.take(i + 1).last() == items@[i as int].deep_view());
        }
        if let Some(title) = &items[i] {
            titles.push(title.clone());
            assert(titles.deep_view() =~= before.push(title@));
        }
    }
    assert(all.take(items.len() as int) =~= all);
    titles
}

} // verus!
