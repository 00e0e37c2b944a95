//! The search of Apple's podcast directory: reading its replies.
use vstd::prelude::*;

use super::SearchResult;
use super::SearchResultView;

verus! {

/// What the `regex` crate captures in `text` with `pattern`: for each match,
/// from left to right, the text of the first group where it took part in the
/// match; `None` where the crate rejects the pattern.
pub uninterp spec fn first_groups(pattern: Seq<char>, text: Seq<char>) -> Option<
    Seq<Option<Seq<char>>>,
>;

/// `regex::Regex::new` on `pattern`, then `captures_iter` on `text`; of each
/// match, `get(1)` is handed on as text.
///
/// Nothing is claimed of what a pattern matches: the result is known only as
/// `first_groups` of the two inputs, which is `None` exactly where the
/// pattern does not compile.
#[verifier::external_body]
fn capture_first_groups(pattern: &str, text: &str) -> (groups: Option<Vec<Option<String>>>)
    ensures
        groups.deep_view() == first_groups(pattern@, text@),
{
    let re = regex::Regex::new(pattern).ok()?;
    Some(re.captures_iter(text).map(|caps| caps.get(1).map(|m| m.as_str().to_owned())).collect())
}

/// Why a search gave no results.
#[derive(Debug, Clone, Copy, PartialEq, Eq, Structural)]
pub enum SearchError {
    /// A match for a title holds no title.
    MalformedTitle,
    /// A match for a feed url holds no url.
    MalformedUrl,
    /// Too few calls are left in the budget.
    OverBudget,
    /// A pattern by which replies are read is not a regular expression.
    Pattern,
}

impl SearchError {
    /// The sentence that stands for this error.
    pub open spec fn text(self) -> Seq<char> {
        match self {
            SearchError::MalformedTitle => "malformed title result"@,
            SearchError::MalformedUrl => "malformed url result"@,
            SearchError::OverBudget => "over api budget"@,
            SearchError::Pattern => "malformed search pattern"@,
        }
    }

    /// The sentence shown to the user.
    pub fn message(&self) -> (message: String)
        ensures
            message@ == self.text(),
    {
        match self {
            SearchError::MalformedTitle => "malformed title result".to_owned(),
            SearchError::MalformedUrl => "malformed url result".to_owned(),
            SearchError::OverBudget => "over api budget".to_owned(),
            SearchError::Pattern => "malformed search pattern".to_owned(),
        }
    }
}

/// The number of pairs that two series of captures make.
pub open spec fn pairs(titles: Seq<Option<Seq<char>>>, urls: Seq<Option<Seq<char>>>) -> int {
    if titles.len() <= urls.len() {
        titles.len() as int
    } else {
        urls.len() as int
    }
}

/// Whether each of the first `k` pairs holds both a title and a url.
pub open spec fn complete(
    titles: Seq<Option<Seq<char>>>,
    urls: Seq<Option<Seq<char>>>,
    k: int,
) -> bool {
    forall|i: int| 0 <= i < k ==> (#[trigger] titles[i]) is Some && (#[trigger] urls[i]) is Some
}

/// Whether pair `k` is the first that lacks its title or its url.
pub open spec fn first_gap(
    titles: Seq<Option<Seq<char>>>,
    urls: Seq<Option<Seq<char>>>,
    k: int,
) -> bool {
    &&& 0 <= k < pairs(titles, urls)
    &&& complete(titles, urls, k)
    &&& titles[k] is None || urls[k] is None
}

/// The results that the captured titles and urls give, pair by pair; what
/// one series has more than the other is left out. The first pair that
/// lacks a part gives the error: for the title if that is missing, else for
/// the url.
pub open spec fn paired(titles: Seq<Option<Seq<char>>>, urls: Seq<Option<Seq<char>>>) -> Result<
    Seq<SearchResultView>,
    SearchError,
> {
    if exists|k: int| first_gap(titles, urls, k) {
        let k = choose|k: int| first_gap(titles, urls, k);
        if titles[k] is None {
            Err(SearchError::MalformedTitle)
        } else {
            Err(SearchError::MalformedUrl)
        }
    } else {
        Ok(
            Seq::new(
                pairs(titles, urls) as nat,
                |i: int| SearchResultView { title: titles[i]->0, url: urls[i]->0 },
            ),
        )
    }
}

/// The outcome of a search, with the results by their views.
pub open spec fn results_view(results: Result<Vec<SearchResult>, SearchError>) -> Result<
    Seq<SearchResultView>,
    SearchError,
> {
    match results {
        Ok(found) => Ok(found.deep_view()),
        Err(error) => Err(error),
    }
}

proof fn lemma_first_gap_is_unique(
    titles: Seq<Option<Seq<char>>>,
    urls: Seq<Option<Seq<char>>>,
    k: int,
)
    requires
        first_gap(titles, urls, k),
    ensures
        paired(titles, urls) == if titles[k] is None {
            Err::<Seq<SearchResultView>, SearchError>(SearchError::MalformedTitle)
        } else {
            Err::<Seq<SearchResultView>, SearchError>(SearchError::MalformedUrl)
        },
{
    let found = choose|j: int| first_gap(titles, urls, j);
    if found < k {
        assert(titles[found] is Some && urls[found] is Some);
    } else if found > k {
        assert(titles[k] is Some && urls[k] is Some);
    }
}

proof fn lemma_no_gap(titles: Seq<Option<Seq<char>>>, urls: Seq<Option<Seq<char>>>)
    requires
        complete(titles, urls, pairs(titles, urls)),
    ensures
        !exists|k: int| first_gap(titles, urls, k),
{
    assert forall|k: int| !first_gap(titles, urls, k) by {
        if first_gap(titles, urls, k) {
            assert(titles[k] is Some && urls[k] is Some);
        }
    }
}

/// The results that the captured titles and urls give.
pub fn pair_results(titles: &Vec<Option<String>>, urls: &Vec<Option<String>>) -> (results: Result<
    Vec<SearchResult>,
    SearchError,
>)
    ensures
        results_view(results) == paired(titles.deep_view(), urls.deep_view()),
{
    let n = if titles.len() <= urls.len() {
        titles.len()
    } else {
        urls.len()
    };
    let ghost all_titles = titles.deep_view();
    let ghost all_urls = urls.deep_view();
    let mut results: Vec<SearchResult> = Vec::new();
    for i in 0..n
        invariant
            all_titles == titles.deep_view(),
            all_urls == urls.deep_view(),
            n == pairs(all_titles, all_urls),
            complete(all_titles, all_urls, i as int),
            results.len() == i,
            forall|j: int|
                0 <= j < i ==> (#[trigger] results@[j])@ == (SearchResultView {
                    title: all_titles[j]->0,
                    url: all_urls[j]->0,
                }),
    {
        assert(all_titles[i as int] == titles@[i as int].deep_view());
        assert(all_urls[i as int] == urls@[i as int].deep_view());
        let title = match &titles[i] {
            Some(title) => title.clone(),
            None => {
                proof {
                    lemma_first_gap_is_unique(all_titles, all_urls, i as int);
                }
                return Err(SearchError::MalformedTitle);
            },
        };
        let url = match &urls[i] {
            Some(url) => url.clone(),
            None => {
                proof {
                    lemma_first_gap_is_unique(all_titles, all_urls, i as int);
                }
                return Err(SearchError::MalformedUrl);
            },
        };
        results.push(SearchResult { title, url });
    }
    proof {
        lemma_no_gap(all_titles, all_urls);
    }
    assert(results.deep_view() =~= Seq::new(
        n as nat,
        |i: int| SearchResultView { title: all_titles[i]->0, url: all_urls[i]->0 },
    ));
    Ok(results)
}

/// What a reply is read with: the pattern that finds the podcasts' titles
/// and the pattern that finds the urls of their feeds.
#[derive(Debug, Clone, PartialEq, Eq)]
pub struct Search {
    title: String,
    url: String,
}

/// The results that `text` holds for the two patterns; an error where a
/// pattern does not compile, the title's pattern first.
pub open spec fn results_in(title: Seq<char>, url: Seq<char>, text: Seq<char>) -> Result<
    Seq<SearchResultView>,
    SearchError,
> {
    match (first_groups(title, text), first_groups(url, text)) {
        (Some(titles), Some(urls)) => paired(titles, urls),
        _ => Err(SearchError::Pattern),
    }
}

/// The fewest calls that must be left in the budget for a search that
/// heeds it.
pub const RESERVE: u8 = 2;

impl Search {
    /// The pattern that finds the titles.
    pub closed spec fn title_pattern(&self) -> Seq<char> {
        self.title@
    }

    /// The pattern that finds the urls of the feeds.
    pub closed spec fn url_pattern(&self) -> Seq<char> {
        self.url@
    }

    /// A search that reads replies with the given patterns; the first group
    /// of each is what it takes.
    pub fn with_patterns(title: String, url: String) -> (search: Search)
        ensures
            search.title_pattern() == title@,
            search.url_pattern() == url@,
    {
        Search { title, url }
    }

    /// The podcasts that a reply names.
    pub fn to_results(&self, text: &str) -> (results: Result<Vec<SearchResult>, SearchError>)
        ensures
            results_view(results) == results_in(self.title_pattern(), self.url_pattern(), text@),
    {
        let titles = match capture_first_groups(self.title.as_str(), text) {
            Some(titles) => titles,
            None => {
                return Err(SearchError::Pattern);
            },
        };
        let urls = match capture_first_groups(self.url.as_str(), text) {
            Some(urls) => urls,
            None => {
                return Err(SearchError::Pattern);
            },
        };
        pair_results(&titles, &urls)
    }

    /// Whether a search may be sent while `left` calls are left in the
    /// budget: always if the budget is to be ignored, else only while more
    /// than the reserve is left.
    pub fn permit(left: u8, ignore_budget: bool) -> (permitted: Result<(), SearchError>)
        ensures
            permitted is Err <==> left <= RESERVE && !ignore_budget,
            permitted matches Err(error) ==> error == SearchError::OverBudget,
    {
        if left <= RESERVE && !ignore_budget {
            return Err(SearchError::OverBudget);
        }
        Ok(())
    }
}

impl Default for Search {
    /// The search that reads the replies of Apple's podcast directory.
    fn default() -> (search: Search)
        ensures
            search.title_pattern() == "collectionName\":\"(.+?)\""@,
            search.url_pattern() == "feedUrl\":\"(.+?)\""@,
    {
        Search {
            title: "collectionName\":\"(.+?)\"".to_owned(),
            url: "feedUrl\":\"(.+?)\"".to_owned(),
        }
    }
}

} // verus!
