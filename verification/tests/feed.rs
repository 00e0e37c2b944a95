use podcast_player::database::types::Podcast;
use podcast_player::feed::search::applepodcasts::{pair_results, Search, SearchError};
use podcast_player::feed::markup::{find, is_readable, scan};
use podcast_player::feed::search::{ApiBudget, SearchResult};
use podcast_player::feed::{
    get_episode_info, get_podcast_info, valid_url, web_scheme, Feed, FeedError,
};

const FEED: &str = r#"<?xml version="1.0" encoding="UTF-8"?>
<rss version="2.0">
  <channel>
    <title>Soft Skills Engineering</title>
    <link>https://softskills.audio/</link>
    <description>Advice for software developers</description>
    <item><title>Episode 1: Pay raises</title><guid>1</guid></item>
    <item><description>an item without a title</description></item>
    <item><title>Episode 3: Code review</title></item>
  </channel>
</rss>"#;

const REPLY: &str = r#"{"resultCount":2,"results":[
{"wrapperType":"track","kind":"podcast","collectionName":"Soft Skills Engineering","feedUrl":"http://feeds.feedburner.com/SoftSkillsEngineering","trackCount":300},
{"wrapperType":"track","kind":"podcast","collectionName":"Soft Skills for Leaders","feedUrl":"https://example.test/leaders.rss","trackCount":12}]}"#;

fn some(s: &str) -> Option<String> {
    Some(s.to_string())
}

fn result(title: &str, url: &str) -> SearchResult {
    SearchResult { title: title.to_string(), url: url.to_string() }
}

#[test]
fn http_and_https_urls_are_valid() {
    assert!(valid_url("http://feeds.feedburner.com/SoftSkillsEngineering"));
    assert!(valid_url("https://example.test/ep1.mp3"));
    assert!(valid_url("HTTPS://EXAMPLE.TEST/feed"));
}

#[test]
fn other_schemes_and_plain_text_are_not_valid_urls() {
    assert!(!valid_url("ftp://example.test/feed"));
    assert!(!valid_url("mailto:someone@example.test"));
    assert!(!valid_url("file:///tmp/feed.xml"));
    assert!(!valid_url("soft skills"));
    assert!(!valid_url("http"));
    assert!(!valid_url("example.test/feed"));
    assert!(!valid_url(""));
}

#[test]
fn only_http_and_https_are_web_schemes() {
    assert!(web_scheme("http"));
    assert!(web_scheme("https"));
    assert!(!web_scheme("HTTP"));
    assert!(!web_scheme("httpss"));
    assert!(!web_scheme("ftp"));
    assert!(!web_scheme(""));
}

#[test]
fn feed_is_read_with_its_item_titles() {
    assert_eq!(
        get_podcast_info(FEED),
        Ok(Feed {
            title: "Soft Skills Engineering".to_string(),
            items: vec![some("Episode 1: Pay raises"), None, some("Episode 3: Code review")],
        })
    );
}

#[test]
fn text_that_is_no_feed_is_refused() {
    assert_eq!(get_podcast_info("<html><body>not a feed</body></html>"), Err(FeedError::Parse));
    assert_eq!(get_podcast_info(""), Err(FeedError::Parse));
    assert_eq!(get_podcast_info(FEED.trim_end_matches("</rss>").trim_end_matches("</channel>\n")).is_ok(), false);
}

#[test]
fn feed_error_names_the_url() {
    assert_eq!(
        FeedError::Parse.message("https://example.test/feed"),
        "can not parse feed body as rss, text: https://example.test/feed"
    );
}

#[test]
fn episodes_are_the_items_with_a_title() {
    let feed = get_podcast_info(FEED).unwrap();
    assert_eq!(
        get_episode_info(&feed.items),
        vec!["Episode 1: Pay raises".to_string(), "Episode 3: Code review".to_string()]
    );
    assert_eq!(get_episode_info(&vec![]), Vec::<String>::new());
    assert_eq!(get_episode_info(&vec![None, None]), Vec::<String>::new());
    assert_eq!(
        get_episode_info(&vec![some("b"), some("a"), None, some("b")]),
        vec!["b".to_string(), "a".to_string(), "b".to_string()]
    );
}

#[test]
fn podcast_takes_the_title_of_the_channel() {
    let feed = get_podcast_info(FEED).unwrap();
    assert_eq!(Podcast::from(&feed), Podcast { title: "Soft Skills Engineering".to_string() });
}

#[test]
fn test_apple_podcasts() {
    let res = Search::default().to_results(REPLY).unwrap();
    assert_eq!(res.len(), 2);
    assert_eq!(res[0].title, "Soft Skills Engineering");
    assert_eq!(res[0].url, "http://feeds.feedburner.com/SoftSkillsEngineering");
    assert_eq!(res[1], result("Soft Skills for Leaders", "https://example.test/leaders.rss"));
}

#[test]
fn reply_without_results_gives_none() {
    assert_eq!(Search::default().to_results(r#"{"resultCount":0,"results":[]}"#), Ok(vec![]));
    assert_eq!(Search::default().to_results(""), Ok(vec![]));
}

#[test]
fn surplus_titles_or_urls_are_left_out() {
    let reply = r#"{"collectionName":"A","feedUrl":"http://a"},{"collectionName":"B"}"#;
    assert_eq!(Search::default().to_results(reply), Ok(vec![result("A", "http://a")]));
    let reply = r#"{"feedUrl":"http://a"},{"collectionName":"B","feedUrl":"http://b"}"#;
    assert_eq!(Search::default().to_results(reply), Ok(vec![result("B", "http://a")]));
}

#[test]
fn group_that_took_no_part_is_malformed() {
    let search = Search::with_patterns("t(x)?".to_string(), "u(y)".to_string());
    assert_eq!(search.to_results("tx uy t uy"), Err(SearchError::MalformedTitle));
    assert_eq!(search.to_results("tx uy"), Ok(vec![result("x", "y")]));
    let search = Search::with_patterns("t(x)".to_string(), "u(y)?".to_string());
    assert_eq!(search.to_results("tx u"), Err(SearchError::MalformedUrl));
    let search = Search::with_patterns("t(x)?".to_string(), "u(y)?".to_string());
    assert_eq!(search.to_results("t u"), Err(SearchError::MalformedTitle));
}

#[test]
fn pattern_that_does_not_compile_is_reported() {
    let search = Search::with_patterns("t(x".to_string(), "u(y)".to_string());
    assert_eq!(search.to_results("tx uy"), Err(SearchError::Pattern));
    let search = Search::with_patterns("t(x)".to_string(), "u(y".to_string());
    assert_eq!(search.to_results("tx uy"), Err(SearchError::Pattern));
}

#[test]
fn captures_are_paired_in_order() {
    assert_eq!(
        pair_results(&vec![some("a"), some("b")], &vec![some("1"), some("2")]),
        Ok(vec![result("a", "1"), result("b", "2")])
    );
    assert_eq!(pair_results(&vec![], &vec![some("1")]), Ok(vec![]));
    assert_eq!(
        pair_results(&vec![some("a"), None], &vec![some("1")]),
        Ok(vec![result("a", "1")])
    );
}

#[test]
fn first_missing_part_decides_the_error() {
    assert_eq!(
        pair_results(&vec![some("a"), None], &vec![None, some("2")]),
        Err(SearchError::MalformedUrl)
    );
    assert_eq!(
        pair_results(&vec![some("a"), None], &vec![some("1"), None]),
        Err(SearchError::MalformedTitle)
    );
    assert_eq!(pair_results(&vec![None], &vec![None]), Err(SearchError::MalformedTitle));
}

#[test]
fn budget_is_heeded_unless_ignored() {
    assert_eq!(Search::permit(0, false), Err(SearchError::OverBudget));
    assert_eq!(Search::permit(2, false), Err(SearchError::OverBudget));
    assert_eq!(Search::permit(3, false), Ok(()));
    assert_eq!(Search::permit(5, false), Ok(()));
    assert_eq!(Search::permit(0, true), Ok(()));
    assert_eq!(Search::permit(2, true), Ok(()));
    assert_eq!(Search::permit(255, true), Ok(()));
}

#[test]
fn search_error_messages() {
    assert_eq!(SearchError::MalformedTitle.message(), "malformed title result");
    assert_eq!(SearchError::MalformedUrl.message(), "malformed url result");
    assert_eq!(SearchError::OverBudget.message(), "over api budget");
    assert_eq!(SearchError::Pattern.message(), "malformed search pattern");
}

fn nested(depth: usize) -> String {
    let mut text = String::from("<rss version=\"2.0\"><channel><title>t</title><a:b>");
    for _ in 0..depth {
        text.push_str("<c>");
    }
    for _ in 0..depth {
        text.push_str("</c>");
    }
    text.push_str("</a:b></channel></rss>");
    text
}

fn titled(title: &str) -> Result<Feed, FeedError> {
    Ok(Feed { title: title.to_string(), items: vec![] })
}

#[test]
fn feed_that_nests_too_deep_is_not_parsed() {
    assert_eq!(get_podcast_info(&nested(0)), titled("t"));
    assert_eq!(get_podcast_info(&nested(61)), titled("t"));
    assert_eq!(get_podcast_info(&nested(62)), Err(FeedError::Unreadable));
    assert_eq!(get_podcast_info(&nested(2000)), Err(FeedError::Unreadable));
    assert_eq!(get_podcast_info(&nested(40000)), Err(FeedError::Unreadable));
    assert!(is_readable(&nested(61)));
    assert!(!is_readable(&nested(62)));
}

#[test]
fn feed_with_an_update_schedule_is_not_parsed() {
    let scheduled = |element: &str| {
        format!(
            "<rss version=\"2.0\" xmlns:sy=\"http://purl.org/rss/1.0/modules/syndication/\">\
             <channel><title>t</title>{}</channel></rss>",
            element
        )
    };
    assert_eq!(get_podcast_info(&scheduled("")), titled("t"));
    assert_eq!(get_podcast_info(&scheduled("<sy:updateBase>2000</sy:updateBase>")), titled("t"));
    assert_eq!(
        get_podcast_info(&scheduled("<sy:updatePeriod>fortnightly</sy:updatePeriod>")),
        Err(FeedError::Unreadable)
    );
    assert_eq!(
        get_podcast_info(&scheduled("<sy:updatePeriod>hourly</sy:updatePeriod>")),
        Err(FeedError::Unreadable)
    );
    assert_eq!(
        get_podcast_info(&scheduled("<sy:updateFrequency>often</sy:updateFrequency>")),
        Err(FeedError::Unreadable)
    );
    assert_eq!(
        get_podcast_info(&scheduled("<description>updateFrequency</description>")),
        Err(FeedError::Unreadable)
    );
}

#[test]
fn siblings_comments_and_character_data_do_not_count_as_depth() {
    let mut text = String::from("<?xml version=\"1.0\"?><rss version=\"2.0\"><channel>");
    text.push_str("<title>many</title><!-- <a><b><c> -- > --->");
    for i in 0..300 {
        text.push_str("<item><title><![CDATA[<b>]] > ");
        text.push_str(&i.to_string());
        text.push_str("]]></title><enclosure url=\"a>b\" length='<1>'/><itunes:image href=\"x\"/>");
        text.push_str("<itunes:owner><itunes:name>n</itunes:name></itunes:owner></item>");
    }
    text.push_str("</channel></rss>");
    assert!(is_readable(&text));
    let feed = get_podcast_info(&text).unwrap();
    assert_eq!(feed.title, "many");
    assert_eq!(feed.items.len(), 300);
    assert_eq!(feed.items[299], some("<b>]] > 299"));
}

#[test]
fn markup_is_read_for_its_depth() {
    let depth = |text: &str| scan(text.as_bytes()).depth;
    assert_eq!(depth(""), 0);
    assert_eq!(depth("plain > text"), 0);
    assert_eq!(depth("<a>"), 1);
    assert_eq!(depth("<a><b>"), 2);
    assert_eq!(depth("<a><b></b>"), 1);
    assert_eq!(depth("<a><b/>"), 1);
    assert_eq!(depth("<a><b x='/>'>"), 2);
    assert_eq!(depth("<a><b x=\"'/>\"/>"), 1);
    assert_eq!(depth("<a><!-- <b> --><?pi <c> ?>"), 1);
    assert_eq!(depth("<a><![CDATA[ <b> ]] > <c> ]]>"), 1);
    assert_eq!(depth("</a></a><a>"), 1);
    assert_eq!(depth("<a"), 1);
    assert_eq!(depth("<>"), 1);
}

#[test]
fn other_declarations_are_refused() {
    assert!(!is_readable("<!DOCTYPE rss><rss></rss>"));
    assert!(!is_readable("<!>"));
    assert!(!is_readable("<!-x-->"));
    assert!(!is_readable("<![CDATA]]>"));
    assert!(is_readable("<!----><![CDATA[]]>"));
    assert_eq!(get_podcast_info("<!DOCTYPE rss><rss></rss>"), Err(FeedError::Unreadable));
}

#[test]
fn names_are_found_in_bytes() {
    assert!(find(b"abcabd", b"abd"));
    assert!(find(b"abcabd", b"abcabd"));
    assert!(find(b"abcabd", b""));
    assert!(find(b"", b""));
    assert!(!find(b"abcabd", b"abe"));
    assert!(!find(b"ab", b"abc"));
    assert!(!find(b"", b"a"));
}

#[test]
fn unreadable_feed_error_names_the_url() {
    assert_eq!(
        FeedError::Unreadable.message("https://example.test/feed"),
        "will not parse feed body, text: https://example.test/feed"
    );
}

#[test]
fn budget_counts_the_calls_of_the_last_minute() {
    let mut budget = ApiBudget::from(5);
    assert_eq!(budget.left(0), 5);
    budget.register_call(10);
    budget.register_call(20);
    budget.register_call(69);
    assert_eq!(budget.calls, vec![10, 20, 69]);
    assert_eq!(budget.left(69), 2);
    assert_eq!(budget.calls, vec![10, 20, 69]);
    assert_eq!(budget.left(70), 3);
    assert_eq!(budget.calls, vec![20, 69]);
    assert_eq!(budget.left(79), 3);
    assert_eq!(budget.left(80), 4);
    assert_eq!(budget.left(5), 4);
    assert_eq!(budget.calls, vec![69]);
    assert_eq!(budget.left(129), 5);
    assert_eq!(budget.calls, Vec::<u64>::new());
    assert_eq!(budget.max_per_min, 5);
}

#[test]
fn budget_is_never_below_nothing() {
    let mut budget = ApiBudget::from(2);
    for second in 0..4 {
        budget.register_call(second);
    }
    assert_eq!(budget.left(4), 0);
    assert_eq!(budget.calls.len(), 4);
    assert_eq!(Search::permit(budget.left(4), false), Err(SearchError::OverBudget));
    budget.register_call(u64::MAX);
    assert_eq!(budget.left(u64::MAX), 1);
    assert_eq!(budget.calls, vec![u64::MAX]);
    assert_eq!(ApiBudget::from(0).left(0), 0);
}
