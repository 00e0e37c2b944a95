use podcast_player::feed::search::SearchResult;
use podcast_player::page::podcasts::{Command, List, Message, Podcasts, Search};
use podcast_player::widgets::style::Theme;

fn result(title: &str, url: &str) -> SearchResult {
    SearchResult { title: title.to_string(), url: url.to_string() }
}

fn bar(text: &str) -> Search {
    Search { input_value: text.to_string() }
}

#[test]
fn submit_searches_for_what_is_in_the_bar() {
    let mut search = bar("rust");
    assert_eq!(search.update(Message::SearchSubmit), Command::Search("rust".to_string()));
    assert_eq!(search, bar("rust"));
    let mut search = bar("");
    assert_eq!(search.update(Message::SearchSubmit), Command::Search(String::new()));
}

#[test]
fn typing_searches_once_the_input_is_longer_than_four_bytes() {
    let mut search = Search::default();
    assert_eq!(search.update(Message::SearchInputChanged("soft".to_string())), Command::Nothing);
    assert_eq!(search, bar("soft"));
    assert_eq!(
        search.update(Message::SearchInputChanged("soft ".to_string())),
        Command::Search("soft ".to_string())
    );
    assert_eq!(search, bar("soft "));
    // three characters, six bytes
    assert_eq!(
        search.update(Message::SearchInputChanged("äöü".to_string())),
        Command::Search("äöü".to_string())
    );
    assert_eq!(search.update(Message::SearchInputChanged(String::new())), Command::Nothing);
    assert_eq!(search, bar(""));
}

#[test]
fn results_do_not_concern_the_bar() {
    let mut search = bar("abc");
    assert_eq!(search.update(Message::SearchResults(vec![result("a", "b")])), Command::Nothing);
    assert_eq!(search, bar("abc"));
}

#[test]
fn bar_does_not_answer_a_url_or_an_added_podcast() {
    let mut search = bar("abc");
    assert_eq!(
        search.try_update(Message::SearchInputChanged("https://example.test/feed".to_string())),
        None
    );
    assert_eq!(search, bar("abc"));
    assert_eq!(search.try_update(Message::AddPodcast("https://example.test/feed".to_string())), None);
    assert_eq!(search, bar("abc"));
    assert_eq!(
        search.try_update(Message::SearchInputChanged("ftp://example.test/feed".to_string())),
        Some(Command::Search("ftp://example.test/feed".to_string()))
    );
    assert_eq!(search, bar("ftp://example.test/feed"));
    assert_eq!(
        search.try_update(Message::SearchSubmit),
        Some(Command::Search("ftp://example.test/feed".to_string()))
    );
    assert_eq!(search.try_update(Message::SearchResults(vec![])), Some(Command::Nothing));
}

#[test]
fn reset_empties_the_bar() {
    let mut search = bar("something");
    search.reset();
    assert_eq!(search, bar(""));
    assert_eq!(search, Search::default());
}

#[test]
fn list_gets_a_button_for_each_result_and_keeps_them() {
    let mut list = List::default();
    assert_eq!(list.shown_results(), vec![]);
    list.update_feedres(vec![result("a", "1"), result("b", "2"), result("c", "3")]);
    assert_eq!(list.feedres_buttons, 3);
    assert_eq!(list.shown_results(), vec![result("a", "1"), result("b", "2"), result("c", "3")]);
    list.update_feedres(vec![result("d", "4")]);
    assert_eq!(list.feedres_buttons, 3);
    assert_eq!(list.feedres_info, vec![result("d", "4")]);
    assert_eq!(list.shown_results(), vec![result("d", "4")]);
    list.update_feedres(vec![]);
    assert_eq!(list.feedres_buttons, 3);
    assert_eq!(list.shown_results(), vec![]);
}

#[test]
fn results_without_a_button_are_not_shown() {
    let list = List {
        podcast_buttons: 0,
        podcast_names: vec![],
        feedres_buttons: 1,
        feedres_info: vec![result("a", "1"), result("b", "2")],
    };
    assert_eq!(list.shown_results(), vec![result("a", "1")]);
}

#[test]
fn podcasts_are_filtered_by_the_search_term() {
    let page = Podcasts::new();
    assert_eq!(
        page.list.podcast_names,
        vec!["99percentinvisible".to_string(), "other_podcast".to_string()]
    );
    assert_eq!(page.list.podcast_buttons, 2);
    assert_eq!(
        page.list.shown_podcasts(""),
        vec!["99percentinvisible".to_string(), "other_podcast".to_string()]
    );
    assert_eq!(page.list.shown_podcasts("percent"), vec!["99percentinvisible".to_string()]);
    assert_eq!(page.list.shown_podcasts("other_podcast"), vec!["other_podcast".to_string()]);
    assert_eq!(
        page.list.shown_podcasts("e"),
        vec!["99percentinvisible".to_string(), "other_podcast".to_string()]
    );
    assert_eq!(page.list.shown_podcasts("Percent"), Vec::<String>::new());
    assert_eq!(page.list.shown_podcasts("other_podcasts"), Vec::<String>::new());
}

#[test]
fn podcasts_without_a_button_are_not_shown() {
    let list = List {
        podcast_buttons: 2,
        podcast_names: vec!["ab".to_string(), "xy".to_string(), "abc".to_string(), "cab".to_string()],
        feedres_buttons: 0,
        feedres_info: vec![],
    };
    assert_eq!(list.shown_podcasts("ab"), vec!["ab".to_string(), "abc".to_string()]);
    assert_eq!(list.shown_podcasts("x"), vec!["xy".to_string()]);
    assert_eq!(list.shown_podcasts("c"), vec!["abc".to_string(), "cab".to_string()]);
}

#[test]
fn page_hands_messages_on() {
    let mut page = Podcasts::new();
    assert_eq!(page.search, Search::default());
    assert_eq!(page.list.feedres_buttons, 0);

    assert_eq!(page.update(Message::SearchInputChanged("invis".to_string())), Command::Search("invis".to_string()));
    assert_eq!(page.search, bar("invis"));
    assert_eq!(page.update(Message::SearchSubmit), Command::Search("invis".to_string()));

    let found = vec![result("99% Invisible", "https://example.test/99pi")];
    assert_eq!(page.update(Message::SearchResults(found.clone())), Command::Nothing);
    assert_eq!(page.list.feedres_info, found);
    assert_eq!(page.list.feedres_buttons, 1);
    assert_eq!(page.search, bar("invis"));

    let before = page.clone();
    assert_eq!(page.update(Message::AddPodcast("https://example.test/99pi".to_string())), Command::Nothing);
    assert_eq!(page, before);
}

#[test]
fn page_does_not_answer_a_url_in_the_bar() {
    let mut page = Podcasts::new();
    let before = page.clone();
    assert_eq!(
        page.try_update(Message::SearchInputChanged("http://example.test/feed".to_string())),
        None
    );
    assert_eq!(page, before);
    assert_eq!(
        page.try_update(Message::AddPodcast("http://example.test/feed".to_string())),
        Some(Command::Nothing)
    );
    assert_eq!(
        page.try_update(Message::SearchInputChanged("example".to_string())),
        Some(Command::Search("example".to_string()))
    );
}

#[test]
fn light_is_the_default_theme() {
    assert_eq!(Theme::default(), Theme::Light);
    assert_eq!(Theme::ALL, [Theme::Light, Theme::Dark]);
}

#[test]
fn podcast_is_listed_once() {
    let mut list = List::default();
    list.add("a".to_string());
    assert_eq!(list.podcast_names, vec!["a".to_string()]);
    assert_eq!(list.podcast_buttons, 1);
    list.add("b".to_string());
    list.add("a".to_string());
    list.add("b".to_string());
    assert_eq!(list.podcast_names, vec!["a".to_string(), "b".to_string()]);
    assert_eq!(list.podcast_buttons, 2);
    assert_eq!(list.feedres_buttons, 0);

    let mut page = Podcasts::new();
    page.list.add("other_podcast".to_string());
    assert_eq!(page, Podcasts::new());
    page.list.add("third".to_string());
    assert_eq!(page.list.podcast_names.len(), 3);
    assert_eq!(page.list.podcast_buttons, 3);
}

#[test]
fn added_podcast_keeps_spare_buttons() {
    let mut list = List {
        podcast_buttons: 5,
        podcast_names: vec!["a".to_string()],
        feedres_buttons: 1,
        feedres_info: vec![],
    };
    list.add("b".to_string());
    assert_eq!(list.podcast_buttons, 5);
    assert_eq!(list.podcast_names, vec!["a".to_string(), "b".to_string()]);
    assert_eq!(list.feedres_buttons, 1);
}
