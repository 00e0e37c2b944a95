//! The page that lists the podcasts and searches for new ones.
use vstd::prelude::*;

use crate::feed;
use crate::feed::is_valid_url;
use crate::feed::search::SearchResultView;

verus! {

/// What the page is told.
#[derive(Debug, Clone, PartialEq, Eq)]
pub enum Message {
    /// The search bar was submitted.
    SearchSubmit,
    /// The text in the search bar is now this.
    SearchInputChanged(String),
    /// A search has come back with these results.
    SearchResults(Vec<feed::SearchResult>),
    /// The podcast whose feed is at this url is to be added.
    AddPodcast(String),
}

/// What the page wants done in answer to a message.
#[derive(Debug, Clone, PartialEq, Eq)]
pub enum Command {
    /// Nothing.
    Nothing,
    /// Search the web for this term, whatever the budget, and send the
    /// results back as `Message::SearchResults`.
    Search(String),
}

/// A command, with its term as a sequence of characters.
pub enum CommandView {
    Nothing,
    Search(Seq<char>),
}

impl View for Command {
    type V = CommandView;

    open spec fn view(&self) -> CommandView {
        match *self {
            Command::Nothing => CommandView::Nothing,
            Command::Search(term) => CommandView::Search(term@),
        }
    }
}

/// The length of a text in bytes, as a `String` holds it.
pub open spec fn byte_len(text: Seq<char>) -> usize {
    vstd::utf8::encode_utf8(text).len() as usize
}

/// The longest input that is not yet searched for while it is typed.
pub const SHORT_INPUT: usize = 4;

/// Whether `pattern` occurs in `text`.
pub open spec fn occurs_in(pattern: Seq<char>, text: Seq<char>) -> bool {
    exists|i: int|
        0 <= i <= text.len() - pattern.len() && #[trigger] text.subrange(i, i + pattern.len())
            == pattern
}

/// Those of `names` in which `term` occurs, in their order.
pub open spec fn matching(names: Seq<Seq<char>>, term: Seq<char>) -> Seq<Seq<char>>
    decreases names.len(),
{
    if names.len() == 0 {
        Seq::empty()
    } else {
        let before = matching(names.drop_last(), term);
        if occurs_in(term, names.last()) {
            before.push(names.last())
        } else {
            before
        }
    }
}

/// The first `limit` of `items`, or all of them where there are fewer.
pub open spec fn at_most<T>(items: Seq<T>, limit: usize) -> Seq<T> {
    if limit <= items.len() {
        items.take(limit as int)
    } else {
        items
    }
}

/// `str::contains` of std, with a string as the pattern: whether the
/// pattern occurs in the text as a run of characters.
#[verifier::external_body]
fn contains(text: &str, pattern: &str) -> (found: bool)
    ensures
        found == occurs_in(pattern@, text@),
{
    text.contains(pattern)
}

/// The search bar.
#[derive(Debug, Clone, PartialEq, Eq)]
pub struct Search {
    /// The text in the bar.
    pub input_value: String,
}

impl Search {
    /// Whether `update` cannot answer `message` with this text in the bar:
    /// the search bar does not add podcasts, and a url in the bar is not
    /// provided for.
    pub open spec fn unanswerable(message: Message) -> bool {
        match message {
            Message::AddPodcast(_) => true,
            Message::SearchInputChanged(input) => is_valid_url(input@),
            _ => false,
        }
    }

    /// The text in the bar after `message`, and the command that answers it.
    /// A submitted search is always sent; while the user types, a search is
    /// sent only once the input is longer than `SHORT_INPUT` bytes.
    pub open spec fn answer(input: Seq<char>, message: Message) -> (Seq<char>, CommandView) {
        match message {
            Message::SearchSubmit => (input, CommandView::Search(input)),
            Message::SearchInputChanged(typed) => (
                typed@,
                if byte_len(typed@) > SHORT_INPUT {
                    CommandView::Search(typed@)
                } else {
                    CommandView::Nothing
                },
            ),
            _ => (input, CommandView::Nothing),
        }
    }

    /// Takes in `message` and says what is to be done about it.
    pub fn update(&mut self, message: Message) -> (command: Command)
        requires
            !Self::unanswerable(message),
        ensures
            (final(self).input_value@, command@) == Self::answer(old(self).input_value@, message),
    {
        match message {
            Message::SearchSubmit => Command::Search(self.input_value.clone()),
            Message::SearchInputChanged(s) => {
                self.input_value = s;
                if self.input_value.as_str().len() > SHORT_INPUT {
                    Command::Search(self.input_value.clone())
                } else {
                    Command::Nothing
                }
            },
            Message::SearchResults(_) => Command::Nothing,
            Message::AddPodcast(_) => Command::Nothing,
        }
    }

    /// As `update`, for any message: `None`, with the bar left as it is,
    /// where `update` cannot answer.
    pub fn try_update(&mut self, message: Message) -> (command: Option<Command>)
        ensures
            Self::unanswerable(message) ==> command is None && *final(self) == *old(self),
            !Self::unanswerable(message) ==> (command matches Some(given) && (
                final(self).input_value@,
                given@,
            ) == Self::answer(old(self).input_value@, message)),
    {
        let answerable = match &message {
            Message::AddPodcast(_) => false,
            Message::SearchInputChanged(input) => !feed::valid_url(input.as_str()),
            _ => true,
        };
        if answerable {
            Some(self.update(message))
        } else {
            None
        }
    }

    /// Empties the bar.
    pub fn reset(&mut self)
        ensures
            final(self).input_value@ == Seq::<char>::empty(),
    {
        self.input_value = String::new();
    }
}

impl Default for Search {
    fn default() -> (search: Search)
        ensures
            search.input_value@ == Seq::<char>::empty(),
    {
        Search { input_value: String::new() }
    }
}

/// The list below the search bar: the results of the last search, then the
/// podcasts that the user has. Each entry is shown on a button; the list
/// keeps count of the buttons that exist.
#[derive(Debug, Clone, PartialEq, Eq)]
pub struct List {
    pub podcast_buttons: usize,
    pub podcast_names: Vec<String>,
    pub feedres_buttons: usize,
    pub feedres_info: Vec<feed::SearchResult>,
}

impl List {
    /// The search results that are shown: one for each button, in order.
    pub fn shown_results(&self) -> (shown: Vec<feed::SearchResult>)
        ensures
            shown.deep_view() == at_most(self.feedres_info.deep_view(), self.feedres_buttons),
    {
        let mut shown: Vec<feed::SearchResult> = Vec::new();
        let n = if self.feedres_buttons <= self.feedres_info.len() {
            self.feedres_buttons
        } else {
            self.feedres_info.len()
        };
        for i in 0..n
            invariant
                n <= self.feedres_info.len(),
                shown.len() == i,
                forall|j: int| 0 <= j < i ==> (#[trigger] shown@[j])@ == self.feedres_info@[j]@,
        {
            let info = &self.feedres_info[i];
            shown.push(feed::SearchResult { title: info.title.clone(), url: info.url.clone() });
        }
        assert(shown.deep_view() =~= at_most(
            self.feedres_info.deep_view(),
            self.feedres_buttons,
        ));
        shown
    }

    /// The podcasts that are shown while `search_term` is in the search
    /// bar: those whose name holds the term, one for each button, in order.
    pub fn shown_podcasts(&self, search_term: &str) -> (shown: Vec<String>)
        ensures
            shown.deep_view() == at_most(
                matching(self.podcast_names.deep_view(), search_term@),
                self.podcast_buttons,
            ),
    {
        let mut shown: Vec<String> = Vec::new();
        let ghost names = self.podcast_names.deep_view();
        assert(names.take(0) =~= Seq::empty());
        for i in 0..self.podcast_names.len()
            invariant
                names == self.podcast_names.deep_view(),
                shown.deep_view() == matching(names.take(i as int), search_term@),
        {
            let ghost before = shown.deep_view();
            proof {
                assert(names.take(i + 1).drop_last() =~= names.take(i as int));
                assert(names.take(i + 1).last() == self.podcast_names@[i as int]@);
            }
            let name = &self.podcast_names[i];
            if contains(name.as_str(), search_term) {
                shown.push(name.clone());
                assert(shown.deep_view() =~= before.push(name@));
            }
        }
        assert(names.take(self.podcast_names.len() as int) =~= names);
        let ghost all = shown.deep_view();
        shown.truncate(self.podcast_buttons);
        assert(shown.deep_view() =~= at_most(all, self.podcast_buttons));
        shown
    }

    /// Lists one more podcast, with a button for it, unless a podcast of
    /// that title is listed already.
    pub fn add(&mut self, title: String)
        ensures
            old(self).podcast_names.deep_view().contains(title@) ==> *final(self) == *old(self),
            !old(self).podcast_names.deep_view().contains(title@) ==> {
                &&& final(self).podcast_names.deep_view() == old(
                    self,
                ).podcast_names.deep_view().push(title@)
                &&& final(self).podcast_buttons == if old(self).podcast_buttons > old(
                    self,
                ).podcast_names.len() {
                    old(self).podcast_buttons
                } else {
                    (old(self).podcast_names.len() + 1) as usize
                }
                &&& final(self).feedres_info == old(self).feedres_info
                &&& final(self).feedres_buttons == old(self).feedres_buttons
            },
    {
        let ghost names = self.podcast_names.deep_view();
        for i in 0..self.podcast_names.len()
            invariant
                *self == *old(self),
                names == self.podcast_names.deep_view(),
                forall|j: int| 0 <= j < i ==> names[j] != title@,
        {
            assert(names[i as int] == self.podcast_names@[i as int]@);
            if self.podcast_names[i] == title {
                assert(names.contains(title@));
                return ;
            }
        }
        assert(!names.contains(title@));
        let ghost pushed = title@;
        self.podcast_names.push(title);
        assert(self.podcast_names.deep_view() =~= names.push(pushed));
        if self.podcast_buttons < self.podcast_names.len() {
            self.podcast_buttons = self.podcast_names.len();
        }
    }

    /// Takes in the results of a search, and sees to it that there is a
    /// button for each of them. No button is ever taken away.
    pub fn update_feedres(&mut self, results: Vec<feed::SearchResult>)
        ensures
            final(self).feedres_info == results,
            final(self).feedres_buttons == if old(self).feedres_buttons >= results.len() {
                old(self).feedres_buttons
            } else {
                results.len()
            },
            final(self).podcast_names == old(self).podcast_names,
            final(self).podcast_buttons == old(self).podcast_buttons,
    {
        self.feedres_info = results;
        let needed_buttons = self.feedres_info.len().saturating_sub(self.feedres_buttons);
        self.feedres_buttons = self.feedres_buttons + needed_buttons;
    }
}

impl Default for List {
    fn default() -> (list: List)
        ensures
            list.podcast_buttons == 0,
            list.podcast_names@.len() == 0,
            list.feedres_buttons == 0,
            list.feedres_info@.len() == 0,
    {
        List {
            podcast_buttons: 0,
            podcast_names: Vec::new(),
            feedres_buttons: 0,
            feedres_info: Vec::new(),
        }
    }
}

/// The page.
#[derive(Debug, Clone, PartialEq, Eq)]
pub struct Podcasts {
    pub list: List,
    pub search: Search,
}

impl Podcasts {
    /// The page as it first appears: an empty search bar, no search
    /// results, and two podcasts with a button each.
    pub fn new() -> (page: Podcasts)
        ensures
            page.search.input_value@ == Seq::<char>::empty(),
            page.list.feedres_buttons == 0,
            page.list.feedres_info@.len() == 0,
            page.list.podcast_buttons == 2,
            page.list.podcast_names.deep_view() == seq!["99percentinvisible"@, "other_podcast"@],
    {
        let mut page = Podcasts { list: List::default(), search: Search::default() };
        page.list.podcast_names.push("99percentinvisible".to_owned());
        page.list.podcast_buttons = page.list.podcast_buttons + 1;
        page.list.podcast_names.push("other_podcast".to_owned());
        page.list.podcast_buttons = page.list.podcast_buttons + 1;
        assert(page.list.podcast_names.deep_view() =~= seq![
            "99percentinvisible"@,
            "other_podcast"@,
        ]);
        page
    }

    /// Whether `update` cannot answer `message`: a url in the search bar is
    /// not provided for.
    pub open spec fn unanswerable(message: Message) -> bool {
        message matches Message::SearchInputChanged(input) && is_valid_url(input@)
    }

    /// Whether `after` and `command` are the page and the command that
    /// answer `message` on the page `before`: what concerns the search bar
    /// goes to the bar, the results of a search go to the list, and adding a
    /// podcast is left to the application.
    pub open spec fn answers(
        before: Podcasts,
        message: Message,
        after: Podcasts,
        command: CommandView,
    ) -> bool {
        match message {
            Message::SearchResults(results) => {
                &&& command == CommandView::Nothing
                &&& after.search == before.search
                &&& after.list.feedres_info == results
                &&& after.list.feedres_buttons == if before.list.feedres_buttons
                    >= results.len() {
                    before.list.feedres_buttons
                } else {
                    results.len()
                }
                &&& after.list.podcast_names == before.list.podcast_names
                &&& after.list.podcast_buttons == before.list.podcast_buttons
            },
            Message::AddPodcast(_) => command == CommandView::Nothing && after == before,
            _ => after.list == before.list && (after.search.input_value@, command)
                == Search::answer(before.search.input_value@, message),
        }
    }

    /// Takes in `message` and says what is to be done about it.
    pub fn update(&mut self, message: Message) -> (command: Command)
        requires
            !Self::unanswerable(message),
        ensures
            Self::answers(*old(self), message, *final(self), command@),
    {
        match message {
            Message::SearchSubmit => self.search.update(message),
            Message::SearchInputChanged(_) => self.search.update(message),
            Message::SearchResults(r) => {
                self.list.update_feedres(r);
                Command::Nothing
            },
            Message::AddPodcast(_) => Command::Nothing,
        }
    }

    /// As `update`, for any message: `None`, with the page left as it is,
    /// where `update` cannot answer.
    pub fn try_update(&mut self, message: Message) -> (command: Option<Command>)
        ensures
            Self::unanswerable(message) ==> command is None && *final(self) == *old(self),
            !Self::unanswerable(message) ==> (command matches Some(given) && Self::answers(
                *old(self),
                message,
                *final(self),
                given@,
            )),
    {
        let answerable = match &message {
            Message::SearchInputChanged(input) => !feed::valid_url(input.as_str()),
            _ => true,
        };
        if answerable {
            Some(self.update(message))
        } else {
            None
        }
    }
}

} // verus!
