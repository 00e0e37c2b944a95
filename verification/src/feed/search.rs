//! Searching for podcasts by name.
use vstd::prelude::*;

pub mod applepodcasts;

pub use applepodcasts::Search;

verus! {

/// A podcast that a search has found.
#[derive(Debug, Clone, PartialEq, Eq)]
pub struct SearchResult {
    pub title: String,
    /// The url of the podcast's feed.
    pub url: String,
}

/// A search result, with its texts as sequences of characters.
pub struct SearchResultView {
    pub title: Seq<char>,
    pub url: Seq<char>,
}

impl View for SearchResult {
    type V = SearchResultView;

    open spec fn view(&self) -> SearchResultView {
        SearchResultView { title: self.title@, url: self.url@ }
    }
}

impl DeepView for SearchResult {
    type V = SearchResultView;

    open spec fn deep_view(&self) -> SearchResultView {
        self@
    }
}

/// The seconds for which a call counts against the budget.
pub const WINDOW: u64 = 60;

/// Whether a call made at `call` still counts at `now`, both in seconds of
/// one clock: for `WINDOW` seconds from the call on. A call that the clock
/// puts after `now` counts.
pub open spec fn counts(call: u64, now: u64) -> bool {
    now < call + WINDOW
}

/// Those of `calls` that still count at `now`, in their order.
pub open spec fn counted(calls: Seq<u64>, now: u64) -> Seq<u64>
    decreases calls.len(),
{
    if calls.len() == 0 {
        Seq::empty()
    } else {
        let before = counted(calls.drop_last(), now);
        if counts(calls.last(), now) {
            before.push(calls.last())
        } else {
            before
        }
    }
}

/// The calls that a directory allows per minute, and the times of those
/// made of late.
#[derive(Debug, Clone, PartialEq, Eq)]
pub struct ApiBudget {
    pub max_per_min: u8,
    /// When each call was made, in seconds of the caller's clock.
    pub calls: Vec<u64>,
}

impl ApiBudget {
    /// A budget of `max_per_min` calls per minute, none of them made.
    pub fn from(max_per_min: u8) -> (budget: ApiBudget)
        ensures
            budget.max_per_min == max_per_min,
            budget.calls@ == Seq::<u64>::empty(),
    {
        ApiBudget { max_per_min, calls: Vec::new() }
    }

    /// The calls that may still be made at `now`: the allowance less the
    /// calls that still count, and none where as many or more count. The
    /// calls that count no longer are forgotten.
    pub fn left(&mut self, now: u64) -> (left: u8)
        ensures
            final(self).max_per_min == old(self).max_per_min,
            final(self).calls@ == counted(old(self).calls@, now),
            left == if final(self).calls@.len() >= old(self).max_per_min {
                0
            } else {
                old(self).max_per_min - final(self).calls@.len()
            },
    {
        let mut kept: Vec<u64> = Vec::new();
        assert(self.calls@.take(0) =~= Seq::empty());
        for i in 0..self.calls.len()
            invariant
                kept@ == counted(self.calls@.take(i as int), now),
        {
            assert(self.calls@.take(i + 1).drop_last() =~= self.calls@.take(i as int));
            let call = self.calls[i];
            if call > now || now - call < WINDOW {
                kept.push(call);
            }
        }
        assert(self.calls@.take(self.calls.len() as int) =~= self.calls@);
        self.calls = kept;
        let made = self.calls.len();
        if made >= self.max_per_min as usize {
            0
        } else {
            self.max_per_min - made as u8
        }
    }

    /// Notes that a call is made at `now`.
    pub fn register_call(&mut self, now: u64)
        ensures
            final(self).max_per_min == old(self).max_per_min,
            final(self).calls@ == old(self).calls@.push(now),
    {
        self.calls.push(now);
    }
}

} // verus!
