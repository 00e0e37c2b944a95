//! Downloads: the request, and the state machine that carries one attempt.
use vstd::prelude::*;

pub mod attempt;
pub mod paths;
pub mod subscribe;

use subscribe::State;
use subscribe::StateView;

verus! {

/// A request to fetch `url` into the file at `path`.
///
/// The url is expected to be an absolute http or https url; `path` is the
/// place where the finished file is to appear.
#[derive(Debug, Clone, PartialEq, Eq)]
pub struct Download {
    pub url: String,
    pub path: String,
}

impl Download {
    /// The request to fetch `url` into the file at `path`.
    pub fn new(url: String, path: String) -> (download: Download)
        ensures
            download.url@ == url@,
            download.path@ == path@,
    {
        Download { url, path }
    }

    /// The key by which a scheduler tells downloads apart: the source url.
    pub fn identity(&self) -> (key: &str)
        ensures
            key@ == self.url@,
    {
        self.url.as_str()
    }

    /// Two requests are the same unit of work exactly when their urls are
    /// identical; where they are to be stored plays no part.
    pub fn same_unit(&self, other: &Download) -> (same: bool)
        ensures
            same == (self.url@ == other.url@),
    {
        self.url == other.url
    }

    /// The state in which every attempt at this download begins.
    pub fn begin(self) -> (state: State)
        ensures
            state@ == StateView::Start(self.url@, self.path@),
    {
        State::Start(self.url, self.path)
    }
}

} // verus!
