use vstd::prelude::*;

use crate::feed::Feed;

verus! {

/// A podcast that the user has subscribed to.
#[derive(Debug, Clone, PartialEq, Eq)]
pub struct Podcast {
    pub title: String,
}

impl From<&Feed> for Podcast {
    /// The podcast that a feed describes: it goes by the channel's title.
    fn from(channel: &Feed) -> (podcast: Podcast) {
        Podcast { title: channel.title.clone() }
    }
}

impl vstd::std_specs::convert::FromSpecImpl<&Feed> for Podcast {
    open spec fn obeys_from_spec() -> bool {
        true
    }

    open spec fn from_spec(channel: &Feed) -> Podcast {
        Podcast { title: channel.title }
    }
}

} // verus!
