use vstd::prelude::*;

verus! {

/// The look of the player.
#[derive(Copy, Clone, Debug, PartialEq, Eq, Structural)]
pub enum Theme {
    Light,
    Dark,
}

impl Theme {
    /// Every theme there is.
    pub const ALL: [Theme; 2] = [Theme::Light, Theme::Dark];
}

impl Default for Theme {
    fn default() -> (theme: Theme)
        ensures
            theme == Theme::Light,
    {
        Theme::Light
    }
}

} // verus!
