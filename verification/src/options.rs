//! What the caller chooses at startup.

use vstd::prelude::*;

verus! {

/// The choices that shape how pages are served and reloaded.
#[derive(Clone, Copy, Debug)]
pub struct Options {
    /// Always hard reload the page instead of hot-reload
    pub hard_reload: bool,
    /// Show page list of the current URL if `index.html` does not exist
    pub index_listing: bool,
    /// Ignore hidden and ignored files
    pub auto_ignore: bool,
}

impl Default for Options {
    /// Soft reload, directory listing on, nothing ignored.
    fn default() -> (options: Self)
        ensures
            !options.hard_reload,
            options.index_listing,
            !options.auto_ignore,
    {
        Self { hard_reload: false, index_listing: true, auto_ignore: false }
    }
}

} // verus!
