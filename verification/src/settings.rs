//! What a run is started with.

use crate::filter::Filter;
use vstd::prelude::*;

verus! {

/// The lines of the file that are shown at the start, unless told otherwise.
pub const DEFAULT_LAST_LINES_SHOWN: usize = 10;

/// The lines that the store retains, unless told otherwise.
pub const DEFAULT_MAX_LINES_STORED: usize = 3000;

/// The file to follow, how much of it to show and to keep, and the filters.
pub struct Settings {
    pub path_to_target_file: String,
    pub last_lines_count: usize,
    pub max_lines_count: usize,
    pub filters: Vec<Filter>,
}

impl Settings {
    /// Puts the settings together: counts that were not given take their
    /// defaults. Without a filter there are no settings.
    pub fn from_args(
        path_to_target_file: String,
        lines: Option<usize>,
        max: Option<usize>,
        filters: Vec<Filter>,
    ) -> (settings: Option<Settings>)
        ensures
            settings is Some <==> filters@.len() > 0,
            settings matches Some(made) ==> {
                &&& made.path_to_target_file == path_to_target_file
                &&& made.filters == filters
                &&& made.last_lines_count == match lines {
                    Some(count) => count,
                    None => DEFAULT_LAST_LINES_SHOWN,
                }
                &&& made.max_lines_count == match max {
                    Some(count) => count,
                    None => DEFAULT_MAX_LINES_STORED,
                }
            },
    {
        if filters.len() == 0 {
            return None;
        }
        let last_lines_count = match lines {
            Some(count) => count,
            None => DEFAULT_LAST_LINES_SHOWN,
        };
        let max_lines_count = match max {
            Some(count) => count,
            None => DEFAULT_MAX_LINES_STORED,
        };
        Some(Settings { path_to_target_file, last_lines_count, max_lines_count, filters })
    }

    /// The names of the filters, in their order.
    pub fn menu_item_names(&self) -> (names: Vec<String>)
        ensures
            names@.len() == self.filters@.len(),
            forall|i: int|
                0 <= i < names@.len() ==> (#[trigger] names@[i])@ == self.filters@[i].name_view(),
    {
        let mut names: Vec<String> = Vec::new();
        let mut i: usize = 0;
        while i < self.filters.len()
            invariant
                i <= self.filters@.len(),
                names@.len() == i,
                forall|k: int|
                    0 <= k < i ==> (#[trigger] names@[k])@ == self.filters@[k].name_view(),
            decreases self.filters@.len() - i,
        {
            names.push(self.filters[i].name().to_owned());
            i += 1;
        }
        names
    }
}

} // verus!
