//! The frame of a page: for now, its title.

use vstd::prelude::*;
use vstd::string::StringExecFns;

verus! {

/// The frame that every page is set in.
#[derive(Debug)]
pub struct Layout {
    pub title: String,
}

impl Clone for Layout {
    fn clone(&self) -> (copy: Layout)
        ensures
            copy.title@ == self.title@,
    {
        Layout { title: self.title.clone() }
    }
}

/// The title of a page that reports `status`.
pub open spec fn title_with_status(status: Seq<char>, title: Seq<char>) -> Seq<char> {
    status + " | "@ + title
}

impl Layout {
    /// The frame of an ordinary page.
    pub fn new() -> (layout: Layout)
        ensures
            layout.title@ == "Food"@,
    {
        Layout { title: "Food".to_owned() }
    }

    /// The same frame with `status` and a bar put before the title.
    pub fn with_status(self, status: &str) -> (layout: Layout)
        ensures
            layout.title@ == title_with_status(status@, self.title@),
    {
        let mut title = status.to_owned();
        title.append(" | ");
        title.append(self.title.as_str());
        Layout { title }
    }
}

} // verus!
