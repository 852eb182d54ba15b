//! The pages of the desktop application.

use vstd::prelude::*;

verus! {

/// A page of the desktop application.
#[derive(Clone, Copy, Debug, PartialEq, Eq, Structural)]
pub enum Page {
    /// Display all current timers.
    Timers,
    /// Display a graph of the current time spent on websites.
    Data,
    /// Provide a place to change the locking password.
    Settings,
}

/// The name under which each page is kept in the window's stack.
pub open spec fn page_name_of(page: Page) -> Seq<char> {
    match page {
        Page::Timers => "timers"@,
        Page::Data => "data"@,
        Page::Settings => "settings"@,
    }
}

impl Page {
    /// The name under which the page is kept in the window's stack.
    pub fn name(self) -> (name: &'static str)
        ensures
            name@ == page_name_of(self),
    {
        match self {
            Page::Timers => "timers",
            Page::Data => "data",
            Page::Settings => "settings",
        }
    }
}

} // verus!
