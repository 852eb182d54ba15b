//! The records that the daemon keeps: the user's timers and the closed
//! segments of attention, with the names of the tables that hold them.

use vstd::prelude::*;
use vstd::string::StringExecFns;
use crate::clock::Timestamp;
use crate::dbus::Host;

verus! {

/// A daily budget that the user has set for one target.
#[derive(Debug, PartialEq, Eq)]
pub struct Timer {
    /// The name of the website or application as read by the user.
    pub display_name: String,
    /// The watcher that oversees this `display_name`.
    pub host: Host,
    /// The seconds allowed on a day until the `display_name` is blocked.
    pub time_limit: u32,
    /// One flag for each day of the week, Sunday first. `true`: the limit
    /// applies on that day. `false`: no time at all is allowed on that day.
    pub allowed_days: [bool; 7],
}

/// The mathematical value of a [`Timer`].
pub struct TimerView {
    pub display_name: Seq<char>,
    pub host: Host,
    pub time_limit: u32,
    pub allowed_days: Seq<bool>,
}

impl View for Timer {
    type V = TimerView;

    open spec fn view(&self) -> TimerView {
        TimerView {
            display_name: self.display_name@,
            host: self.host,
            time_limit: self.time_limit,
            allowed_days: self.allowed_days@,
        }
    }
}

impl Clone for Timer {
    fn clone(&self) -> (copy: Self)
        ensures
            copy == *self,
    {
        Timer {
            display_name: self.display_name.clone(),
            host: self.host,
            time_limit: self.time_limit,
            allowed_days: self.allowed_days,
        }
    }
}

/// The views of a sequence of timers, in the same order.
pub open spec fn timer_views(timers: Seq<Timer>) -> Seq<TimerView> {
    timers.map_values(|timer: Timer| timer@)
}

impl Timer {
    /// Whether this timer is the one for `(host, display_name)`.
    pub open spec fn has_key(&self, host: Host, display_name: Seq<char>) -> bool {
        self.host == host && self.display_name@ == display_name
    }

    /// Whether this timer is the one for `(host, display_name)`.
    pub fn is_for(&self, host: Host, display_name: &String) -> (same: bool)
        ensures
            same == self.has_key(host, display_name@),
    {
        self.host == host && self.display_name == *display_name
    }
}

/// A closed segment of attention.
#[derive(Debug, PartialEq, Eq)]
pub struct FocusChange {
    /// The host from where the focus change originated.
    pub host: Host,
    /// The display name passed by the watcher.
    pub display_name: String,
    /// The moment at which the segment closed.
    pub timestamp: Timestamp,
    /// The length of the session on the given `display_name`, in whole
    /// seconds.
    pub duration: u32,
}

/// The mathematical value of a [`FocusChange`].
pub struct FocusChangeView {
    pub host: Host,
    pub display_name: Seq<char>,
    pub timestamp: int,
    pub duration: u32,
}

impl View for FocusChange {
    type V = FocusChangeView;

    open spec fn view(&self) -> FocusChangeView {
        FocusChangeView {
            host: self.host,
            display_name: self.display_name@,
            timestamp: self.timestamp as int,
            duration: self.duration,
        }
    }
}

impl Clone for FocusChange {
    fn clone(&self) -> (copy: Self)
        ensures
            copy == *self,
    {
        FocusChange {
            host: self.host,
            display_name: self.display_name.clone(),
            timestamp: self.timestamp,
            duration: self.duration,
        }
    }
}

/// The password that locks the session.
pub type Password = String;

/// The tables of the daemon's store.
#[derive(Clone, Copy, Debug, PartialEq, Eq, Structural)]
pub enum AWTables {
    /// Stores the user-inputted timers.
    Timers,
    /// Stores changes to the currently focused window.
    FocusChanges,
}

/// The name of each table.
pub open spec fn table_name_of(table: AWTables) -> Seq<char> {
    match table {
        AWTables::FocusChanges => "focus_changes"@,
        AWTables::Timers => "timers"@,
    }
}

impl AWTables {
    /// The table's name.
    pub fn as_str(&self) -> (name: &'static str)
        ensures
            name@ == table_name_of(*self),
    {
        match self {
            AWTables::FocusChanges => "focus_changes",
            AWTables::Timers => "timers",
        }
    }

    /// The table's name, owned.
    pub fn to_string(&self) -> (name: String)
        ensures
            name@ == table_name_of(*self),
    {
        String::from_str(self.as_str())
    }
}

/// The kinds of statement that the daemon runs against a table.
#[derive(Clone, Copy, Debug, PartialEq, Eq, Structural)]
pub enum QueryType {
    SELECT,
    CREATE,
    INSERT,
    DELETE,
    UPDATE,
}

/// The lowercase name of each kind of statement.
pub open spec fn query_name_of(query: QueryType) -> Seq<char> {
    match query {
        QueryType::SELECT => "select"@,
        QueryType::UPDATE => "update"@,
        QueryType::DELETE => "delete"@,
        QueryType::INSERT => "insert"@,
        QueryType::CREATE => "create"@,
    }
}

impl QueryType {
    /// The statement kind's lowercase name.
    pub fn as_str(&self) -> (name: &'static str)
        ensures
            name@ == query_name_of(*self),
    {
        match self {
            QueryType::SELECT => "select",
            QueryType::UPDATE => "update",
            QueryType::DELETE => "delete",
            QueryType::INSERT => "insert",
            QueryType::CREATE => "create",
        }
    }

    /// The statement kind's lowercase name, owned.
    pub fn to_string(&self) -> (name: String)
        ensures
            name@ == query_name_of(*self),
    {
        String::from_str(self.as_str())
    }
}

} // verus!
