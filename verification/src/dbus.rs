//! Names on the session bus: the components that talk to each other, the
//! interfaces they serve, and the bus names and object paths built from both.

use vstd::prelude::*;
use vstd::string::StringExecFns;
use crate::text::{lowercase_of, str_eq, to_lowercase};

verus! {

/// A component of the system, as it is known on the bus.
#[derive(Clone, Copy, Debug, PartialEq, Eq, Hash, PartialOrd, Ord, Structural)]
pub enum Host {
    /// The main decision-maker using the data from the watchers.
    UserDaemon,
    /// The watcher to monitor browser-related activity.
    FirefoxWatcher,
    /// The desktop application to view the data.
    GnomeApplication,
    /// The watcher to monitor application usage across the computer.
    GnomeExtension,
}

/// The canonical lowercase name of each host.
pub open spec fn host_name_of(host: Host) -> Seq<char> {
    match host {
        Host::UserDaemon => "user_daemon"@,
        Host::FirefoxWatcher => "firefox_watcher"@,
        Host::GnomeApplication => "gnome_application"@,
        Host::GnomeExtension => "gnome_extension"@,
    }
}

/// The host whose canonical name is `name`, if there is one.
pub open spec fn host_named(name: Seq<char>) -> Option<Host> {
    if name == "user_daemon"@ {
        Some(Host::UserDaemon)
    } else if name == "firefox_watcher"@ {
        Some(Host::FirefoxWatcher)
    } else if name == "gnome_application"@ {
        Some(Host::GnomeApplication)
    } else if name == "gnome_extension"@ {
        Some(Host::GnomeExtension)
    } else {
        None
    }
}

/// The message that rejects `text` as a host name.
pub open spec fn invalid_host_message(text: Seq<char>) -> Seq<char> {
    "'"@ + text + "' is not a valid color"@
}

/// What parsing `text` as a host yields, given its lowercase form `lower`.
pub open spec fn parse_host(text: Seq<char>, lower: Seq<char>) -> Result<Host, Seq<char>> {
    match host_named(text) {
        Some(host) => Ok(host),
        None => match host_named(lower) {
            Some(host) => Ok(host),
            None => Err(invalid_host_message(text)),
        },
    }
}

/// The view of a parse result: the error message as a sequence of characters.
pub open spec fn host_result_view(result: Result<Host, String>) -> Result<Host, Seq<char>> {
    match result {
        Ok(host) => Ok(host),
        Err(message) => Err(message@),
    }
}

impl Host {
    /// The canonical lowercase name.
    pub fn as_str(&self) -> (name: &'static str)
        ensures
            name@ == host_name_of(*self),
    {
        match self {
            Host::UserDaemon => "user_daemon",
            Host::FirefoxWatcher => "firefox_watcher",
            Host::GnomeApplication => "gnome_application",
            Host::GnomeExtension => "gnome_extension",
        }
    }

    /// The canonical lowercase name, owned.
    pub fn to_string(&self) -> (name: String)
        ensures
            name@ == host_name_of(*self),
    {
        String::from_str(self.as_str())
    }

    /// The host with exactly this canonical name.
    pub fn from_canonical(name: &str) -> (host: Option<Host>)
        ensures
            host == host_named(name@),
    {
        if str_eq(name, "user_daemon") {
            Some(Host::UserDaemon)
        } else if str_eq(name, "firefox_watcher") {
            Some(Host::FirefoxWatcher)
        } else if str_eq(name, "gnome_application") {
            Some(Host::GnomeApplication)
        } else if str_eq(name, "gnome_extension") {
            Some(Host::GnomeExtension)
        } else {
            None
        }
    }

    /// Decides a parse from the text and its lowercase form: a canonical name
    /// in either gives its host, anything else the error message.
    pub fn from_lowercase(text: &str, lower: &str) -> (result: Result<Host, String>)
        ensures
            host_result_view(result) == parse_host(text@, lower@),
    {
        match Host::from_canonical(text) {
            Some(host) => Ok(host),
            None => match Host::from_canonical(lower) {
                Some(host) => Ok(host),
                None => Err(String::from_str("'").concat(text).concat("' is not a valid color")),
            },
        }
    }

    /// Parses a host name without regard to case.
    pub fn from_str(text: &str) -> (result: Result<Host, String>)
        ensures
            host_result_view(result) == parse_host(text@, lowercase_of(text@)),
    {
        let lower = to_lowercase(text);
        Host::from_lowercase(text, lower.as_str())
    }
}

impl core::str::FromStr for Host {
    type Err = String;

    /// Parses a host name without regard to case, as [`Host::from_str`]
    /// does: a canonical name, in the text or in its lowercase form, gives
    /// its host, and any other text the message that rejects it.
    fn from_str(text: &str) -> (result: Result<Host, String>)
        ensures
            host_result_view(result) == parse_host(text@, lowercase_of(text@)),
    {
        Host::from_str(text)
    }
}

/// Parsing the canonical name of a host gives that host back, whatever the
/// lowercase form of the name is taken to be.
pub proof fn lemma_host_name_round_trip(host: Host, lower: Seq<char>)
    ensures
        host_named(host_name_of(host)) == Some(host),
        parse_host(host_name_of(host), lower) == Ok::<Host, Seq<char>>(host),
{
    reveal_strlit("user_daemon");
    reveal_strlit("firefox_watcher");
    reveal_strlit("gnome_application");
    reveal_strlit("gnome_extension");
    assert("user_daemon"@.len() == 11);
    assert("firefox_watcher"@.len() == 15);
    assert("gnome_application"@.len() == 17);
    assert("gnome_extension"@.len() == 15);
    assert("firefox_watcher"@[0] == 'f');
    assert("gnome_extension"@[0] == 'g');
}

/// An interface that a component serves on the bus.
#[derive(Clone, Copy, Debug, PartialEq, Eq, Structural)]
pub enum Interface {
    /// Implemented by the user daemon to take in the events that watchers
    /// report.
    EventBus,
    /// Implemented by every watcher, so that the daemon can ask it to close
    /// a target.
    Watcher,
    /// Implemented by the user daemon to answer requests that read or change
    /// its state.
    DaemonContext,
}

/// The name of each interface.
pub open spec fn interface_name_of(interface: Interface) -> Seq<char> {
    match interface {
        Interface::EventBus => "EventBus"@,
        Interface::Watcher => "Watcher"@,
        Interface::DaemonContext => "DaemonContext"@,
    }
}

impl Interface {
    /// The interface's name.
    pub fn as_str(&self) -> (name: &'static str)
        ensures
            name@ == interface_name_of(*self),
    {
        match self {
            Interface::EventBus => "EventBus",
            Interface::Watcher => "Watcher",
            Interface::DaemonContext => "DaemonContext",
        }
    }

    /// The interface's name, owned.
    pub fn to_string(&self) -> (name: String)
        ensures
            name@ == interface_name_of(*self),
    {
        String::from_str(self.as_str())
    }
}

/// The prefix of every bus name and interface name.
pub open spec fn base_url() -> Seq<char> {
    DBus::BASE_URL@
}

/// The prefix of every object path.
pub open spec fn base_path() -> Seq<char> {
    DBus::BASE_PATH@
}

/// The object path at which `host` serves `interface`.
pub open spec fn object_path_of(host: Host, interface: Interface) -> Seq<char> {
    base_path() + "/"@ + host_name_of(host) + "/"@ + interface_name_of(interface)
}

/// The bus name that `host` owns.
pub open spec fn bus_name_of(host: Host) -> Seq<char> {
    base_url() + "."@ + host_name_of(host)
}

/// The full name of `interface`.
pub open spec fn full_interface_name_of(interface: Interface) -> Seq<char> {
    base_url() + "."@ + interface_name_of(interface)
}

/// Builds the names under which the components find each other.
pub struct DBus;

impl DBus {
    /// The prefix of every bus name and interface name.
    pub const BASE_URL: &'static str = "com.activity_warden";

    /// The prefix of every object path.
    pub const BASE_PATH: &'static str = "/com/activity_warden";

    /// The object path `/com/activity_warden/<host>/<interface>`.
    pub fn object_path(host: &Host, interface: &Interface) -> (path: String)
        ensures
            path@ == object_path_of(*host, *interface),
    {
        String::from_str(Self::BASE_PATH).concat("/").concat(host.as_str()).concat("/").concat(
            interface.as_str(),
        )
    }

    /// The bus name `com.activity_warden.<host>`.
    pub fn host_name(host: &Host) -> (name: String)
        ensures
            name@ == bus_name_of(*host),
    {
        String::from_str(Self::BASE_URL).concat(".").concat(host.as_str())
    }

    /// The interface name `com.activity_warden.<interface>`.
    pub fn interface_name(interface: &Interface) -> (name: String)
        ensures
            name@ == full_interface_name_of(*interface),
    {
        String::from_str(Self::BASE_URL).concat(".").concat(interface.as_str())
    }
}

} // verus!
