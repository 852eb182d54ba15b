//! Activity Warden: the decision logic of a desktop activity governor.
//!
//! Watchers report which target has the user's attention; the daemon sums the
//! time spent on each target during the local day, compares it with the
//! budgets the user has set, and tells the watcher to close a target once its
//! budget is used up. This crate holds that logic as verified code: every
//! public function carries a contract over a mathematical model of the
//! daemon's state.
//!
//! The crate waits for nothing and stores nothing. The program around it
//! owns the bus, the database and the timers; it hands each event, signal
//! and alarm to the library and carries out what the library returns.
//!
//! - [`dbus`], [`event`], [`schema`], [`daemon`], [`text`]: the names on
//!   the bus and the data that travels and is stored.
//! - [`clock`], [`digest`]: time and the password's digest, which stand on
//!   `chrono`, `sha2` and `hex`.
//! - [`timers`], [`context`], [`accounting`]: the daemon's state, the
//!   operations on it, and what they add up to.
//! - [`classify`], [`scheduler`], [`watcher`]: the decision about a target
//!   in focus, the reactions of the event loop, and the request that closes
//!   a target.
//! - [`persistence`], [`messaging`]: what is written to the store and to
//!   the browser's channel, as far as it is computed.
//! - [`display`], [`pages`]: what the desktop application shows.
//!
//! # What is believed, not proved
//!
//! Nine private functions call code that is not verified here. Each has a
//! contract that says no more than the called code documents, and where
//! its result cannot be written down in a few lines, the contract only
//! gives the result a name:
//!
//! - `clock::utc_now`, `clock::local_now`, `clock::local_today`,
//!   `clock::local_midnight`: the system clock and the time zone, through
//!   `chrono`;
//! - `digest::sha256`, `digest::hex_encode`: `sha2` and `hex`;
//! - `watcher::canonical_json`: `serde_json`, whose error type is declared
//!   beside it;
//! - `text::to_lowercase`, `display::format_clock`: the standard library.

pub mod accounting;
pub mod classify;
pub mod clock;
pub mod context;
pub mod daemon;
pub mod dbus;
pub mod digest;
pub mod display;
pub mod event;
pub mod messaging;
pub mod pages;
pub mod persistence;
pub mod scheduler;
pub mod schema;
pub mod text;
pub mod timers;
pub mod watcher;
