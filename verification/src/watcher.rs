//! The call that has a target closed: the daemon asks the watcher that
//! reported a target to close it, and hands it the metadata of the event
//! that brought the target into focus.
//!
//! Only the request is built here. Sending it over the bus is left to the
//! caller.

use vstd::prelude::*;
use crate::dbus::{bus_name_of, object_path_of, DBus, Host, Interface};
use crate::event::{Event, EventView};
use crate::text::text_view;

verus! {

/// The error with which `serde_json` rejects a text.
#[verifier::external_type_specification]
#[verifier::external_body]
pub struct ExJsonError(serde_json::Error);

/// The compact JSON text that `serde_json` writes for the value that it
/// reads from a text; `None` for a text that it does not read as JSON.
pub uninterp spec fn canonical_json_of(text: Seq<char>) -> Option<Seq<char>>;

/// Calls `serde_json::from_str` for a `serde_json::Value` and hands the
/// value back as the text that its `Display` writes. The contract only
/// names the outcome: it is a function of the text alone.
#[verifier::external_body]
fn canonical_json(text: &str) -> (canonical: Result<String, serde_json::Error>)
    ensures
        match canonical {
            Ok(json) => canonical_json_of(text@) == Some(json@),
            Err(_) => canonical_json_of(text@) is None,
        },
{
    serde_json::from_str::<serde_json::Value>(text).map(|value| value.to_string())
}

/// What is sent over the bus to have a target closed.
#[derive(Debug, PartialEq, Eq)]
pub struct CloseRequest {
    /// The bus name of the watcher that governs the target.
    pub destination: String,
    /// The object path of the watcher's interface.
    pub path: String,
    /// The argument of `request_close`: the event's metadata as compact
    /// JSON.
    pub metadata: String,
}

/// The mathematical value of a [`CloseRequest`].
pub struct CloseRequestView {
    pub destination: Seq<char>,
    pub path: Seq<char>,
    pub metadata: Seq<char>,
}

impl View for CloseRequest {
    type V = CloseRequestView;

    open spec fn view(&self) -> CloseRequestView {
        CloseRequestView {
            destination: self.destination@,
            path: self.path@,
            metadata: self.metadata@,
        }
    }
}

/// Why a target cannot be closed.
#[derive(Clone, Copy, Debug, PartialEq, Eq, Structural)]
pub enum BlockError {
    /// No watcher at this host can be asked to close a target.
    UnsupportedHost(Host),
    /// The event's metadata is not JSON.
    InvalidMetadata,
}

/// The value of the result of building a close request.
pub open spec fn close_result_view(result: Result<CloseRequest, BlockError>) -> Result<
    CloseRequestView,
    BlockError,
> {
    match result {
        Ok(request) => Ok(request@),
        Err(error) => Err(error),
    }
}

/// The request that closes the target of `event`, given the compact JSON
/// of the event's metadata (`None`: the metadata is not JSON). Only the
/// browser watcher can be asked.
pub open spec fn close_request_for(event: EventView, metadata: Option<Seq<char>>) -> Result<
    CloseRequestView,
    BlockError,
> {
    if event.source != Host::FirefoxWatcher {
        Err(BlockError::UnsupportedHost(event.source))
    } else {
        match metadata {
            Some(json) => Ok(
                CloseRequestView {
                    destination: bus_name_of(Host::FirefoxWatcher),
                    path: object_path_of(Host::FirefoxWatcher, Interface::Watcher),
                    metadata: json,
                },
            ),
            None => Err(BlockError::InvalidMetadata),
        }
    }
}

/// Builds the request that closes the target of `event` from the compact
/// JSON of the event's metadata.
pub fn close_request(event: &Event, metadata: Option<String>) -> (result: Result<
    CloseRequest,
    BlockError,
>)
    ensures
        close_result_view(result) == close_request_for(
            event@,
            text_view(metadata),
        ),
{
    match event.source {
        Host::FirefoxWatcher => match metadata {
            Some(json) => Ok(
                CloseRequest {
                    destination: DBus::host_name(&event.source),
                    path: DBus::object_path(&Host::FirefoxWatcher, &Interface::Watcher),
                    metadata: json,
                },
            ),
            None => Err(BlockError::InvalidMetadata),
        },
        _ => Err(BlockError::UnsupportedHost(event.source)),
    }
}

/// Builds the request that closes the target of `event`: the call of
/// `request_close` on the watcher that sent the event, with the event's
/// metadata read as JSON and written back in compact form.
pub fn block_display_name(event: &Event) -> (result: Result<CloseRequest, BlockError>)
    ensures
        close_result_view(result) == close_request_for(
            event@,
            canonical_json_of(event@.metadata),
        ),
{
    match event.source {
        Host::FirefoxWatcher => {
            let metadata = match canonical_json(event.metadata.as_str()) {
                Ok(json) => Some(json),
                Err(_) => None,
            };
            close_request(event, metadata)
        },
        _ => Err(BlockError::UnsupportedHost(event.source)),
    }
}

} // verus!
