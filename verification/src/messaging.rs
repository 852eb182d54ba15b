//! The browser's native-messaging channel: frames of a four-byte
//! little-endian length followed by that many bytes of JSON, and the events
//! that the messages of the browser extension stand for.
//!
//! Reading and writing the channel, and turning JSON into fields, is left
//! to the bridge process. What a frame looks like and what a message means
//! is decided here.

use vstd::prelude::*;
use crate::dbus::Host;
use crate::event::{Event, EventType, EventView};
use crate::text::{str_eq, text_view};

verus! {

/// The kinds of message that the bridge writes to the extension.
#[derive(Clone, Copy, Debug, PartialEq, Eq, Structural)]
pub enum MessageType {
    /// Close the tab that the message names.
    Close,
    /// The message that was just read has arrived.
    ACK,
}

/// The name of each kind of message, as it stands in the field `type`.
pub open spec fn message_type_name_of(kind: MessageType) -> Seq<char> {
    match kind {
        MessageType::Close => "Close"@,
        MessageType::ACK => "ACK"@,
    }
}

impl MessageType {
    /// The name of the kind, as it stands in the field `type`.
    pub fn as_str(&self) -> (name: &'static str)
        ensures
            name@ == message_type_name_of(*self),
    {
        match self {
            MessageType::Close => "Close",
            MessageType::ACK => "ACK",
        }
    }
}

/// The number that four bytes stand for, the lowest byte first.
pub open spec fn length_of_header(header: Seq<u8>) -> int {
    header[0] + 256 * header[1] + 65536 * header[2] + 16777216 * header[3]
}

/// The four bytes that stand for a length, the lowest byte first.
pub open spec fn header_of_length(length: int) -> Seq<u8> {
    seq![
        (length % 256) as u8,
        (length / 256 % 256) as u8,
        (length / 65536 % 256) as u8,
        (length / 16777216 % 256) as u8,
    ]
}

/// The frame that carries a payload: its length in four bytes, then the
/// payload.
pub open spec fn frame_of(payload: Seq<u8>) -> Seq<u8> {
    header_of_length(payload.len() as int) + payload
}

/// The payload of the frame at the start of `bytes`, if a whole frame is
/// there.
pub open spec fn first_frame_of(bytes: Seq<u8>) -> Option<Seq<u8>> {
    if bytes.len() < 4 {
        None
    } else if bytes.len() < 4 + length_of_header(bytes.take(4)) {
        None
    } else {
        Some(bytes.subrange(4, 4 + length_of_header(bytes.take(4))))
    }
}

/// The length that the four bytes of a frame's header announce.
pub fn decode_length(header: &[u8; 4]) -> (length: u32)
    ensures
        length == length_of_header(header@),
{
    let low: u32 = header[0] as u32 + 256 * (header[1] as u32);
    let high: u32 = header[2] as u32 + 256 * (header[3] as u32);
    low + 65536 * high
}

/// The header of a frame with a payload of `length` bytes.
pub fn encode_length(length: u32) -> (header: [u8; 4])
    ensures
        header@ == header_of_length(length as int),
{
    let header: [u8; 4] = [
        (length % 256) as u8,
        (length / 256 % 256) as u8,
        (length / 65536 % 256) as u8,
        (length / 16777216 % 256) as u8,
    ];
    assert(header@ =~= header_of_length(length as int));
    header
}

/// Frames a payload for the channel. `None` for a payload whose length
/// does not fit the four bytes of a header.
pub fn encode_frame(payload: &Vec<u8>) -> (frame: Option<Vec<u8>>)
    ensures
        payload@.len() <= u32::MAX ==> frame is Some && frame->0@ == frame_of(payload@),
        payload@.len() > u32::MAX ==> frame is None,
{
    if payload.len() > u32::MAX as usize {
        return None;
    }
    let header = encode_length(payload.len() as u32);
    let mut frame: Vec<u8> = Vec::new();
    frame.push(header[0]);
    frame.push(header[1]);
    frame.push(header[2]);
    frame.push(header[3]);
    assert(frame@ =~= header@);
    let mut i: usize = 0;
    while i < payload.len()
        invariant
            i <= payload@.len(),
            frame@ == header@ + payload@.take(i as int),
        decreases payload@.len() - i,
    {
        frame.push(payload[i]);
        assert(frame@ =~= header@ + payload@.take(i + 1));
        i += 1;
    }
    assert(payload@.take(payload@.len() as int) =~= payload@);
    Some(frame)
}

/// The payload of the frame at the start of `bytes`. `None` while the
/// bytes do not hold a whole frame yet.
pub fn decode_frame(bytes: &Vec<u8>) -> (payload: Option<Vec<u8>>)
    ensures
        match payload {
            Some(payload) => first_frame_of(bytes@) == Some(payload@),
            None => first_frame_of(bytes@) is None,
        },
{
    if bytes.len() < 4 {
        return None;
    }
    let header: [u8; 4] = [bytes[0], bytes[1], bytes[2], bytes[3]];
    assert(header@ =~= bytes@.take(4));
    let length = decode_length(&header);
    if ((bytes.len() - 4) as u64) < length as u64 {
        return None;
    }
    let length = length as usize;
    let mut payload: Vec<u8> = Vec::new();
    let mut i: usize = 0;
    while i < length
        invariant
            i <= length,
            4 + length <= bytes@.len() <= usize::MAX,
            payload@ == bytes@.subrange(4, 4 + i as int),
        decreases length - i,
    {
        payload.push(bytes[4 + i]);
        assert(payload@ =~= bytes@.subrange(4, 4 + i + 1));
        i += 1;
    }
    Some(payload)
}

/// A frame is read back as the payload that it was made of, whatever
/// follows it.
pub proof fn lemma_frame_round_trip(payload: Seq<u8>, rest: Seq<u8>)
    requires
        payload.len() <= u32::MAX,
    ensures
        length_of_header(header_of_length(payload.len() as int)) == payload.len(),
        first_frame_of(frame_of(payload) + rest) == Some(payload),
{
    let length = payload.len() as int;
    let header = header_of_length(length);
    let bytes = frame_of(payload) + rest;
    assert(bytes.take(4) =~= header);
    assert(bytes.subrange(4, 4 + length) =~= payload);
}

/// Why a message of the extension is not an event.
#[derive(Clone, Copy, Debug, PartialEq, Eq, Structural)]
pub enum ProtocolError {
    /// The field `event_type` holds neither `focus_change` nor
    /// `focus_lost`.
    UnknownEventType,
    /// A focus change without the field `tab_id`.
    MissingTabId,
    /// A focus change without the field `display_name`.
    MissingDisplayName,
}

/// The event that a message of the extension stands for, given the field
/// `event_type`, the field `tab_id` as JSON text and the field
/// `display_name`. A focus change carries the tab as metadata; a loss of
/// focus carries nothing.
pub open spec fn event_of_message(
    event_type: Seq<char>,
    tab_id: Option<Seq<char>>,
    display_name: Option<Seq<char>>,
) -> Result<EventView, ProtocolError> {
    if event_type == "focus_change"@ {
        match (tab_id, display_name) {
            (None, _) => Err(ProtocolError::MissingTabId),
            (Some(_), None) => Err(ProtocolError::MissingDisplayName),
            (Some(tab), Some(name)) => Ok(
                EventView {
                    event_type: EventType::FocusChange,
                    source: Host::FirefoxWatcher,
                    display_name: name,
                    metadata: tab,
                },
            ),
        }
    } else if event_type == "focus_lost"@ {
        Ok(
            EventView {
                event_type: EventType::FocusLost,
                source: Host::FirefoxWatcher,
                display_name: Seq::empty(),
                metadata: Seq::empty(),
            },
        )
    } else {
        Err(ProtocolError::UnknownEventType)
    }
}

/// The value of the result of reading a message.
pub open spec fn event_result_view(result: Result<Event, ProtocolError>) -> Result<
    EventView,
    ProtocolError,
> {
    match result {
        Ok(event) => Ok(event@),
        Err(error) => Err(error),
    }
}

/// Reads a message of the extension as an event of the browser watcher.
pub fn event_from_message(
    event_type: &str,
    tab_id: Option<String>,
    display_name: Option<String>,
) -> (result: Result<Event, ProtocolError>)
    ensures
        event_result_view(result) == event_of_message(
            event_type@,
            text_view(tab_id),
            text_view(display_name),
        ),
{
    if str_eq(event_type, "focus_change") {
        match tab_id {
            None => Err(ProtocolError::MissingTabId),
            Some(tab) => match display_name {
                None => Err(ProtocolError::MissingDisplayName),
                Some(name) => Ok(
                    Event {
                        event_type: EventType::FocusChange,
                        source: Host::FirefoxWatcher,
                        display_name: name,
                        metadata: tab,
                    },
                ),
            },
        }
    } else if str_eq(event_type, "focus_lost") {
        Ok(
            Event {
                event_type: EventType::FocusLost,
                source: Host::FirefoxWatcher,
                display_name: String::new(),
                metadata: String::new(),
            },
        )
    } else {
        Err(ProtocolError::UnknownEventType)
    }
}

} // verus!
