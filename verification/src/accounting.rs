//! What the accounting of events adds up to: the seconds of a target only
//! grow within a day, the segments that are closed hold the time for which
//! the sessions were open to within a second each, and a session that is
//! split at midnight loses less than a second.

use vstd::prelude::*;
use crate::clock::elapsed_seconds_of;
use crate::context::{
    closed_segment, context_after_event, context_after_midnight, durations_with_all, host_segment,
    keyed_by_source, segment_closed_by, ContextView, LastEventView,
};
use crate::daemon::seconds_in;
use crate::dbus::Host;
use crate::event::EventView;
use crate::schema::FocusChangeView;

verus! {

/// One accounting of an event: the moment, the event, and whether the
/// event opens a session.
pub struct Accounting {
    pub now: int,
    pub event: EventView,
    pub set_last_event: bool,
}

/// The state after a sequence of events was accounted for, one after the
/// other.
pub open spec fn context_after_events(context: ContextView, steps: Seq<Accounting>) -> ContextView
    decreases steps.len(),
{
    if steps.len() == 0 {
        context
    } else {
        context_after_event(
            context_after_events(context, steps.drop_last()),
            steps.last().now,
            steps.last().event,
            steps.last().set_last_event,
        )
    }
}

/// The segments that a sequence of events closes, in their order.
pub open spec fn segments_closed_by_events(context: ContextView, steps: Seq<Accounting>) -> Seq<
    FocusChangeView,
>
    decreases steps.len(),
{
    if steps.len() == 0 {
        Seq::empty()
    } else {
        segments_closed_by_events(context, steps.drop_last()) + host_segment(
            context_after_events(context, steps.drop_last()).last_event,
            steps.last().event.source,
            steps.last().now,
        )
    }
}

/// The milliseconds by which an event at `now` from `source` ends an open
/// session: the time since the session began, and zero without a session.
pub open spec fn session_millis(
    last_event: Map<Host, LastEventView>,
    source: Host,
    now: int,
) -> int {
    if last_event.contains_key(source) {
        now - last_event[source].time
    } else {
        0
    }
}

/// The milliseconds for which the sessions that a sequence of events
/// closes were open.
pub open spec fn millis_closed_by_events(context: ContextView, steps: Seq<Accounting>) -> int
    decreases steps.len(),
{
    if steps.len() == 0 {
        0
    } else {
        millis_closed_by_events(context, steps.drop_last()) + session_millis(
            context_after_events(context, steps.drop_last()).last_event,
            steps.last().event.source,
            steps.last().now,
        )
    }
}

/// Whether a session that began at `since` can be closed at `now` with its
/// true length: the clock has not gone backwards, and the length in
/// seconds fits a `u32`.
pub open spec fn measurable(since: int, now: int) -> bool {
    0 <= now - since < 1000 * 0x1_0000_0000
}

/// Whether every session that the sequence of events closes is closed with
/// its true length.
pub open spec fn all_measurable(context: ContextView, steps: Seq<Accounting>) -> bool
    decreases steps.len(),
{
    if steps.len() == 0 {
        true
    } else {
        let before = context_after_events(context, steps.drop_last()).last_event;
        let source = steps.last().event.source;
        &&& all_measurable(context, steps.drop_last())
        &&& before.contains_key(source) ==> measurable(before[source].time, steps.last().now)
    }
}

/// The seconds of a sequence of segments, summed.
pub open spec fn seconds_of_segments(changes: Seq<FocusChangeView>) -> int
    decreases changes.len(),
{
    if changes.len() == 0 {
        0
    } else {
        seconds_of_segments(changes.drop_last()) + changes.last().duration
    }
}

/// The seconds of the segments of one target, summed.
pub open spec fn seconds_of_target(
    changes: Seq<FocusChangeView>,
    host: Host,
    display_name: Seq<char>,
) -> int
    decreases changes.len(),
{
    if changes.len() == 0 {
        0
    } else {
        seconds_of_target(changes.drop_last(), host, display_name) + if changes.last().host == host
            && changes.last().display_name == display_name {
            changes.last().duration as int
        } else {
            0
        }
    }
}

/// The durations that a sequence of segments adds up to are sums: the
/// total of a target is the sum of the seconds of its segments, held at
/// the largest `u32`.
pub proof fn lemma_durations_are_sums(
    changes: Seq<FocusChangeView>,
    host: Host,
    display_name: Seq<char>,
)
    ensures
        seconds_of_target(changes, host, display_name) >= 0,
        seconds_in(durations_with_all(Map::empty(), changes), host, display_name) == (
        if seconds_of_target(changes, host, display_name) > u32::MAX {
            u32::MAX as int
        } else {
            seconds_of_target(changes, host, display_name)
        }),
    decreases changes.len(),
{
    if changes.len() > 0 {
        lemma_durations_are_sums(changes.drop_last(), host, display_name);
    }
}

/// No total falls when an event is accounted for: within a day the seconds
/// of every target only grow.
pub proof fn lemma_durations_never_decrease(
    context: ContextView,
    now: int,
    event: EventView,
    set_last_event: bool,
    host: Host,
    display_name: Seq<char>,
)
    ensures
        seconds_in(
            context_after_event(context, now, event, set_last_event).durations,
            host,
            display_name,
        ) >= seconds_in(context.durations, host, display_name),
{
}

/// No total falls when a sequence of closed segments is added.
pub proof fn lemma_durations_with_all_never_decrease(
    durations: Map<(Host, Seq<char>), u32>,
    changes: Seq<FocusChangeView>,
    host: Host,
    display_name: Seq<char>,
)
    ensures
        seconds_in(durations_with_all(durations, changes), host, display_name) >= seconds_in(
            durations,
            host,
            display_name,
        ),
    decreases changes.len(),
{
    if changes.len() > 0 {
        lemma_durations_with_all_never_decrease(durations, changes.drop_last(), host, display_name);
    }
}

/// The seconds of a segment are the whole seconds for which its session
/// was open: they fall short of the true length by less than one second.
pub proof fn lemma_segment_length(last: LastEventView, now: int)
    requires
        measurable(last.time, now),
    ensures
        1000 * closed_segment(last, now).duration <= now - last.time < 1000 * (closed_segment(
            last,
            now,
        ).duration + 1),
{
}

/// The seconds of the segments that a sequence of events closes, summed,
/// fall short of the time for which the sessions were open by less than
/// one second for each segment, and never exceed it.
pub proof fn lemma_segments_conserve_time(context: ContextView, steps: Seq<Accounting>)
    requires
        all_measurable(context, steps),
    ensures
        1000 * seconds_of_segments(segments_closed_by_events(context, steps))
            <= millis_closed_by_events(context, steps),
        millis_closed_by_events(context, steps) <= 1000 * (seconds_of_segments(
            segments_closed_by_events(context, steps),
        ) + segments_closed_by_events(context, steps).len()),
        segments_closed_by_events(context, steps).len() > 0 ==> millis_closed_by_events(
            context,
            steps,
        ) < 1000 * (seconds_of_segments(segments_closed_by_events(context, steps))
            + segments_closed_by_events(context, steps).len()),
    decreases steps.len(),
{
    if steps.len() > 0 {
        let front = steps.drop_last();
        lemma_segments_conserve_time(context, front);
        let before = context_after_events(context, front).last_event;
        let source = steps.last().event.source;
        let closed = segments_closed_by_events(context, front);
        if before.contains_key(source) {
            let change = closed_segment(before[source], steps.last().now);
            lemma_segment_length(before[source], steps.last().now);
            let all = closed + seq![change];
            assert(all.drop_last() =~= closed);
            assert(all.last() == change);
        } else {
            assert(closed + Seq::<FocusChangeView>::empty() =~= closed);
        }
    }
}

/// A session that is split at midnight loses less than a second. Where
/// the source `host` has a session, the sessions are split at `midnight`,
/// and the next event of that source is accounted for at `now`, two
/// segments of the session's target are closed: one at `midnight`, one at
/// `now`. Their seconds together are the whole seconds from the session's
/// start to `now`, or one less.
pub proof fn lemma_midnight_split(context: ContextView, host: Host, midnight: int, now: int)
    requires
        keyed_by_source(context.last_event),
        context.last_event.contains_key(host),
        context.last_event[host].time <= midnight <= now,
        measurable(context.last_event[host].time, now),
    ensures
        ({
            let session = context.last_event[host];
            let first = segment_closed_by(context.last_event, host, midnight);
            let second = segment_closed_by(
                context_after_midnight(context, midnight).last_event,
                host,
                now,
            );
            let whole = elapsed_seconds_of(session.time, now);
            &&& first matches Some(before)
            &&& second matches Some(after)
            &&& before.timestamp == midnight && after.timestamp == now
            &&& before.host == host && after.host == host
            &&& before.display_name == session.event.display_name
            &&& after.display_name == session.event.display_name
            &&& whole - 1 <= before.duration + after.duration <= whole
        }),
{
}

} // verus!
