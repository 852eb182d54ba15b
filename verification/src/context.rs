//! The daemon's state and the operations on it: the timers, today's
//! durations, the open session of each source, the local date that all of
//! this belongs to, and the digest of the lock password.
//!
//! Every operation is stated over [`ContextView`], the mathematical value of
//! the state. Operations that need the time come in two forms: one that
//! takes the moment as an argument and says exactly what it does, and one
//! that reads the clock and then does the same.

use vstd::prelude::*;
use crate::clock::{
    elapsed_seconds, elapsed_seconds_of, local_today, utc_now, LocalDay, Timestamp,
};
use crate::daemon::{durations_after, DaemonSnapshot, DurationMap};
use crate::dbus::Host;
use crate::digest::{hash_password, password_digest_of};
use crate::event::{Event, EventType, EventView};
use crate::schema::{timer_views, FocusChange, FocusChangeView, QueryType, Timer, TimerView};
use crate::text::text_view;
use crate::timers::{
    copy_of_timers, has_target, has_timer_for, lemma_deleted_has_no_target,
    lemma_edit_keeps_targets_unique, lemma_inserted_has_target, statement_for_insert,
    timers_with_deleted, timers_with_inserted, timers_with_updated, unique_targets,
    with_timer_deleted, with_timer_inserted, with_timer_updated,
};

verus! {

/// The most recent acquisition of focus that a source has reported.
#[derive(Debug, PartialEq, Eq)]
pub struct LastEvent {
    /// The moment of the acquisition.
    pub time: Timestamp,
    /// The event that acquired focus.
    pub event: Event,
}

/// The mathematical value of a [`LastEvent`].
pub struct LastEventView {
    pub time: int,
    pub event: EventView,
}

impl View for LastEvent {
    type V = LastEventView;

    open spec fn view(&self) -> LastEventView {
        LastEventView { time: self.time as int, event: self.event@ }
    }
}

impl Clone for LastEvent {
    fn clone(&self) -> (copy: Self)
        ensures
            copy == *self,
    {
        LastEvent { time: self.time, event: self.event.clone() }
    }
}

/// The open session of each source: at most one [`LastEvent`] per host, kept
/// under the source of its event.
#[derive(Debug)]
pub struct LastEvents {
    user_daemon: Option<LastEvent>,
    firefox_watcher: Option<LastEvent>,
    gnome_application: Option<LastEvent>,
    gnome_extension: Option<LastEvent>,
}

impl View for LastEvents {
    type V = Map<Host, LastEventView>;

    closed spec fn view(&self) -> Map<Host, LastEventView> {
        Map::new(|host: Host| self.slot(host) is Some, |host: Host| self.slot(host)->0@)
    }
}

/// Every session is kept under the source of its event.
pub open spec fn keyed_by_source(sessions: Map<Host, LastEventView>) -> bool {
    forall|host: Host| #[trigger]
        sessions.contains_key(host) ==> sessions[host].event.source == host
}

impl LastEvents {
    spec fn slot(&self, host: Host) -> Option<LastEvent> {
        match host {
            Host::UserDaemon => self.user_daemon,
            Host::FirefoxWatcher => self.firefox_watcher,
            Host::GnomeApplication => self.gnome_application,
            Host::GnomeExtension => self.gnome_extension,
        }
    }

    #[verifier::type_invariant]
    spec fn slots_match_sources(&self) -> bool {
        &&& self.user_daemon matches Some(last) ==> last.event.source == Host::UserDaemon
        &&& self.firefox_watcher matches Some(last) ==> last.event.source == Host::FirefoxWatcher
        &&& self.gnome_application matches Some(last) ==> last.event.source
            == Host::GnomeApplication
        &&& self.gnome_extension matches Some(last) ==> last.event.source == Host::GnomeExtension
    }

    proof fn lemma_keyed_by_source(&self)
        requires
            self.slots_match_sources(),
        ensures
            keyed_by_source(self@),
    {
        assert forall|host: Host| #[trigger] self@.contains_key(host) implies self@[host].event
            .source == host by {
            assert(self.slot(host) is Some);
        }
    }

    /// No source has an open session.
    pub fn new() -> (sessions: Self)
        ensures
            sessions@ == Map::<Host, LastEventView>::empty(),
    {
        let sessions = LastEvents {
            user_daemon: None,
            firefox_watcher: None,
            gnome_application: None,
            gnome_extension: None,
        };
        assert(sessions@ =~= Map::<Host, LastEventView>::empty());
        sessions
    }

    /// The open session of `host`, if it has one. It was opened by an event
    /// of that host.
    pub fn get(&self, host: Host) -> (last: Option<&LastEvent>)
        ensures
            match last {
                Some(found) => {
                    &&& self@.contains_key(host)
                    &&& self@[host] == found@
                    &&& found@.event.source == host
                },
                None => !self@.contains_key(host),
            },
    {
        proof {
            use_type_invariant(self);
            self.lemma_keyed_by_source();
        }
        match host {
            Host::UserDaemon => self.user_daemon.as_ref(),
            Host::FirefoxWatcher => self.firefox_watcher.as_ref(),
            Host::GnomeApplication => self.gnome_application.as_ref(),
            Host::GnomeExtension => self.gnome_extension.as_ref(),
        }
    }

    /// Whether `host` has an open session.
    pub fn contains(&self, host: Host) -> (open: bool)
        ensures
            open == self@.contains_key(host),
    {
        self.get(host).is_some()
    }

    /// Whether no source has an open session.
    pub fn is_empty(&self) -> (empty: bool)
        ensures
            empty == (self@ == Map::<Host, LastEventView>::empty()),
    {
        let empty = self.user_daemon.is_none() && self.firefox_watcher.is_none()
            && self.gnome_application.is_none() && self.gnome_extension.is_none();
        proof {
            if empty {
                assert(self@ =~= Map::<Host, LastEventView>::empty());
            } else {
                let host = if self.user_daemon is Some {
                    Host::UserDaemon
                } else if self.firefox_watcher is Some {
                    Host::FirefoxWatcher
                } else if self.gnome_application is Some {
                    Host::GnomeApplication
                } else {
                    Host::GnomeExtension
                };
                assert(self.slot(host) is Some);
                assert(self@.contains_key(host));
            }
        }
        empty
    }

    /// Records `last` as the open session of its event's source, in place
    /// of the one that the source had.
    pub fn insert(&mut self, last: LastEvent)
        ensures
            final(self)@ == old(self)@.insert(last@.event.source, last@),
    {
        proof {
            use_type_invariant(&*self);
        }
        let ghost host = last.event.source;
        let ghost value = last@;
        match last.event.source {
            Host::UserDaemon => {
                self.user_daemon = Some(last);
            },
            Host::FirefoxWatcher => {
                self.firefox_watcher = Some(last);
            },
            Host::GnomeApplication => {
                self.gnome_application = Some(last);
            },
            Host::GnomeExtension => {
                self.gnome_extension = Some(last);
            },
        }
        assert(self@ =~= old(self)@.insert(host, value));
    }

    /// Forgets the open session of `host`.
    pub fn remove(&mut self, host: Host)
        ensures
            final(self)@ == old(self)@.remove(host),
    {
        proof {
            use_type_invariant(&*self);
        }
        match host {
            Host::UserDaemon => {
                self.user_daemon = None;
            },
            Host::FirefoxWatcher => {
                self.firefox_watcher = None;
            },
            Host::GnomeApplication => {
                self.gnome_application = None;
            },
            Host::GnomeExtension => {
                self.gnome_extension = None;
            },
        }
        assert(self@ =~= old(self)@.remove(host));
    }

    /// Forgets every open session.
    pub fn clear(&mut self)
        ensures
            final(self)@ == Map::<Host, LastEventView>::empty(),
    {
        proof {
            use_type_invariant(&*self);
        }
        self.user_daemon = None;
        self.firefox_watcher = None;
        self.gnome_application = None;
        self.gnome_extension = None;
        assert(self@ =~= Map::<Host, LastEventView>::empty());
    }
}

/// The mathematical value of a [`DaemonContext`].
pub struct ContextView {
    pub timers: Seq<TimerView>,
    pub durations: Map<(Host, Seq<char>), u32>,
    pub last_event: Map<Host, LastEventView>,
    pub cur_date: int,
    pub password_hash: Option<Seq<char>>,
}

/// The value of an optional focus change.
pub open spec fn change_view(change: Option<FocusChange>) -> Option<FocusChangeView> {
    match change {
        Some(change) => Some(change@),
        None => None,
    }
}

/// The segment that closes at `now` for a session that was opened by `last`.
pub open spec fn closed_segment(last: LastEventView, now: int) -> FocusChangeView {
    FocusChangeView {
        host: last.event.source,
        display_name: last.event.display_name,
        timestamp: now,
        duration: elapsed_seconds_of(last.time, now),
    }
}

/// The segment that an event from `source` closes at `now`: the open session
/// of that source, if it has one.
pub open spec fn segment_closed_by(
    last_event: Map<Host, LastEventView>,
    source: Host,
    now: int,
) -> Option<FocusChangeView> {
    if last_event.contains_key(source) {
        Some(closed_segment(last_event[source], now))
    } else {
        None
    }
}

/// Today's durations with a closed segment added, or unchanged where no
/// segment was closed.
pub open spec fn durations_with(
    durations: Map<(Host, Seq<char>), u32>,
    change: Option<FocusChangeView>,
) -> Map<(Host, Seq<char>), u32> {
    match change {
        Some(change) => durations_after(
            durations,
            change.host,
            change.display_name,
            change.duration,
        ),
        None => durations,
    }
}

/// The state after an event was accounted for at `now`: the session of the
/// event's source is closed and its seconds are added to today's durations;
/// then the event opens a new session of that source, or leaves it without
/// one.
pub open spec fn context_after_event(
    context: ContextView,
    now: int,
    event: EventView,
    set_last_event: bool,
) -> ContextView {
    ContextView {
        durations: durations_with(
            context.durations,
            segment_closed_by(context.last_event, event.source, now),
        ),
        last_event: if set_last_event {
            context.last_event.insert(event.source, LastEventView { time: now, event })
        } else {
            context.last_event.remove(event.source)
        },
        ..context
    }
}

/// The state at start-up: what the store holds, and no open session.
pub open spec fn context_at_start(
    timers: Seq<TimerView>,
    durations: Map<(Host, Seq<char>), u32>,
    today: int,
    password_hash: Option<Seq<char>>,
) -> ContextView {
    ContextView { timers, durations, last_event: Map::empty(), cur_date: today, password_hash }
}

/// The state after the date was found to be `today`: on a new day the
/// durations and the open sessions are gone.
pub open spec fn context_after_reset(context: ContextView, today: int) -> ContextView {
    if context.cur_date != today {
        ContextView {
            durations: Map::empty(),
            last_event: Map::empty(),
            cur_date: today,
            ..context
        }
    } else {
        context
    }
}

/// The views of a sequence of focus changes, in the same order.
pub open spec fn change_views(changes: Seq<FocusChange>) -> Seq<FocusChangeView> {
    changes.map_values(|change: FocusChange| change@)
}

/// The segment that closes at `now` for the open session of `host`, as a
/// sequence: empty where the host has no open session.
pub open spec fn host_segment(
    last_event: Map<Host, LastEventView>,
    host: Host,
    now: int,
) -> Seq<FocusChangeView> {
    match segment_closed_by(last_event, host, now) {
        Some(change) => seq![change],
        None => Seq::empty(),
    }
}

/// The segments that close at `now` when every open session is closed, in
/// the order of the hosts.
pub open spec fn open_segments(last_event: Map<Host, LastEventView>, now: int) -> Seq<
    FocusChangeView,
> {
    host_segment(last_event, Host::UserDaemon, now) + host_segment(
        last_event,
        Host::FirefoxWatcher,
        now,
    ) + host_segment(last_event, Host::GnomeApplication, now) + host_segment(
        last_event,
        Host::GnomeExtension,
        now,
    )
}

/// Today's durations with a sequence of closed segments added, one after
/// the other.
pub open spec fn durations_with_all(
    durations: Map<(Host, Seq<char>), u32>,
    changes: Seq<FocusChangeView>,
) -> Map<(Host, Seq<char>), u32>
    decreases changes.len(),
{
    if changes.len() == 0 {
        durations
    } else {
        durations_with(durations_with_all(durations, changes.drop_last()), Some(changes.last()))
    }
}

/// The state after every open session was closed at `now`: each session's
/// seconds are added to today's durations, and no source has a session.
pub open spec fn context_after_clear(context: ContextView, now: int) -> ContextView {
    ContextView {
        durations: durations_with_all(context.durations, open_segments(context.last_event, now)),
        last_event: Map::empty(),
        ..context
    }
}

/// The state after every open session was closed at `now` and opened again
/// at the same moment with the event that it had.
pub open spec fn context_after_midnight(context: ContextView, now: int) -> ContextView {
    ContextView {
        durations: durations_with_all(context.durations, open_segments(context.last_event, now)),
        last_event: context.last_event.map_values(
            |last: LastEventView| LastEventView { time: now, event: last.event },
        ),
        ..context
    }
}

/// Adding the segments of `changes` and then the segment of one more host
/// is adding all of them in this order.
proof fn lemma_durations_with_segment(
    durations: Map<(Host, Seq<char>), u32>,
    changes: Seq<FocusChangeView>,
    last_event: Map<Host, LastEventView>,
    host: Host,
    now: int,
)
    ensures
        durations_with_all(durations, changes + host_segment(last_event, host, now))
            == durations_with(
            durations_with_all(durations, changes),
            segment_closed_by(last_event, host, now),
        ),
{
    match segment_closed_by(last_event, host, now) {
        Some(change) => {
            let all = changes + seq![change];
            assert(all.drop_last() =~= changes);
            assert(all.last() == change);
        },
        None => {
            assert(changes + Seq::<FocusChangeView>::empty() =~= changes);
        },
    }
}

/// Adding the segment of each host in turn is adding the segments of all
/// open sessions, in the order of the hosts.
proof fn lemma_durations_with_open_segments(
    durations: Map<(Host, Seq<char>), u32>,
    sessions: Map<Host, LastEventView>,
    now: int,
)
    ensures
        ({
            let first = durations_with(
                durations,
                segment_closed_by(sessions, Host::UserDaemon, now),
            );
            let second = durations_with(
                first,
                segment_closed_by(sessions, Host::FirefoxWatcher, now),
            );
            let third = durations_with(
                second,
                segment_closed_by(sessions, Host::GnomeApplication, now),
            );
            durations_with_all(durations, open_segments(sessions, now)) == durations_with(
                third,
                segment_closed_by(sessions, Host::GnomeExtension, now),
            )
        }),
{
    let first = host_segment(sessions, Host::UserDaemon, now);
    let second = first + host_segment(sessions, Host::FirefoxWatcher, now);
    let third = second + host_segment(sessions, Host::GnomeApplication, now);
    assert(Seq::<FocusChangeView>::empty() + first =~= first);
    lemma_durations_with_segment(durations, Seq::empty(), sessions, Host::UserDaemon, now);
    lemma_durations_with_segment(durations, first, sessions, Host::FirefoxWatcher, now);
    lemma_durations_with_segment(durations, second, sessions, Host::GnomeApplication, now);
    lemma_durations_with_segment(durations, third, sessions, Host::GnomeExtension, now);
}

/// The password state after a password with this digest was submitted: a
/// locked session opens for the right password and stays locked for any
/// other; an unlocked session is locked with the digest.
pub open spec fn password_after(stored: Option<Seq<char>>, digest: Seq<char>) -> Option<Seq<char>> {
    match stored {
        Some(current) => if current == digest {
            None
        } else {
            Some(current)
        },
        None => Some(digest),
    }
}

/// Whether the submission of a password with this digest unlocks the
/// session: it does if it is the digest that locked it.
pub open spec fn submission_unlocks(stored: Option<Seq<char>>, digest: Seq<char>) -> bool {
    stored == Some(digest)
}

/// The daemon's state. It belongs to the task that handles events; clients
/// read and change it through the operations below.
#[derive(Debug)]
pub struct DaemonContext {
    /// The timers established by the user, in the order in which they were
    /// added.
    pub timers: Vec<Timer>,
    /// The durations accumulated over the current day.
    pub timer_durations: DurationMap,
    /// The open session of each source.
    pub last_event: LastEvents,
    /// The local date that the durations and sessions belong to, as the
    /// number of the day from January 1 of the year 1.
    pub cur_date: i32,
    /// The digest of the lock password; `None` while the session is
    /// unlocked.
    pub password_hash: Option<String>,
}

impl View for DaemonContext {
    type V = ContextView;

    open spec fn view(&self) -> ContextView {
        ContextView {
            timers: timer_views(self.timers@),
            durations: self.timer_durations@,
            last_event: self.last_event@,
            cur_date: self.cur_date as int,
            password_hash: text_view(self.password_hash),
        }
    }
}

impl DaemonContext {
    /// The state at start-up on the local day `today`: the stored timers,
    /// the durations that the store holds for the day, no open session.
    pub fn new_on(
        timers: Vec<Timer>,
        durations: DurationMap,
        today: LocalDay,
        password_hash: Option<String>,
    ) -> (context: Self)
        ensures
            context@ == context_at_start(
                timer_views(timers@),
                durations@,
                today.date as int,
                text_view(password_hash),
            ),
    {
        DaemonContext {
            timers,
            timer_durations: durations,
            last_event: LastEvents::new(),
            cur_date: today.date,
            password_hash,
        }
    }

    /// The state at start-up today, by the system clock and the machine's
    /// time zone.
    pub fn new(
        timers: Vec<Timer>,
        durations: DurationMap,
        password_hash: Option<String>,
    ) -> (context: Self)
        ensures
            exists|today: int|
                context@ == #[trigger] context_at_start(
                    timer_views(timers@),
                    durations@,
                    today,
                    text_view(password_hash),
                ),
    {
        let today = local_today();
        let context = DaemonContext::new_on(timers, durations, today, password_hash);
        assert(context@ == context_at_start(
            timer_views(timers@),
            durations@,
            today.date as int,
            text_view(password_hash),
        ));
        context
    }

    /// Starts a new day where `today` is not the date of the state: the
    /// durations and the open sessions are dropped.
    pub fn reset_daily_state_on(&mut self, today: LocalDay)
        ensures
            final(self)@ == context_after_reset(old(self)@, today.date as int),
    {
        if self.cur_date != today.date {
            self.timer_durations.clear();
            self.last_event.clear();
            self.cur_date = today.date;
        }
    }

    /// Starts a new day where the local date has changed since the last
    /// event. The date is read from the system clock.
    pub fn reset_daily_state(&mut self)
        ensures
            exists|today: int| final(self)@ == #[trigger] context_after_reset(old(self)@, today),
    {
        let today = local_today();
        self.reset_daily_state_on(today);
        assert(self@ == context_after_reset(old(self)@, today.date as int));
    }

    /// Accounts for `event` at the moment `now`. Where the event's source
    /// has an open session, the session is closed: its whole seconds are
    /// added to today's durations, and the closed segment is returned for
    /// the caller to store and announce. Then the event becomes the open
    /// session of its source, or, without `set_last_event`, the source is
    /// left without one.
    pub fn update_event_durations_at(
        &mut self,
        now: Timestamp,
        event: &Event,
        set_last_event: bool,
    ) -> (change: Option<FocusChange>)
        ensures
            change_view(change) == segment_closed_by(
                old(self)@.last_event,
                event@.source,
                now as int,
            ),
            final(self)@ == context_after_event(old(self)@, now as int, event@, set_last_event),
    {
        let mut change: Option<FocusChange> = None;
        match self.last_event.get(event.source) {
            Some(last) => {
                let closed = FocusChange {
                    host: last.event.source,
                    display_name: last.event.display_name.clone(),
                    timestamp: now,
                    duration: elapsed_seconds(last.time, now),
                };
                self.timer_durations.add(closed.host, &closed.display_name, closed.duration);
                change = Some(closed);
            },
            None => {},
        }
        if set_last_event {
            self.last_event.insert(LastEvent { time: now, event: event.clone() });
        } else {
            self.last_event.remove(event.source);
        }
        change
    }

    /// Accounts for `event` at the present moment, read from the system
    /// clock.
    pub fn update_event_durations(&mut self, event: &Event, set_last_event: bool) -> (change:
        Option<FocusChange>)
        ensures
            exists|now: int|
                {
                    &&& change_view(change) == #[trigger] segment_closed_by(
                        old(self)@.last_event,
                        event@.source,
                        now,
                    )
                    &&& final(self)@ == context_after_event(old(self)@, now, event@, set_last_event)
                },
    {
        let now = utc_now();
        let change = self.update_event_durations_at(now, event, set_last_event);
        assert(change_view(change) == segment_closed_by(
            old(self)@.last_event,
            event@.source,
            now as int,
        ));
        change
    }
    /// Closes the open session of `host` at `now`, if it has one, and either
    /// opens it again with the same event or leaves the host without one.
    /// The closed segment is appended to `changes`.
    fn close_session_at(
        &mut self,
        host: Host,
        now: Timestamp,
        reopen: bool,
        changes: &mut Vec<FocusChange>,
    )
        ensures
            change_views(final(changes)@) == change_views(old(changes)@) + host_segment(
                old(self)@.last_event,
                host,
                now as int,
            ),
            final(self)@ == (ContextView {
                durations: durations_with(
                    old(self)@.durations,
                    segment_closed_by(old(self)@.last_event, host, now as int),
                ),
                last_event: if reopen && old(self)@.last_event.contains_key(host) {
                    old(self)@.last_event.insert(
                        host,
                        LastEventView {
                            time: now as int,
                            event: old(self)@.last_event[host].event,
                        },
                    )
                } else {
                    old(self)@.last_event.remove(host)
                },
                ..old(self)@
            }),
    {
        let open = match self.last_event.get(host) {
            Some(last) => Some(last.event.clone()),
            None => None,
        };
        match open {
            Some(event) => {
                let event = if reopen {
                    event
                } else {
                    Event {
                        event_type: EventType::FocusLost,
                        source: host,
                        display_name: event.display_name,
                        metadata: event.metadata,
                    }
                };
                let change = self.update_event_durations_at(now, &event, reopen);
                match change {
                    Some(change) => {
                        changes.push(change);
                        assert(change_views(changes@) =~= change_views(old(changes)@) + seq![
                            change@,
                        ]);
                    },
                    None => {},
                }
            },
            None => {
                assert(self@.last_event.remove(host) =~= self@.last_event);
                assert(change_views(changes@) + Seq::<FocusChangeView>::empty() =~= change_views(
                    changes@,
                ));
            },
        }
    }

    /// Closes every open session at `now` and leaves no source with one:
    /// what the daemon does before the machine sleeps and when the screen
    /// saver comes or goes. The closed segments are returned, in the order
    /// of the hosts, for the caller to store.
    pub fn clear_last_event_at(&mut self, now: Timestamp) -> (changes: Vec<FocusChange>)
        ensures
            change_views(changes@) == open_segments(old(self)@.last_event, now as int),
            final(self)@ == context_after_clear(old(self)@, now as int),
    {
        let ghost before = self@;
        let mut changes: Vec<FocusChange> = Vec::new();
        assert(change_views(changes@) =~= Seq::<FocusChangeView>::empty());
        self.close_session_at(Host::UserDaemon, now, false, &mut changes);
        self.close_session_at(Host::FirefoxWatcher, now, false, &mut changes);
        self.close_session_at(Host::GnomeApplication, now, false, &mut changes);
        self.close_session_at(Host::GnomeExtension, now, false, &mut changes);
        proof {
            lemma_durations_with_open_segments(before.durations, before.last_event, now as int);
            assert(self@.last_event =~= Map::<Host, LastEventView>::empty());
        }
        changes
    }

    /// Closes every open session at the present moment, read from the
    /// system clock.
    pub fn clear_last_event(&mut self) -> (changes: Vec<FocusChange>)
        ensures
            exists|now: int|
                {
                    &&& change_views(changes@) == #[trigger] open_segments(
                        old(self)@.last_event,
                        now,
                    )
                    &&& final(self)@ == context_after_clear(old(self)@, now)
                },
    {
        let now = utc_now();
        let changes = self.clear_last_event_at(now);
        assert(change_views(changes@) == open_segments(old(self)@.last_event, now as int));
        changes
    }

    /// Splits every open session at `now`: the part before is closed and
    /// returned, and the session goes on from `now` with the event that it
    /// had. The daemon does this at local midnight, so that the time before
    /// midnight is not counted for the new day.
    pub fn split_sessions_at(&mut self, now: Timestamp) -> (changes: Vec<FocusChange>)
        ensures
            change_views(changes@) == open_segments(old(self)@.last_event, now as int),
            final(self)@ == context_after_midnight(old(self)@, now as int),
    {
        let ghost before = self@;
        let mut changes: Vec<FocusChange> = Vec::new();
        assert(change_views(changes@) =~= Seq::<FocusChangeView>::empty());
        self.close_session_at(Host::UserDaemon, now, true, &mut changes);
        self.close_session_at(Host::FirefoxWatcher, now, true, &mut changes);
        self.close_session_at(Host::GnomeApplication, now, true, &mut changes);
        self.close_session_at(Host::GnomeExtension, now, true, &mut changes);
        proof {
            lemma_durations_with_open_segments(before.durations, before.last_event, now as int);
            assert(self@.last_event =~= context_after_midnight(before, now as int).last_event);
        }
        changes
    }

    /// Splits every open session at the present moment, read from the
    /// system clock.
    pub fn split_sessions(&mut self) -> (changes: Vec<FocusChange>)
        ensures
            exists|now: int|
                {
                    &&& change_views(changes@) == #[trigger] open_segments(
                        old(self)@.last_event,
                        now,
                    )
                    &&& final(self)@ == context_after_midnight(old(self)@, now)
                },
    {
        let now = utc_now();
        let changes = self.split_sessions_at(now);
        assert(change_views(changes@) == open_segments(old(self)@.last_event, now as int));
        changes
    }

    /// The timers as they are now, with `durations`: the durations that the
    /// caller has just derived from the store, not the ones in memory.
    pub fn get_daemon_snapshot(&self, durations: DurationMap) -> (snapshot: DaemonSnapshot)
        ensures
            timer_views(snapshot.timers@) == self@.timers,
            snapshot.durations@ == durations@,
    {
        DaemonSnapshot { timers: copy_of_timers(&self.timers), durations }
    }

    /// Whether the session is locked: whether a password digest is stored.
    pub fn is_locked(&self) -> (locked: bool)
        ensures
            locked == (self@.password_hash is Some),
    {
        self.password_hash.is_some()
    }

    /// Takes the digest of a submitted password. A locked session is
    /// unlocked by the digest that locked it, and by no other; an unlocked
    /// session is locked with the digest. Returns whether the session was
    /// unlocked by this submission.
    pub fn submit_password_digest(&mut self, digest: String) -> (unlocked: bool)
        ensures
            unlocked == submission_unlocks(old(self)@.password_hash, digest@),
            final(self)@ == (ContextView {
                password_hash: password_after(old(self)@.password_hash, digest@),
                ..old(self)@
            }),
    {
        let correct = match &self.password_hash {
            Some(current) => Some(*current == digest),
            None => None,
        };
        match correct {
            Some(true) => {
                self.password_hash = None;
                true
            },
            Some(false) => false,
            None => {
                self.password_hash = Some(digest);
                false
            },
        }
    }

    /// Takes a submitted password: locks an unlocked session with it, or
    /// unlocks a locked session if it is the password that locked it.
    /// Returns whether the session is unlocked now.
    pub fn process_password_submission(&mut self, password: String) -> (unlocked: bool)
        ensures
            unlocked == submission_unlocks(
                old(self)@.password_hash,
                password_digest_of(password@),
            ),
            final(self)@ == (ContextView {
                password_hash: password_after(
                    old(self)@.password_hash,
                    password_digest_of(password@),
                ),
                ..old(self)@
            }),
    {
        let digest = hash_password(password.as_str());
        self.submit_password_digest(digest)
    }

    /// Sets `timer` for its target: in the place of the timer that the
    /// target has, or at the end of the list where it has none. A list with
    /// one timer for each target stays so. Returns the statement that
    /// carries the edit to the store: an update where a timer was
    /// replaced, an insertion where one was added.
    pub fn insert_timer(&mut self, timer: Timer) -> (statement: QueryType)
        ensures
            final(self)@ == (ContextView {
                timers: timers_with_inserted(old(self)@.timers, timer@),
                ..old(self)@
            }),
            statement == statement_for_insert(old(self)@.timers, timer@),
            has_target(final(self)@.timers, timer@),
            unique_targets(old(self)@.timers) ==> unique_targets(final(self)@.timers),
    {
        proof {
            lemma_inserted_has_target(self@.timers, timer@);
            if unique_targets(self@.timers) {
                lemma_edit_keeps_targets_unique(self@.timers, timer@);
            }
        }
        let statement = if has_timer_for(&self.timers, &timer) {
            QueryType::UPDATE
        } else {
            QueryType::INSERT
        };
        self.timers = with_timer_inserted(&self.timers, &timer);
        statement
    }

    /// Removes every timer for the target of `timer`. The target is left
    /// without a timer, and a list with one timer for each target stays so.
    pub fn delete_timer(&mut self, timer: Timer)
        ensures
            final(self)@ == (ContextView {
                timers: timers_with_deleted(old(self)@.timers, timer@),
                ..old(self)@
            }),
            !has_target(final(self)@.timers, timer@),
            unique_targets(old(self)@.timers) ==> unique_targets(final(self)@.timers),
    {
        proof {
            lemma_deleted_has_no_target(self@.timers, timer@);
            if unique_targets(self@.timers) {
                lemma_edit_keeps_targets_unique(self@.timers, timer@);
            }
        }
        self.timers = with_timer_deleted(&self.timers, &timer);
    }

    /// Puts `timer` in the place of every timer for its target. A list with
    /// one timer for each target stays so.
    pub fn update_timer(&mut self, timer: Timer)
        ensures
            final(self)@ == (ContextView {
                timers: timers_with_updated(old(self)@.timers, timer@),
                ..old(self)@
            }),
            unique_targets(old(self)@.timers) ==> unique_targets(final(self)@.timers),
    {
        proof {
            if unique_targets(self@.timers) {
                lemma_edit_keeps_targets_unique(self@.timers, timer@);
            }
        }
        self.timers = with_timer_updated(&self.timers, &timer);
    }
}

/// Locking and unlocking. An unlocked session is locked by a password and
/// the submission returns `false`. The same password then unlocks it: the
/// submission returns `true`. A password with another digest does not: the
/// submission returns `false`, and the session stays locked as it was.
pub proof fn lemma_lock_round_trip(password: Seq<char>, other: Seq<char>)
    ensures
        ({
            let digest = password_digest_of(password);
            let locked = password_after(None, digest);
            &&& !submission_unlocks(None, digest)
            &&& locked is Some
            &&& submission_unlocks(locked, digest)
            &&& password_after(locked, digest) is None
            &&& password_digest_of(other) != digest ==> {
                &&& !submission_unlocks(locked, password_digest_of(other))
                &&& password_after(locked, password_digest_of(other)) == locked
            }
        }),
{
}

} // verus!
