//! The reactions of the daemon's event loop: what an event, a signal of
//! the system or an alarm does to the state, and what the loop has to
//! store, announce, close and schedule in return.
//!
//! The loop itself waits on the bus, on signals and on alarms, and is not
//! here. It hands each input to [`Scheduler::step`], carries out the
//! reaction, and starts or stops the expiry timer as the reaction says.

use vstd::prelude::*;
use vstd::string::StringExecFns;
use crate::accounting::lemma_durations_with_all_never_decrease;
use crate::classify::{
    block_reason_on, display_name_action, display_name_action_on, display_name_block_reason,
    BlockReason, DisplayNameAction,
};
use crate::clock::{
    elapsed_seconds, elapsed_seconds_of, local_today, utc_now, LocalDay, Timestamp,
};
use crate::context::{
    change_view, change_views, context_after_clear, context_after_event, context_after_midnight,
    context_after_reset, keyed_by_source, open_segments, segment_closed_by, ContextView,
    DaemonContext,
};
use crate::daemon::seconds_in;
use crate::dbus::{full_interface_name_of, object_path_of, DBus, Host, Interface};
use crate::event::{Event, EventType, EventView};
use crate::schema::{FocusChange, FocusChangeView};

verus! {

/// The number of events that the bus holds for the event loop. Once it is
/// full, the oldest events that were not received yet are dropped.
pub const CAPACITY: usize = 100;

/// The announcement of a closed segment to the daemon's subscribers.
#[derive(Debug, PartialEq, Eq)]
pub struct DurationChanged {
    /// The object path that emits the signal.
    pub path: String,
    /// The interface that the signal belongs to.
    pub interface: String,
    /// The name of the signal.
    pub member: String,
    /// The closed segment.
    pub change: FocusChange,
}

/// The mathematical value of a [`DurationChanged`].
pub struct DurationChangedView {
    pub path: Seq<char>,
    pub interface: Seq<char>,
    pub member: Seq<char>,
    pub change: FocusChangeView,
}

impl View for DurationChanged {
    type V = DurationChangedView;

    open spec fn view(&self) -> DurationChangedView {
        DurationChangedView {
            path: self.path@,
            interface: self.interface@,
            member: self.member@,
            change: self.change@,
        }
    }
}

/// The announcement of a closed segment, if one was closed: the signal
/// `DurationChanged` of the daemon's context interface.
pub open spec fn announcement_of(change: Option<FocusChangeView>) -> Option<DurationChangedView> {
    match change {
        Some(change) => Some(
            DurationChangedView {
                path: object_path_of(Host::UserDaemon, Interface::DaemonContext),
                interface: full_interface_name_of(Interface::DaemonContext),
                member: "DurationChanged"@,
                change,
            },
        ),
        None => None,
    }
}

/// The value of an optional announcement.
pub open spec fn announcement_view(signal: Option<DurationChanged>) -> Option<DurationChangedView> {
    match signal {
        Some(signal) => Some(signal@),
        None => None,
    }
}

/// Wraps a closed segment into the signal that announces it.
pub fn announce(change: Option<FocusChange>) -> (signal: Option<DurationChanged>)
    ensures
        announcement_view(signal) == announcement_of(change_view(change)),
{
    match change {
        Some(change) => Some(
            DurationChanged {
                path: DBus::object_path(&Host::UserDaemon, &Interface::DaemonContext),
                interface: DBus::interface_name(&Interface::DaemonContext),
                member: String::from_str("DurationChanged"),
                change,
            },
        ),
        None => None,
    }
}

/// Accounts for `event` at the moment `now` and returns the signal that
/// tells the subscribers of the segment it closed, if it closed one.
pub fn emit_focus_change_at(
    context: &mut DaemonContext,
    now: Timestamp,
    event: Event,
    set_last_event: bool,
) -> (signal: Option<DurationChanged>)
    ensures
        announcement_view(signal) == announcement_of(
            segment_closed_by(old(context)@.last_event, event@.source, now as int),
        ),
        final(context)@ == context_after_event(old(context)@, now as int, event@, set_last_event),
{
    let change = context.update_event_durations_at(now, &event, set_last_event);
    announce(change)
}

/// Accounts for `event` at the present moment, read from the system clock,
/// and returns the signal that tells the subscribers of the segment it
/// closed, if it closed one.
pub fn emit_focus_change(
    context: &mut DaemonContext,
    event: Event,
    set_last_event: bool,
) -> (signal: Option<DurationChanged>)
    ensures
        exists|now: int|
            {
                &&& announcement_view(signal) == announcement_of(
                    #[trigger] segment_closed_by(old(context)@.last_event, event@.source, now),
                )
                &&& final(context)@ == context_after_event(
                    old(context)@,
                    now,
                    event@,
                    set_last_event,
                )
            },
{
    let now = utc_now();
    let signal = emit_focus_change_at(context, now, event, set_last_event);
    assert(announcement_view(signal) == announcement_of(
        segment_closed_by(old(context)@.last_event, event@.source, now as int),
    ));
    signal
}

/// The one deferred close that the daemon may have pending: the target of
/// `event` is to be closed once `timeout` seconds have passed since
/// `since`, unless another event arrives first.
#[derive(Debug, PartialEq, Eq)]
pub struct PendingBlock {
    pub event: Event,
    pub timeout: u32,
    pub since: Timestamp,
}

/// The mathematical value of a [`PendingBlock`].
pub struct PendingBlockView {
    pub event: EventView,
    pub timeout: u32,
    pub since: int,
}

impl View for PendingBlock {
    type V = PendingBlockView;

    open spec fn view(&self) -> PendingBlockView {
        PendingBlockView { event: self.event@, timeout: self.timeout, since: self.since as int }
    }
}

impl PendingBlockView {
    /// Whether the deferred close is due at `now`.
    pub open spec fn due_at(self, now: int) -> bool {
        elapsed_seconds_of(self.since, now) >= self.timeout
    }
}

/// The value of an optional deferred close.
pub open spec fn pending_view(pending: Option<PendingBlock>) -> Option<PendingBlockView> {
    match pending {
        Some(pending) => Some(pending@),
        None => None,
    }
}

/// What the event loop has to do after an event was handled.
#[derive(Debug, PartialEq, Eq)]
pub struct EventOutcome {
    /// The segment that the event closed: to be stored and announced.
    pub change: Option<FocusChange>,
    /// What to do about the event's target. `Block`: ask the watcher to
    /// close it now. `Time`: ask once the seconds have passed, unless
    /// another event arrives first. `Ignore`: nothing.
    pub action: DisplayNameAction,
    /// Why the target is closed now, where the action is `Block`.
    pub reason: Option<BlockReason>,
}

/// The mathematical value of an [`EventOutcome`].
pub struct EventOutcomeView {
    pub change: Option<FocusChangeView>,
    pub action: DisplayNameAction,
    pub reason: Option<BlockReason>,
}

impl View for EventOutcome {
    type V = EventOutcomeView;

    open spec fn view(&self) -> EventOutcomeView {
        EventOutcomeView {
            change: change_view(self.change),
            action: self.action,
            reason: self.reason,
        }
    }
}

/// The mathematical value of a [`Scheduler`].
pub struct SchedulerView {
    pub context: ContextView,
    pub timer_task: Option<PendingBlockView>,
}

/// What the daemon does about the target of `event` in the state
/// `context`, on a day of the week counted from Monday: a focus change is
/// decided by the timers; any other event asks for nothing.
pub open spec fn event_action(
    context: ContextView,
    event: EventView,
    weekday: int,
) -> DisplayNameAction {
    match event.event_type {
        EventType::FocusChange => display_name_action(
            context.timers,
            context.durations,
            event.source,
            event.display_name,
            weekday,
        ),
        _ => DisplayNameAction::Ignore,
    }
}

/// Why the target of `event` is closed at once, if it is.
pub open spec fn event_block_reason(context: ContextView, event: EventView, weekday: int) -> Option<
    BlockReason,
> {
    match event.event_type {
        EventType::FocusChange => display_name_block_reason(
            context.timers,
            context.durations,
            event.source,
            event.display_name,
            weekday,
        ),
        _ => None,
    }
}

/// Whether `event` is accounted for: a focus change that is not blocked,
/// and every loss of focus.
pub open spec fn event_is_tracked(context: ContextView, event: EventView, weekday: int) -> bool {
    match event.event_type {
        EventType::FocusChange => event_action(context, event, weekday) != DisplayNameAction::Block,
        EventType::FocusLost => true,
        EventType::AFK => false,
    }
}

/// The outcome of handling `event` at `now` on the day `today`.
pub open spec fn outcome_of_event(
    scheduler: SchedulerView,
    event: EventView,
    now: int,
    today: LocalDay,
) -> EventOutcomeView {
    let context = context_after_reset(scheduler.context, today.date as int);
    EventOutcomeView {
        change: if event_is_tracked(context, event, today.weekday as int) {
            segment_closed_by(context.last_event, event.source, now)
        } else {
            None
        },
        action: event_action(context, event, today.weekday as int),
        reason: event_block_reason(context, event, today.weekday as int),
    }
}

/// The state after `event` was handled at `now` on the day `today`. The
/// pending close is dropped whatever the event is. On a new day the
/// durations and sessions are dropped first. A tracked event is accounted
/// for: a focus change opens a session, a loss of focus closes the one of
/// its source. A focus change with time left leaves a close pending.
pub open spec fn scheduler_after_event(
    scheduler: SchedulerView,
    event: EventView,
    now: int,
    today: LocalDay,
) -> SchedulerView {
    let context = context_after_reset(scheduler.context, today.date as int);
    SchedulerView {
        context: if event_is_tracked(context, event, today.weekday as int) {
            context_after_event(context, now, event, event.event_type == EventType::FocusChange)
        } else {
            context
        },
        timer_task: match event_action(context, event, today.weekday as int) {
            DisplayNameAction::Time(remaining) => Some(
                PendingBlockView { event, timeout: remaining, since: now },
            ),
            _ => None,
        },
    }
}

/// The state after the expiry timer was looked at, at `now`: a pending
/// close that is due is taken out.
pub open spec fn scheduler_after_expiry(scheduler: SchedulerView, now: int) -> SchedulerView {
    match scheduler.timer_task {
        Some(pending) if pending.due_at(now) => SchedulerView { timer_task: None, ..scheduler },
        _ => scheduler,
    }
}

/// The event whose target is to be closed when the expiry timer is looked
/// at, at `now`: the one of the pending close, if it is due.
pub open spec fn expired_event(scheduler: SchedulerView, now: int) -> Option<EventView> {
    match scheduler.timer_task {
        Some(pending) if pending.due_at(now) => Some(pending.event),
        _ => None,
    }
}

/// The value of an optional event.
pub open spec fn event_view(event: Option<Event>) -> Option<EventView> {
    match event {
        Some(event) => Some(event@),
        None => None,
    }
}

/// The state of the event loop: the daemon's context and the one deferred
/// close that may be pending.
#[derive(Debug)]
pub struct Scheduler {
    pub context: DaemonContext,
    pub timer_task: Option<PendingBlock>,
}

impl View for Scheduler {
    type V = SchedulerView;

    open spec fn view(&self) -> SchedulerView {
        SchedulerView { context: self.context@, timer_task: pending_view(self.timer_task) }
    }
}

impl Scheduler {
    /// The event loop's state at start-up: nothing is pending.
    pub fn new(context: DaemonContext) -> (scheduler: Self)
        ensures
            scheduler@ == (SchedulerView { context: context@, timer_task: None }),
    {
        Scheduler { context, timer_task: None }
    }

    /// Handles an event that arrived at the moment `now` on the local day
    /// `today`. Any pending close is dropped first. The outcome tells the
    /// loop what to store, announce and send.
    pub fn handle_event_at(&mut self, event: Event, now: Timestamp, today: LocalDay) -> (outcome:
        EventOutcome)
        ensures
            outcome@ == outcome_of_event(old(self)@, event@, now as int, today),
            final(self)@ == scheduler_after_event(old(self)@, event@, now as int, today),
    {
        self.timer_task = None;
        self.context.reset_daily_state_on(today);
        match event.event_type {
            EventType::FocusChange => {
                let action = display_name_action_on(
                    &self.context,
                    &event.source,
                    &event.display_name,
                    today.weekday,
                );
                match action {
                    DisplayNameAction::Time(remaining) => {
                        let change = self.context.update_event_durations_at(now, &event, true);
                        self.timer_task = Some(
                            PendingBlock { event, timeout: remaining, since: now },
                        );
                        EventOutcome { change, action, reason: None }
                    },
                    DisplayNameAction::Block => {
                        let reason = block_reason_on(
                            &self.context,
                            &event.source,
                            &event.display_name,
                            today.weekday,
                        );
                        EventOutcome { change: None, action, reason }
                    },
                    DisplayNameAction::Ignore => {
                        let change = self.context.update_event_durations_at(now, &event, true);
                        EventOutcome { change, action, reason: None }
                    },
                }
            },
            EventType::FocusLost => {
                let change = self.context.update_event_durations_at(now, &event, false);
                EventOutcome { change, action: DisplayNameAction::Ignore, reason: None }
            },
            EventType::AFK => EventOutcome {
                change: None,
                action: DisplayNameAction::Ignore,
                reason: None,
            },
        }
    }

    /// Handles an event that arrives now, by the system clock and the
    /// machine's time zone.
    pub fn handle_event(&mut self, event: Event) -> (outcome: EventOutcome)
        ensures
            exists|now: int, today: LocalDay|
                {
                    &&& outcome@ == #[trigger] outcome_of_event(old(self)@, event@, now, today)
                    &&& final(self)@ == scheduler_after_event(old(self)@, event@, now, today)
                },
    {
        let today = local_today();
        let now = utc_now();
        let outcome = self.handle_event_at(event, now, today);
        assert(outcome@ == outcome_of_event(old(self)@, event@, now as int, today));
        outcome
    }

    /// Looks at the expiry timer at the moment `now`. Where a close is
    /// pending and due, it is taken out and its event is returned: the
    /// loop then asks the watcher to close that event's target.
    pub fn timer_expired_at(&mut self, now: Timestamp) -> (event: Option<Event>)
        ensures
            event_view(event) == expired_event(old(self)@, now as int),
            final(self)@ == scheduler_after_expiry(old(self)@, now as int),
    {
        let due = match &self.timer_task {
            Some(pending) => elapsed_seconds(pending.since, now) >= pending.timeout,
            None => false,
        };
        if due {
            let mut taken: Option<PendingBlock> = None;
            core::mem::swap(&mut self.timer_task, &mut taken);
            match taken {
                Some(pending) => Some(pending.event),
                None => None,
            }
        } else {
            None
        }
    }

    /// Looks at the expiry timer at the present moment, read from the
    /// system clock.
    pub fn timer_expired(&mut self) -> (event: Option<Event>)
        ensures
            exists|now: int|
                {
                    &&& event_view(event) == #[trigger] expired_event(old(self)@, now)
                    &&& final(self)@ == scheduler_after_expiry(old(self)@, now)
                },
    {
        let now = utc_now();
        let event = self.timer_expired_at(now);
        assert(event_view(event) == expired_event(old(self)@, now as int));
        event
    }
}

/// What the task that waits for the expiry of an event's timer has to do.
#[derive(Debug, PartialEq, Eq)]
pub enum ExpiryStep {
    /// The close is due: it was taken out, and the watcher is to be asked
    /// to close the target of this event.
    Close(Event),
    /// The close is still pending for the event and not due yet: the task
    /// waits so many seconds more and asks again.
    Wait(u32),
    /// No close is pending for the event any more: the task ends.
    Dropped,
}

/// The mathematical value of an [`ExpiryStep`].
pub enum ExpiryStepView {
    Close(EventView),
    Wait(u32),
    Dropped,
}

impl View for ExpiryStep {
    type V = ExpiryStepView;

    open spec fn view(&self) -> ExpiryStepView {
        match self {
            ExpiryStep::Close(event) => ExpiryStepView::Close(event@),
            ExpiryStep::Wait(seconds) => ExpiryStepView::Wait(*seconds),
            ExpiryStep::Dropped => ExpiryStepView::Dropped,
        }
    }
}

/// Whether the pending close is the one that was left for `event`.
pub open spec fn pending_for(scheduler: SchedulerView, event: EventView) -> bool {
    scheduler.timer_task matches Some(pending) && pending.event == event
}

/// What the task that waits for the timer of `event` has to do at `now`:
/// close the target where the close is pending for the event and due, wait
/// for the rest of the timer where it is pending and not due, and end where
/// another event has taken its place.
pub open spec fn expiry_step_of(
    scheduler: SchedulerView,
    event: EventView,
    now: int,
) -> ExpiryStepView {
    if !pending_for(scheduler, event) {
        ExpiryStepView::Dropped
    } else if scheduler.timer_task->0.due_at(now) {
        ExpiryStepView::Close(event)
    } else {
        ExpiryStepView::Wait(
            (scheduler.timer_task->0.timeout - elapsed_seconds_of(
                scheduler.timer_task->0.since,
                now,
            )) as u32,
        )
    }
}

/// The state after the task that waits for the timer of `event` has asked
/// at `now`: the close is taken out where it is pending for the event and
/// due, and nothing changes otherwise.
pub open spec fn scheduler_after_expiry_step(
    scheduler: SchedulerView,
    event: EventView,
    now: int,
) -> SchedulerView {
    if pending_for(scheduler, event) {
        scheduler_after_expiry(scheduler, now)
    } else {
        scheduler
    }
}

impl Scheduler {
    /// Tells the task that waits for the timer of `event` what to do at
    /// the moment `now`. The close is taken out only by the task of the
    /// event that left it pending; a wait is never for less than a second.
    pub fn expiry_step_at(&mut self, event: &Event, now: Timestamp) -> (step: ExpiryStep)
        ensures
            step@ == expiry_step_of(old(self)@, event@, now as int),
            final(self)@ == scheduler_after_expiry_step(old(self)@, event@, now as int),
            step matches ExpiryStep::Wait(seconds) ==> seconds >= 1,
    {
        let rest = match &self.timer_task {
            Some(pending) => if pending.event.same_as(event) {
                let passed = elapsed_seconds(pending.since, now);
                if passed >= pending.timeout {
                    Some(0u32)
                } else {
                    Some(pending.timeout - passed)
                }
            } else {
                None
            },
            None => None,
        };
        match rest {
            None => ExpiryStep::Dropped,
            Some(0) => match self.timer_expired_at(now) {
                Some(due) => ExpiryStep::Close(due),
                None => ExpiryStep::Dropped,
            },
            Some(seconds) => ExpiryStep::Wait(seconds),
        }
    }

    /// Tells the task that waits for the timer of `event` what to do now,
    /// by the system clock.
    pub fn expiry_step(&mut self, event: &Event) -> (step: ExpiryStep)
        ensures
            exists|now: int|
                {
                    &&& step@ == #[trigger] expiry_step_of(old(self)@, event@, now)
                    &&& final(self)@ == scheduler_after_expiry_step(old(self)@, event@, now)
                },
    {
        let now = utc_now();
        let step = self.expiry_step_at(event, now);
        assert(step@ == expiry_step_of(old(self)@, event@, now as int));
        step
    }
}

/// What the event loop wakes up for.
#[derive(Debug, PartialEq, Eq)]
pub enum LoopInput {
    /// An event arrived on the bus.
    Event(Event),
    /// The machine is about to sleep (`true`) or has just resumed
    /// (`false`).
    PrepareForSleep(bool),
    /// The screen saver came on (`true`) or went off (`false`).
    ScreenSaverActive(bool),
    /// The alarm for local midnight went off.
    Midnight,
    /// The half-second tick, with whether the daemon was asked to
    /// terminate.
    Tick(bool),
}

/// The mathematical value of a [`LoopInput`].
pub enum LoopInputView {
    Event(EventView),
    PrepareForSleep(bool),
    ScreenSaverActive(bool),
    Midnight,
    Tick(bool),
}

impl View for LoopInput {
    type V = LoopInputView;

    open spec fn view(&self) -> LoopInputView {
        match self {
            LoopInput::Event(event) => LoopInputView::Event(event@),
            LoopInput::PrepareForSleep(start) => LoopInputView::PrepareForSleep(*start),
            LoopInput::ScreenSaverActive(active) => LoopInputView::ScreenSaverActive(*active),
            LoopInput::Midnight => LoopInputView::Midnight,
            LoopInput::Tick(shutdown) => LoopInputView::Tick(*shutdown),
        }
    }
}

/// What the event loop has to do after one input.
#[derive(Debug, PartialEq, Eq)]
pub struct Reaction {
    /// The segments that were closed, to be appended to the store in this
    /// order.
    pub store: Vec<FocusChange>,
    /// Whether the stored segment is announced to the subscribers.
    pub announce: bool,
    /// Whether the running expiry timer is stopped before anything else.
    pub cancel_timer: bool,
    /// What to do about the target of an event. `Block`: ask the watcher
    /// to close it now. `Time`: start the expiry timer for so many
    /// seconds. `Ignore`: nothing.
    pub action: DisplayNameAction,
    /// Why the target is closed now, where the action is `Block`.
    pub reason: Option<BlockReason>,
    /// Whether the alarm is set for the next local midnight.
    pub rearm_midnight: bool,
    /// Whether the loop ends.
    pub stop: bool,
}

/// The mathematical value of a [`Reaction`].
pub struct ReactionView {
    pub store: Seq<FocusChangeView>,
    pub announce: bool,
    pub cancel_timer: bool,
    pub action: DisplayNameAction,
    pub reason: Option<BlockReason>,
    pub rearm_midnight: bool,
    pub stop: bool,
}

impl View for Reaction {
    type V = ReactionView;

    open spec fn view(&self) -> ReactionView {
        ReactionView {
            store: change_views(self.store@),
            announce: self.announce,
            cancel_timer: self.cancel_timer,
            action: self.action,
            reason: self.reason,
            rearm_midnight: self.rearm_midnight,
            stop: self.stop,
        }
    }
}

/// The reaction that asks for nothing.
pub open spec fn no_reaction() -> ReactionView {
    ReactionView {
        store: Seq::empty(),
        announce: false,
        cancel_timer: false,
        action: DisplayNameAction::Ignore,
        reason: None,
        rearm_midnight: false,
        stop: false,
    }
}

/// A closed segment as a sequence: empty where none was closed.
pub open spec fn segment_seq(change: Option<FocusChangeView>) -> Seq<FocusChangeView> {
    match change {
        Some(change) => seq![change],
        None => Seq::empty(),
    }
}

/// The reaction to one input at `now` on the local day `today`.
///
/// An event stops the expiry timer, and its outcome is stored, announced
/// and acted upon. Sleep, resumption and the screen saver close every
/// session; midnight splits every session and sets the alarm anew. The
/// closed segments of both are stored and not announced, and the expiry
/// timer goes on. A tick ends the loop if termination was asked for.
pub open spec fn reaction_to(
    scheduler: SchedulerView,
    input: LoopInputView,
    now: int,
    today: LocalDay,
) -> ReactionView {
    match input {
        LoopInputView::Event(event) => {
            let outcome = outcome_of_event(scheduler, event, now, today);
            ReactionView {
                store: segment_seq(outcome.change),
                announce: outcome.change is Some,
                cancel_timer: true,
                action: outcome.action,
                reason: outcome.reason,
                ..no_reaction()
            }
        },
        LoopInputView::PrepareForSleep(_) | LoopInputView::ScreenSaverActive(_) => ReactionView {
            store: open_segments(scheduler.context.last_event, now),
            ..no_reaction()
        },
        LoopInputView::Midnight => ReactionView {
            store: open_segments(scheduler.context.last_event, now),
            rearm_midnight: true,
            ..no_reaction()
        },
        LoopInputView::Tick(shutdown) => ReactionView { stop: shutdown, ..no_reaction() },
    }
}

/// The state after one input at `now` on the local day `today`. Only an
/// event touches the pending close.
pub open spec fn scheduler_after_input(
    scheduler: SchedulerView,
    input: LoopInputView,
    now: int,
    today: LocalDay,
) -> SchedulerView {
    match input {
        LoopInputView::Event(event) => scheduler_after_event(scheduler, event, now, today),
        LoopInputView::PrepareForSleep(_) | LoopInputView::ScreenSaverActive(_) => SchedulerView {
            context: context_after_clear(scheduler.context, now),
            ..scheduler
        },
        LoopInputView::Midnight => SchedulerView {
            context: context_after_midnight(scheduler.context, now),
            ..scheduler
        },
        LoopInputView::Tick(_) => scheduler,
    }
}

impl Scheduler {
    /// Takes one input of the event loop at the moment `now` on the local
    /// day `today`, and returns what the loop has to do.
    pub fn step_at(&mut self, input: LoopInput, now: Timestamp, today: LocalDay) -> (reaction:
        Reaction)
        ensures
            reaction@ == reaction_to(old(self)@, input@, now as int, today),
            final(self)@ == scheduler_after_input(old(self)@, input@, now as int, today),
    {
        match input {
            LoopInput::Event(event) => {
                let outcome = self.handle_event_at(event, now, today);
                let announce = outcome.change.is_some();
                let mut store: Vec<FocusChange> = Vec::new();
                match outcome.change {
                    Some(change) => {
                        store.push(change);
                        assert(change_views(store@) =~= seq![change@]);
                    },
                    None => {
                        assert(change_views(store@) =~= Seq::<FocusChangeView>::empty());
                    },
                }
                Reaction {
                    store,
                    announce,
                    cancel_timer: true,
                    action: outcome.action,
                    reason: outcome.reason,
                    rearm_midnight: false,
                    stop: false,
                }
            },
            LoopInput::PrepareForSleep(_) => {
                let store = self.context.clear_last_event_at(now);
                quiet_reaction(store, false, false)
            },
            LoopInput::ScreenSaverActive(_) => {
                let store = self.context.clear_last_event_at(now);
                quiet_reaction(store, false, false)
            },
            LoopInput::Midnight => {
                let store = self.context.split_sessions_at(now);
                quiet_reaction(store, true, false)
            },
            LoopInput::Tick(shutdown) => {
                let store: Vec<FocusChange> = Vec::new();
                assert(change_views(store@) =~= Seq::<FocusChangeView>::empty());
                quiet_reaction(store, false, shutdown)
            },
        }
    }

    /// Takes one input of the event loop now, by the system clock and the
    /// machine's time zone.
    pub fn step(&mut self, input: LoopInput) -> (reaction: Reaction)
        ensures
            exists|now: int, today: LocalDay|
                {
                    &&& reaction@ == #[trigger] reaction_to(old(self)@, input@, now, today)
                    &&& final(self)@ == scheduler_after_input(old(self)@, input@, now, today)
                },
    {
        let today = local_today();
        let now = utc_now();
        let reaction = self.step_at(input, now, today);
        assert(reaction@ == reaction_to(old(self)@, input@, now as int, today));
        reaction
    }
}

/// The reaction to an input that is no event: segments to store, and
/// nothing to announce or to close.
fn quiet_reaction(store: Vec<FocusChange>, rearm_midnight: bool, stop: bool) -> (reaction: Reaction)
    ensures
        reaction@ == (ReactionView {
            store: change_views(store@),
            rearm_midnight,
            stop,
            ..no_reaction()
        }),
{
    Reaction {
        store,
        announce: false,
        cancel_timer: false,
        action: DisplayNameAction::Ignore,
        reason: None,
        rearm_midnight,
        stop,
    }
}

/// The task of an event closes only the target of that event, and only
/// while the close that the event left is still pending: once another event
/// was handled, the task of the first is told to end, whatever the moment,
/// unless the second event holds the same as the first.
pub proof fn lemma_expiry_is_of_own_event(
    scheduler: SchedulerView,
    first: EventView,
    second: EventView,
    second_at: int,
    second_day: LocalDay,
    later: int,
)
    ensures
        ({
            let after = scheduler_after_event(scheduler, second, second_at, second_day);
            &&& expiry_step_of(after, first, later) matches ExpiryStepView::Close(event) ==> event
                == first && first == second
            &&& first != second ==> expiry_step_of(after, first, later) is Dropped
            &&& first != second ==> scheduler_after_expiry_step(after, first, later) == after
        }),
{
}

/// After an event was handled, the only close that can be pending is the
/// one for that event, counted from the moment of that event.
pub proof fn lemma_pending_is_of_last_event(
    scheduler: SchedulerView,
    event: EventView,
    now: int,
    today: LocalDay,
)
    ensures
        scheduler_after_event(scheduler, event, now, today).timer_task matches Some(pending) ==> {
            &&& pending.event == event
            &&& pending.since == now
        },
{
}

/// An event that arrives before a pending close is due cancels it. Where a
/// second event is handled after a first, whatever the first left pending
/// is gone: when the expiry timer is looked at afterwards, at any moment,
/// the only target that can be closed is the one of the second event. And
/// as long as a pending close is not due, looking at the timer closes
/// nothing and leaves the state as it is.
pub proof fn lemma_later_event_cancels(
    scheduler: SchedulerView,
    first: EventView,
    first_at: int,
    first_day: LocalDay,
    second: EventView,
    second_at: int,
    second_day: LocalDay,
    later: int,
)
    ensures
        ({
            let after_first = scheduler_after_event(scheduler, first, first_at, first_day);
            let after_second = scheduler_after_event(after_first, second, second_at, second_day);
            &&& expired_event(after_second, later) matches Some(event) ==> event == second
            &&& after_second.timer_task matches Some(pending) ==> pending.since == second_at
            &&& forall|early: int|
                after_first.timer_task matches Some(pending) && !pending.due_at(early) ==> {
                    &&& #[trigger] expired_event(after_first, early) is None
                    &&& scheduler_after_expiry(after_first, early) == after_first
                }
        }),
{
}

/// Only an event stops the expiry timer. Sleep, resumption, the screen
/// saver, midnight and the tick leave the pending close as it is and do not
/// ask for the timer to be stopped; an event always asks for it.
pub proof fn lemma_only_events_cancel(
    scheduler: SchedulerView,
    input: LoopInputView,
    now: int,
    today: LocalDay,
)
    ensures
        reaction_to(scheduler, input, now, today).cancel_timer == (input is Event),
        !(input is Event) ==> scheduler_after_input(scheduler, input, now, today).timer_task
            == scheduler.timer_task,
{
}

/// The date of the state is the local date of the last event that was
/// handled.
pub proof fn lemma_date_follows_events(
    scheduler: SchedulerView,
    event: EventView,
    now: int,
    today: LocalDay,
)
    ensures
        scheduler_after_event(scheduler, event, now, today).context.cur_date == today.date,
{
}

/// Every session stays under the source of its event, whatever the loop
/// wakes up for.
pub proof fn lemma_inputs_keep_sessions_keyed(
    scheduler: SchedulerView,
    input: LoopInputView,
    now: int,
    today: LocalDay,
)
    requires
        keyed_by_source(scheduler.context.last_event),
    ensures
        keyed_by_source(scheduler_after_input(scheduler, input, now, today).context.last_event),
{
}

/// Within a local day no total falls, whatever the loop wakes up for.
pub proof fn lemma_inputs_never_decrease_durations(
    scheduler: SchedulerView,
    input: LoopInputView,
    now: int,
    today: LocalDay,
    host: Host,
    display_name: Seq<char>,
)
    requires
        today.date == scheduler.context.cur_date,
    ensures
        seconds_in(
            scheduler_after_input(scheduler, input, now, today).context.durations,
            host,
            display_name,
        ) >= seconds_in(scheduler.context.durations, host, display_name),
{
    lemma_durations_with_all_never_decrease(
        scheduler.context.durations,
        open_segments(scheduler.context.last_event, now),
        host,
        display_name,
    );
}

} // verus!
