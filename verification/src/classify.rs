//! The decision about a target that comes into focus: whether it is left
//! alone, closed when its budget runs out, or closed at once.

use vstd::prelude::*;
use crate::clock::{day_index, day_index_of, local_today};
use crate::context::DaemonContext;
use crate::daemon::seconds_in;
use crate::dbus::Host;
use crate::schema::{timer_views, Timer, TimerView};

verus! {

/// What the daemon does about a target that came into focus.
#[derive(Clone, Copy, Debug, PartialEq, Eq, Structural)]
pub enum DisplayNameAction {
    /// Close the given display name.
    Block,
    /// Set a timer for `u32` seconds.
    Time(u32),
    /// Track the time, but perform no actions.
    Ignore,
}

/// Why a target is closed.
#[derive(Clone, Copy, Debug, PartialEq, Eq, Structural)]
pub enum BlockReason {
    /// The timer allows no time on this day of the week.
    DayNotAllowed,
    /// The timer allows the day, with a limit of zero seconds.
    ZeroLimit,
    /// The seconds accumulated today have reached the timer's limit.
    LimitReached,
}

/// The words for each reason, as they are written to the log.
pub open spec fn reason_text_of(reason: BlockReason) -> Seq<char> {
    match reason {
        BlockReason::DayNotAllowed => "the timer is disabled today"@,
        BlockReason::ZeroLimit => "timer is allotted 0 seconds"@,
        BlockReason::LimitReached => "current duration has reached the limit"@,
    }
}

impl BlockReason {
    /// The reason in words, for the log.
    pub fn as_str(&self) -> (text: &'static str)
        ensures
            text@ == reason_text_of(*self),
    {
        match self {
            BlockReason::DayNotAllowed => "the timer is disabled today",
            BlockReason::ZeroLimit => "timer is allotted 0 seconds",
            BlockReason::LimitReached => "current duration has reached the limit",
        }
    }
}

/// The first timer in the list with this display name.
pub open spec fn first_timer_named(timers: Seq<TimerView>, display_name: Seq<char>) -> Option<
    TimerView,
>
    decreases timers.len(),
{
    if timers.len() == 0 {
        None
    } else if timers.first().display_name == display_name {
        Some(timers.first())
    } else {
        first_timer_named(timers.drop_first(), display_name)
    }
}

/// Why a timer blocks its target on the day at position `day` of the week,
/// for a target that has accumulated `accumulated` seconds today: the day
/// is not allowed, the limit is zero, or the limit is reached. `None`
/// where the timer leaves time.
pub open spec fn timer_block_reason(timer: TimerView, accumulated: u32, day: int) -> Option<
    BlockReason,
> {
    if !timer.allowed_days[day] {
        Some(BlockReason::DayNotAllowed)
    } else if timer.time_limit == 0 {
        Some(BlockReason::ZeroLimit)
    } else if accumulated >= timer.time_limit {
        Some(BlockReason::LimitReached)
    } else {
        None
    }
}

/// What a timer asks for on the day at position `day` of the week, for a
/// target that has accumulated `accumulated` seconds today: the target is
/// blocked where the timer has a reason to block it; else it has the rest
/// of the limit left.
pub open spec fn timer_action(timer: TimerView, accumulated: u32, day: int) -> DisplayNameAction {
    match timer_block_reason(timer, accumulated, day) {
        Some(_) => DisplayNameAction::Block,
        None => DisplayNameAction::Time((timer.time_limit - accumulated) as u32),
    }
}

/// Why `display_name` is closed when it comes into focus at `host`: the
/// reason of the first timer with that display name. `None` where the
/// target is not closed at once.
pub open spec fn display_name_block_reason(
    timers: Seq<TimerView>,
    durations: Map<(Host, Seq<char>), u32>,
    host: Host,
    display_name: Seq<char>,
    weekday: int,
) -> Option<BlockReason> {
    match first_timer_named(timers, display_name) {
        Some(timer) => timer_block_reason(
            timer,
            seconds_in(durations, host, display_name),
            day_index_of(weekday),
        ),
        None => None,
    }
}

/// What the daemon does about `display_name` coming into focus at `host`
/// on a day of the week counted from Monday: the first timer with that
/// display name decides; without one the target is only tracked.
pub open spec fn display_name_action(
    timers: Seq<TimerView>,
    durations: Map<(Host, Seq<char>), u32>,
    host: Host,
    display_name: Seq<char>,
    weekday: int,
) -> DisplayNameAction {
    match first_timer_named(timers, display_name) {
        Some(timer) => timer_action(
            timer,
            seconds_in(durations, host, display_name),
            day_index_of(weekday),
        ),
        None => DisplayNameAction::Ignore,
    }
}

/// The first timer in the list with this display name.
fn find_timer<'a>(timers: &'a Vec<Timer>, display_name: &String) -> (found: Option<&'a Timer>)
    ensures
        match found {
            Some(timer) => first_timer_named(timer_views(timers@), display_name@) == Some(timer@),
            None => first_timer_named(timer_views(timers@), display_name@) is None,
        },
{
    let ghost views = timer_views(timers@);
    let mut i: usize = 0;
    assert(views.skip(0) =~= views);
    while i < timers.len()
        invariant
            i <= timers@.len(),
            views == timer_views(timers@),
            first_timer_named(views, display_name@) == first_timer_named(
                views.skip(i as int),
                display_name@,
            ),
        decreases timers@.len() - i,
    {
        assert(views.skip(i as int).first() == timers@[i as int]@);
        if timers[i].display_name == *display_name {
            return Some(&timers[i]);
        }
        assert(views.skip(i as int).drop_first() =~= views.skip(i + 1));
        i += 1;
    }
    None
}

/// Why `timer` blocks a target that has accumulated `accumulated` seconds
/// today, on the day at position `day` of the timer's week.
fn block_reason_of(timer: &Timer, accumulated: u32, day: usize) -> (reason: Option<BlockReason>)
    requires
        day < 7,
    ensures
        reason == timer_block_reason(timer@, accumulated, day as int),
{
    if !timer.allowed_days[day] {
        Some(BlockReason::DayNotAllowed)
    } else if timer.time_limit == 0 {
        Some(BlockReason::ZeroLimit)
    } else if accumulated >= timer.time_limit {
        Some(BlockReason::LimitReached)
    } else {
        None
    }
}

/// Finds why `display_name` is closed when it comes into focus at `host`
/// on the given day of the week (counted from Monday), if it is.
pub fn block_reason_on(
    context: &DaemonContext,
    host: &Host,
    display_name: &String,
    weekday: u8,
) -> (reason: Option<BlockReason>)
    ensures
        reason == display_name_block_reason(
            context@.timers,
            context@.durations,
            *host,
            display_name@,
            weekday as int,
        ),
        reason is Some <==> display_name_action(
            context@.timers,
            context@.durations,
            *host,
            display_name@,
            weekday as int,
        ) == DisplayNameAction::Block,
{
    match find_timer(&context.timers, display_name) {
        Some(timer) => {
            let accumulated = context.timer_durations.seconds(*host, display_name);
            block_reason_of(timer, accumulated, day_index(weekday))
        },
        None => None,
    }
}

/// Decides what to do about `display_name` coming into focus at `host` on
/// the given day of the week (counted from Monday).
pub fn display_name_action_on(
    context: &DaemonContext,
    host: &Host,
    display_name: &String,
    weekday: u8,
) -> (action: DisplayNameAction)
    ensures
        action == display_name_action(
            context@.timers,
            context@.durations,
            *host,
            display_name@,
            weekday as int,
        ),
{
    match find_timer(&context.timers, display_name) {
        Some(timer) => {
            let accumulated = context.timer_durations.seconds(*host, display_name);
            match block_reason_of(timer, accumulated, day_index(weekday)) {
                Some(_) => DisplayNameAction::Block,
                None => DisplayNameAction::Time(timer.time_limit - accumulated),
            }
        },
        None => DisplayNameAction::Ignore,
    }
}

/// Decides what to do about `display_name` coming into focus at `host`
/// today, by the day of the week that the system clock gives.
pub fn is_display_name_blocked(
    context: &DaemonContext,
    host: &Host,
    display_name: &String,
) -> (action: DisplayNameAction)
    ensures
        exists|weekday: int|
            0 <= weekday < 7 && action == #[trigger] display_name_action(
                context@.timers,
                context@.durations,
                *host,
                display_name@,
                weekday,
            ),
{
    let today = local_today();
    let action = display_name_action_on(context, host, display_name, today.weekday);
    assert(action == display_name_action(
        context@.timers,
        context@.durations,
        *host,
        display_name@,
        today.weekday as int,
    ));
    action
}

} // verus!
