//! What the daemon writes to its store and reads back, as far as it is
//! computed: the bit mask of a timer's allowed days, the rows of the timer
//! table, the names of the statement files, the tables to create, and
//! today's durations as the sum of the stored segments of the local day.
//!
//! The store itself is not here. Whoever owns the connection binds these
//! values to its statements and hands the rows it reads to these functions.

use vstd::prelude::*;
use vstd::string::StringExecFns;
use crate::clock::{local_now, LocalMoment, Timestamp};
use crate::context::{
    change_views, context_after_event, durations_with_all, host_segment, segment_closed_by,
    ContextView,
};
use crate::daemon::{durations_of_rows, DurationEntryView, DurationMap};
use crate::dbus::{host_name_of, parse_host, Host};
use crate::event::EventView;
use crate::schema::{
    query_name_of, table_name_of, timer_views, AWTables, FocusChange, FocusChangeView, QueryType,
    Timer, TimerView,
};
use crate::text::lowercase_of;

verus! {

/// The value of bit `day` in the mask of allowed days.
pub open spec fn day_weight(day: int) -> int {
    if day == 0 {
        1
    } else if day == 1 {
        2
    } else if day == 2 {
        4
    } else if day == 3 {
        8
    } else if day == 4 {
        16
    } else if day == 5 {
        32
    } else {
        64
    }
}

/// The value of bit `day` as a byte.
pub open spec fn day_bit(day: u8) -> u8 {
    if day == 0 {
        1
    } else if day == 1 {
        2
    } else if day == 2 {
        4
    } else if day == 3 {
        8
    } else if day == 4 {
        16
    } else if day == 5 {
        32
    } else {
        64
    }
}

/// The mask of the first `count` days: the sum of the weights of the days
/// that are allowed.
pub open spec fn mask_of_first_days(days: Seq<bool>, count: int) -> int
    decreases count,
{
    if count <= 0 {
        0
    } else {
        mask_of_first_days(days, count - 1) + if days[count - 1] {
            day_weight(count - 1)
        } else {
            0
        }
    }
}

/// The bit mask that stands for seven flags: bit `i` is set if and only if
/// day `i` is allowed.
pub open spec fn mask_of_days(days: Seq<bool>) -> int {
    mask_of_first_days(days, 7)
}

/// Whether bit `day` is set in `mask`.
pub open spec fn mask_allows(mask: int, day: int) -> bool {
    (mask / day_weight(day)) % 2 == 1
}

/// The seven flags that a bit mask stands for.
pub open spec fn days_of_mask(mask: int) -> Seq<bool> {
    Seq::new(7, |day: int| mask_allows(mask, day))
}

/// Encodes the allowed days of a timer as a bit mask: bit `i` is set if and
/// only if day `i` is allowed.
pub fn encode_allowed_days(days: &[bool; 7]) -> (mask: u8)
    ensures
        mask == mask_of_days(days@),
        mask < 128,
{
    let mut mask: u8 = 0;
    let mut i: u8 = 0;
    while i < 7
        invariant
            i <= 7,
            mask == mask_of_first_days(days@, i as int),
            mask < day_weight(i as int) || i == 7 && mask < 128,
        decreases 7 - i,
    {
        if days[i as usize] {
            let bit: u8 = 1u8 << i;
            assert(bit == day_weight(i as int)) by {
                assert(i < 7 ==> (1u8 << i) == day_bit(i)) by (bit_vector);
            }
            assert((mask | bit) == mask + bit) by (bit_vector)
                requires
                    i < 7,
                    bit == 1u8 << i,
                    mask < bit,
            ;
            mask = mask | bit;
        }
        i += 1;
    }
    mask
}

/// Decodes the bit mask of a timer's allowed days: day `i` is allowed if
/// and only if bit `i` is set. The eighth bit carries no day.
pub fn decode_allowed_days(mask: u8) -> (days: [bool; 7])
    ensures
        days@ == days_of_mask(mask as int),
{
    let mut days: [bool; 7] = [false; 7];
    let mut i: u8 = 0;
    while i < 7
        invariant
            i <= 7,
            forall|day: int| 0 <= day < i ==> days@[day] == mask_allows(mask as int, day),
        decreases 7 - i,
    {
        let allowed = (mask & (1u8 << i)) != 0;
        assert(allowed == mask_allows(mask as int, i as int)) by {
            assert(i < 7 ==> ((mask & (1u8 << i)) != 0 <==> (mask / day_bit(i)) % 2 == 1))
                by (bit_vector);
        }
        days[i as usize] = allowed;
        i += 1;
    }
    assert(days@ =~= days_of_mask(mask as int));
    days
}

/// The mask of seven flags stands for the same seven flags again.
pub proof fn lemma_days_round_trip(days: Seq<bool>)
    requires
        days.len() == 7,
    ensures
        0 <= mask_of_days(days) < 128,
        days_of_mask(mask_of_days(days)) == days,
{
    reveal_with_fuel(mask_of_first_days, 8);
    let mask = mask_of_days(days);
    assert forall|day: int| 0 <= day < 7 implies mask_allows(mask, day) == days[day] by {
        lemma_days_bit(days, day);
    }
    assert(days_of_mask(mask) =~= days);
}

/// Bit `day` of the mask of seven flags is the flag of that day.
proof fn lemma_days_bit(days: Seq<bool>, day: int)
    requires
        days.len() == 7,
        0 <= day < 7,
    ensures
        0 <= mask_of_days(days) < 128,
        mask_allows(mask_of_days(days), day) == days[day],
{
    reveal_with_fuel(mask_of_first_days, 8);
}

/// What bit `day` adds to a byte: its weight if it is set.
spec fn bit_value(mask: u8, day: u8) -> u8 {
    if (mask / day_bit(day)) % 2 == 1 {
        day_bit(day)
    } else {
        0
    }
}

/// The flags of a mask give the mask back without its eighth bit.
pub proof fn lemma_mask_round_trip(mask: u8)
    ensures
        mask_of_days(days_of_mask(mask as int)) == mask % 128,
{
    reveal_with_fuel(mask_of_first_days, 8);
    let low = bit_value(mask, 0) + bit_value(mask, 1) + bit_value(mask, 2);
    let high = bit_value(mask, 3) + bit_value(mask, 4) + bit_value(mask, 5) + bit_value(mask, 6);
    assert(bit_value(mask, 0) + bit_value(mask, 1) + bit_value(mask, 2) + bit_value(mask, 3)
        + bit_value(mask, 4) + bit_value(mask, 5) + bit_value(mask, 6) == mask % 128)
        by (bit_vector);
    assert(mask_of_days(days_of_mask(mask as int)) == low + high);
}

/// A row of the timer table, in the order in which its values are bound to
/// a statement.
#[derive(Debug, PartialEq, Eq)]
pub struct TimerRow {
    pub display_name: String,
    /// The canonical name of the timer's host.
    pub host: String,
    pub time_limit: u32,
    /// The allowed days as a bit mask.
    pub allowed_days: u8,
}

/// The mathematical value of a [`TimerRow`].
pub struct TimerRowView {
    pub display_name: Seq<char>,
    pub host: Seq<char>,
    pub time_limit: u32,
    pub allowed_days: u8,
}

impl View for TimerRow {
    type V = TimerRowView;

    open spec fn view(&self) -> TimerRowView {
        TimerRowView {
            display_name: self.display_name@,
            host: self.host@,
            time_limit: self.time_limit,
            allowed_days: self.allowed_days,
        }
    }
}

/// The row that stores a timer.
pub open spec fn row_of_timer(timer: TimerView) -> TimerRowView {
    TimerRowView {
        display_name: timer.display_name,
        host: host_name_of(timer.host),
        time_limit: timer.time_limit,
        allowed_days: mask_of_days(timer.allowed_days) as u8,
    }
}

/// The timer that a row stores, given the lowercase form of the row's host
/// name; the message of the host's parser where the name is no host.
pub open spec fn timer_of_row(row: TimerRowView, lower_host: Seq<char>) -> Result<
    TimerView,
    Seq<char>,
> {
    match parse_host(row.host, lower_host) {
        Ok(host) => Ok(
            TimerView {
                display_name: row.display_name,
                host,
                time_limit: row.time_limit,
                allowed_days: days_of_mask(row.allowed_days as int),
            },
        ),
        Err(message) => Err(message),
    }
}

/// The value of the result of reading a timer from a row.
pub open spec fn timer_result_view(result: Result<Timer, String>) -> Result<TimerView, Seq<char>> {
    match result {
        Ok(timer) => Ok(timer@),
        Err(message) => Err(message@),
    }
}

/// The values that store `timer`: what is bound to the statement that
/// inserts, updates or deletes it.
pub fn timer_to_row(timer: &Timer) -> (row: TimerRow)
    ensures
        row@ == row_of_timer(timer@),
{
    TimerRow {
        display_name: timer.display_name.clone(),
        host: timer.host.to_string(),
        time_limit: timer.time_limit,
        allowed_days: encode_allowed_days(&timer.allowed_days),
    }
}

/// The timer that a row of the timer table stores. A row whose host name
/// is no host is rejected with the message of the host's parser.
pub fn timer_from_row(row: &TimerRow) -> (result: Result<Timer, String>)
    ensures
        timer_result_view(result) == timer_of_row(row@, lowercase_of(row@.host)),
{
    match Host::from_str(row.host.as_str()) {
        Ok(host) => Ok(
            Timer {
                display_name: row.display_name.clone(),
                host,
                time_limit: row.time_limit,
                allowed_days: decode_allowed_days(row.allowed_days),
            },
        ),
        Err(message) => Err(message),
    }
}

/// The views of a sequence of rows, in the same order.
pub open spec fn row_views(rows: Seq<TimerRow>) -> Seq<TimerRowView> {
    rows.map_values(|row: TimerRow| row@)
}

/// The timers that the rows of the timer table store, in the order of the
/// rows; the message for the first row whose host name is no host.
pub open spec fn timers_of_rows(rows: Seq<TimerRowView>) -> Result<Seq<TimerView>, Seq<char>>
    decreases rows.len(),
{
    if rows.len() == 0 {
        Ok(Seq::empty())
    } else {
        match timers_of_rows(rows.drop_last()) {
            Ok(timers) => match timer_of_row(rows.last(), lowercase_of(rows.last().host)) {
                Ok(timer) => Ok(timers.push(timer)),
                Err(message) => Err(message),
            },
            Err(message) => Err(message),
        }
    }
}

/// The value of the result of reading the timers.
pub open spec fn timers_result_view(result: Result<Vec<Timer>, String>) -> Result<
    Seq<TimerView>,
    Seq<char>,
> {
    match result {
        Ok(timers) => Ok(timer_views(timers@)),
        Err(message) => Err(message@),
    }
}

/// Reads the timers from the rows of the timer table, in the order of the
/// rows. The first row whose host name is no host rejects the whole
/// table, with the message of the host's parser.
pub fn select_timers(rows: &Vec<TimerRow>) -> (result: Result<Vec<Timer>, String>)
    ensures
        timers_result_view(result) == timers_of_rows(row_views(rows@)),
{
    let ghost views = row_views(rows@);
    let mut timers: Vec<Timer> = Vec::new();
    let mut i: usize = 0;
    assert(views.take(0) =~= Seq::<TimerRowView>::empty());
    assert(timer_views(timers@) =~= Seq::<TimerView>::empty());
    while i < rows.len()
        invariant
            i <= rows@.len(),
            views == row_views(rows@),
            timers_of_rows(views.take(i as int)) == Ok::<Seq<TimerView>, Seq<char>>(
                timer_views(timers@),
            ),
        decreases rows@.len() - i,
    {
        assert(views.take(i + 1).drop_last() =~= views.take(i as int));
        let ghost before = timer_views(timers@);
        match timer_from_row(&rows[i]) {
            Ok(timer) => {
                timers.push(timer);
                assert(timer_views(timers@) =~= before.push(timer@));
            },
            Err(message) => {
                proof {
                    lemma_first_bad_row(views, i as int);
                }
                return Err(message);
            },
        }
        i += 1;
    }
    assert(views.take(rows@.len() as int) =~= views);
    Ok(timers)
}

/// A row that is rejected after all rows before it were read rejects the
/// whole table.
proof fn lemma_first_bad_row(rows: Seq<TimerRowView>, i: int)
    requires
        0 <= i < rows.len(),
        timers_of_rows(rows.take(i)) is Ok,
        timers_of_rows(rows.take(i + 1)) is Err,
    ensures
        timers_of_rows(rows) == timers_of_rows(rows.take(i + 1)),
    decreases rows.len(),
{
    if i + 1 < rows.len() {
        let front = rows.drop_last();
        assert(front.take(i) =~= rows.take(i));
        assert(front.take(i + 1) =~= rows.take(i + 1));
        lemma_first_bad_row(front, i);
    } else {
        assert(rows.take(i + 1) =~= rows);
    }
}

/// A timer that was stored as a row is read back as it was.
pub proof fn lemma_timer_row_round_trip(timer: TimerView, lower_host: Seq<char>)
    requires
        timer.allowed_days.len() == 7,
    ensures
        timer_of_row(row_of_timer(timer), lower_host) == Ok::<TimerView, Seq<char>>(timer),
{
    crate::dbus::lemma_host_name_round_trip(timer.host, lower_host);
    lemma_days_round_trip(timer.allowed_days);
}

/// The name of the file that holds the statement of kind `action` for
/// `table`.
pub open spec fn sql_file_name_of(table: AWTables, action: QueryType) -> Seq<char> {
    table_name_of(table) + "_"@ + query_name_of(action) + ".sql"@
}

/// The name of the file that holds the statement of kind `action` for
/// `table`: `<table>_<action>.sql`, to be found in the directory `sql`.
pub fn sql_file_name(table: &AWTables, action: &QueryType) -> (name: String)
    ensures
        name@ == sql_file_name_of(*table, *action),
{
    table.to_string().concat("_").concat(action.as_str()).concat(".sql")
}

/// The tables that are missing from the store, in the order in which they
/// are created.
pub open spec fn missing_tables_of(has_focus_changes: bool, has_timers: bool) -> Seq<AWTables> {
    (if has_focus_changes {
        Seq::<AWTables>::empty()
    } else {
        seq![AWTables::FocusChanges]
    }) + (if has_timers {
        Seq::<AWTables>::empty()
    } else {
        seq![AWTables::Timers]
    })
}

/// The tables to create when the store is opened: those that it does not
/// hold yet.
pub fn missing_tables(has_focus_changes: bool, has_timers: bool) -> (tables: Vec<AWTables>)
    ensures
        tables@ == missing_tables_of(has_focus_changes, has_timers),
{
    let mut tables: Vec<AWTables> = Vec::new();
    if !has_focus_changes {
        tables.push(AWTables::FocusChanges);
    }
    if !has_timers {
        tables.push(AWTables::Timers);
    }
    assert(tables@ =~= missing_tables_of(has_focus_changes, has_timers));
    tables
}

/// A local day as a span of moments: from its midnight up to, but not
/// including, the next.
#[derive(Clone, Copy, Debug, PartialEq, Eq, Structural)]
pub struct DayWindow {
    pub start: Timestamp,
    pub end: Timestamp,
}

impl DayWindow {
    /// Whether `moment` lies in the window.
    pub open spec fn covers(self, moment: int) -> bool {
        self.start <= moment < self.end
    }

    /// Whether `moment` lies in the window.
    pub fn contains(&self, moment: Timestamp) -> (inside: bool)
        ensures
            inside == self.covers(moment as int),
    {
        self.start <= moment && moment < self.end
    }
}

/// A number of milliseconds as a moment: held at the ends of what a moment
/// can be.
pub open spec fn clamped_moment(millis: int) -> Timestamp {
    if millis < i64::MIN {
        i64::MIN
    } else if millis > i64::MAX {
        i64::MAX
    } else {
        millis as i64
    }
}

/// The moment at which the local day of `moment` began: the moment less
/// what has passed of the day on the local clock.
pub open spec fn day_start_of(moment: LocalMoment) -> int {
    moment.utc - (moment.utc + 1000 * moment.offset_seconds) % 86_400_000
}

/// The window of the local day of `moment`: from the moment at which the
/// local clock last showed midnight, for 24 hours.
pub open spec fn day_window_of(moment: LocalMoment) -> DayWindow {
    DayWindow {
        start: clamped_moment(day_start_of(moment)),
        end: clamped_moment(day_start_of(moment) + 86_400_000),
    }
}

/// The window of the local day of `moment`: the local time is cut down to
/// the day, and the day lasts 24 hours.
pub fn day_window_at(moment: LocalMoment) -> (window: DayWindow)
    ensures
        window == day_window_of(moment),
        window.start <= moment.utc,
        moment.utc < window.end || window.end == i64::MAX,
{
    let local: i128 = moment.utc as i128 + 1000 * (moment.offset_seconds as i128);
    let passed: i128 = if local >= 0 {
        local % 86_400_000
    } else {
        let short: i128 = (-local) % 86_400_000;
        if short == 0 {
            0
        } else {
            86_400_000 - short
        }
    };
    assert(passed == (moment.utc + 1000 * moment.offset_seconds) % 86_400_000) by {
        let l = moment.utc + 1000 * moment.offset_seconds;
        if l < 0 {
            assert((-l) % 86_400_000 == 0 ==> l % 86_400_000 == 0);
            assert((-l) % 86_400_000 != 0 ==> l % 86_400_000 == 86_400_000 - (-l) % 86_400_000);
        }
    }
    let start: i128 = moment.utc as i128 - passed;
    let end: i128 = start + 86_400_000;
    DayWindow { start: moment_of(start), end: moment_of(end) }
}

/// A number of milliseconds as a moment.
fn moment_of(millis: i128) -> (moment: Timestamp)
    ensures
        moment == clamped_moment(millis as int),
{
    if millis < i64::MIN as i128 {
        i64::MIN
    } else if millis > i64::MAX as i128 {
        i64::MAX
    } else {
        millis as i64
    }
}

/// The window of the current local day, by the system clock and the
/// machine's time zone: the present local time cut down to the day, for 24
/// hours.
pub fn current_day_window() -> (window: DayWindow)
    ensures
        exists|moment: LocalMoment|
            {
                &&& window == #[trigger] day_window_of(moment)
                &&& window.start <= moment.utc
                &&& moment.utc < window.end || window.end == i64::MAX
            },
{
    let moment = local_now();
    let window = day_window_at(moment);
    assert(window == day_window_of(moment));
    window
}

/// The stored segments that closed within `window`, in their order.
pub open spec fn segments_within(log: Seq<FocusChangeView>, window: DayWindow) -> Seq<
    FocusChangeView,
> {
    log.filter(|change: FocusChangeView| window.covers(change.timestamp))
}

/// The durations that a log of segments gives for the day `window`: for
/// each target, the sum of the seconds of its segments that closed within
/// the window.
pub open spec fn durations_of_log(log: Seq<FocusChangeView>, window: DayWindow) -> Map<
    (Host, Seq<char>),
    u32,
> {
    durations_with_all(Map::empty(), segments_within(log, window))
}

/// Derives the durations of the day `window` from the stored segments:
/// those that closed within the window are grouped by target and their
/// seconds are summed.
pub fn select_current_durations(log: &Vec<FocusChange>, window: &DayWindow) -> (durations:
    DurationMap)
    ensures
        durations@ == durations_of_log(change_views(log@), *window),
{
    let ghost views = change_views(log@);
    let ghost inside = |change: FocusChangeView| window.covers(change.timestamp);
    let mut durations = DurationMap::new();
    let mut i: usize = 0;
    proof {
        assert(views.take(0) =~= Seq::<FocusChangeView>::empty());
        reveal(Seq::filter);
    }
    while i < log.len()
        invariant
            i <= log@.len(),
            views == change_views(log@),
            inside == |change: FocusChangeView| window.covers(change.timestamp),
            durations@ == durations_with_all(Map::empty(), views.take(i as int).filter(inside)),
        decreases log@.len() - i,
    {
        proof {
            let seen = views.take(i as int);
            seen.lemma_filter_push(views[i as int], inside);
            assert(views.take(i + 1) =~= seen.push(views[i as int]));
            assert(seen.filter(inside).push(views[i as int]).drop_last() =~= seen.filter(inside));
        }
        if window.contains(log[i].timestamp) {
            durations.add(log[i].host, &log[i].display_name, log[i].duration);
        }
        i += 1;
    }
    assert(views.take(log@.len() as int) =~= views);
    durations
}

/// The rows of seconds that a sequence of segments gives to the fold of
/// [`crate::daemon::sum_durations`]: one for each segment.
pub open spec fn rows_of_segments(changes: Seq<FocusChangeView>) -> Seq<DurationEntryView> {
    changes.map_values(
        |change: FocusChangeView|
            DurationEntryView {
                host: change.host,
                display_name: change.display_name,
                seconds: change.duration,
            },
    )
}

/// Summing the rows of the segments of a day gives the durations of the
/// day: a store that selects the segments within the window and hands their
/// rows to [`crate::daemon::sum_durations`] derives what [`select_current_durations`]
/// derives from the whole log.
pub proof fn lemma_rows_give_log_durations(log: Seq<FocusChangeView>, window: DayWindow)
    ensures
        durations_of_rows(rows_of_segments(segments_within(log, window))) == durations_of_log(
            log,
            window,
        ),
{
    lemma_rows_give_durations(segments_within(log, window));
}

proof fn lemma_rows_give_durations(changes: Seq<FocusChangeView>)
    ensures
        durations_of_rows(rows_of_segments(changes)) == durations_with_all(Map::empty(), changes),
    decreases changes.len(),
{
    if changes.len() > 0 {
        lemma_rows_give_durations(changes.drop_last());
        assert(rows_of_segments(changes).drop_last() =~= rows_of_segments(changes.drop_last()));
    }
}

/// The durations in memory follow the store. Where they are what the log
/// gives for the day, and an event is accounted for at a moment of that
/// day, they are what the log gives once the closed segment is appended to
/// it.
pub proof fn lemma_durations_follow_log(
    context: ContextView,
    log: Seq<FocusChangeView>,
    window: DayWindow,
    now: int,
    event: EventView,
    set_last_event: bool,
)
    requires
        context.durations == durations_of_log(log, window),
        window.covers(now),
    ensures
        context_after_event(context, now, event, set_last_event).durations == durations_of_log(
            log + host_segment(context.last_event, event.source, now),
            window,
        ),
{
    let inside = |change: FocusChangeView| window.covers(change.timestamp);
    match segment_closed_by(context.last_event, event.source, now) {
        Some(change) => {
            log.lemma_filter_push(change, inside);
            assert(log + seq![change] =~= log.push(change));
            assert(log.filter(inside).push(change).drop_last() =~= log.filter(inside));
        },
        None => {
            assert(log + Seq::<FocusChangeView>::empty() =~= log);
        },
    }
}

} // verus!
