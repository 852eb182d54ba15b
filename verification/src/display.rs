//! What the desktop application shows: durations as minutes and seconds,
//! the limit that a timer sets for today, and the targets with the most
//! seconds for the chart of the day.

use vstd::prelude::*;
use vstd::string::StringExecFns;
use crate::clock::{day_index, day_index_of, local_today};
use crate::daemon::{distinct_keys, entry_views, DurationEntry, DurationEntryView, DurationMap};
use crate::dbus::Host;
use crate::schema::{Timer, TimerView};
use crate::text::{
    lemma_bytes_before_irreflexive, lemma_bytes_before_transitive, str_before, text_before,
};

verus! {

/// The decimal digit for a value below ten.
pub open spec fn digit_of(value: nat) -> char {
    "0123456789"@[value as int]
}

/// The decimal text of a number, without leading zeros.
pub open spec fn decimal_of(value: nat) -> Seq<char>
    decreases value,
{
    if value < 10 {
        seq![digit_of(value)]
    } else {
        decimal_of(value / 10).push(digit_of(value % 10))
    }
}

/// The decimal text of a number in at least two digits.
pub open spec fn two_digits_of(value: nat) -> Seq<char> {
    if value < 10 {
        seq!['0', digit_of(value)]
    } else {
        decimal_of(value)
    }
}

/// A duration as minutes and seconds.
pub open spec fn mm_ss_of(seconds: u32) -> Seq<char> {
    two_digits_of((seconds / 60) as nat) + seq![':'] + two_digits_of((seconds % 60) as nat)
}

/// The seconds that a timer allows on the day of the week `weekday`,
/// counted from Monday: its limit on an allowed day, nothing on another.
pub open spec fn limit_on(timer: TimerView, weekday: int) -> u32 {
    if timer.allowed_days[day_index_of(weekday)] {
        timer.time_limit
    } else {
        0
    }
}

/// Writes two numbers with `format!`, each in decimal and filled with a
/// leading zero to two digits, with a colon between them.
#[verifier::external_body]
fn format_clock(minutes: u32, seconds: u32) -> (text: String)
    ensures
        text@ == two_digits_of(minutes as nat) + seq![':'] + two_digits_of(seconds as nat),
{
    format!("{:02}:{:02}", minutes, seconds)
}

/// Writes a duration as `mm:ss`. The minutes are not cut off at 99.
pub fn fmt_mm_ss(secs: u32) -> (text: String)
    ensures
        text@ == mm_ss_of(secs),
{
    let minutes = secs / 60;
    let rest = secs % 60;
    format_clock(minutes, rest)
}

/// Writes the limit that a timer sets on the day of the week `weekday`,
/// counted from Monday.
pub fn fmt_timer_duration_on(timer: &Timer, weekday: u8) -> (text: String)
    ensures
        text@ == mm_ss_of(limit_on(timer@, weekday as int)),
{
    let duration = if timer.allowed_days[day_index(weekday)] {
        timer.time_limit
    } else {
        0
    };
    fmt_mm_ss(duration)
}

/// Writes the limit that a timer sets today, by the day of the week that
/// the system clock gives: the timer's limit if the day is allowed, a time
/// of 0 otherwise.
pub fn fmt_timer_duration(timer: &Timer) -> (text: String)
    ensures
        exists|weekday: int|
            0 <= weekday < 7 && text@ == mm_ss_of(#[trigger] limit_on(timer@, weekday)),
{
    let today = local_today();
    let text = fmt_timer_duration_on(timer, today.weekday);
    assert(text@ == mm_ss_of(limit_on(timer@, today.weekday as int)));
    text
}

/// The number of targets that the chart of the day shows.
pub const HIST_SIZE: usize = 10;

/// Whether the chart shows `first` before `second`: the entry with more
/// seconds comes first, and of two with the same seconds the one whose
/// name comes later in the order of texts.
pub open spec fn ranks_before(first: DurationEntryView, second: DurationEntryView) -> bool {
    first.seconds > second.seconds || (first.seconds == second.seconds && text_before(
        second.display_name,
        first.display_name,
    ))
}

/// Whether the chart shows `first` before `second`.
pub fn shown_before(first: &DurationEntry, second: &DurationEntry) -> (before: bool)
    ensures
        before == ranks_before(first@, second@),
{
    first.seconds > second.seconds || (first.seconds == second.seconds && str_before(
        second.display_name.as_str(),
        first.display_name.as_str(),
    ))
}

/// The order of the chart is transitive.
pub proof fn lemma_ranks_before_transitive(
    a: DurationEntryView,
    b: DurationEntryView,
    c: DurationEntryView,
)
    requires
        ranks_before(a, b),
        ranks_before(b, c),
    ensures
        ranks_before(a, c),
{
    if a.seconds == b.seconds && b.seconds == c.seconds {
        lemma_bytes_before_transitive(
            vstd::utf8::encode_utf8(c.display_name),
            vstd::utf8::encode_utf8(b.display_name),
            vstd::utf8::encode_utf8(a.display_name),
        );
    }
}

/// No entry is shown before itself.
pub proof fn lemma_ranks_before_irreflexive(a: DurationEntryView)
    ensures
        !ranks_before(a, a),
{
    lemma_bytes_before_irreflexive(vstd::utf8::encode_utf8(a.display_name));
}

/// Whether `list` holds an entry with this display name.
pub open spec fn lists(list: Seq<DurationEntry>, display_name: Seq<char>) -> bool {
    exists|i: int| 0 <= i < list.len() && (#[trigger] list[i]).display_name@ == display_name
}

/// The position in `rest` of an entry that none of the others is shown
/// before.
fn position_of_first(rest: &Vec<DurationEntry>) -> (best: usize)
    requires
        rest@.len() > 0,
    ensures
        best < rest@.len(),
        forall|j: int|
            0 <= j < rest@.len() ==> !ranks_before((#[trigger] rest@[j])@, rest@[best as int]@),
{
    let mut best: usize = 0;
    let mut i: usize = 1;
    proof {
        lemma_ranks_before_irreflexive(rest@[0]@);
    }
    while i < rest.len()
        invariant
            0 < i <= rest@.len(),
            best < i,
            forall|j: int|
                0 <= j < i ==> !ranks_before((#[trigger] rest@[j])@, rest@[best as int]@),
        decreases rest@.len() - i,
    {
        if shown_before(&rest[i], &rest[best]) {
            assert forall|j: int| 0 <= j < i + 1 implies !ranks_before(
                (#[trigger] rest@[j])@,
                rest@[i as int]@,
            ) by {
                lemma_ranks_before_irreflexive(rest@[i as int]@);
                if j < i && ranks_before(rest@[j]@, rest@[i as int]@) {
                    lemma_ranks_before_transitive(rest@[j]@, rest@[i as int]@, rest@[best as int]@);
                }
            }
            best = i;
        }
        i += 1;
    }
    best
}

/// The targets at `host` that the chart shows: the `limit` entries with
/// the most seconds, in the order of the chart. Each entry is a target of
/// the host with its seconds; no target is listed twice; fewer than `limit`
/// are listed only if these are all; no entry is shown before one that is
/// listed ahead of it; and no entry that is left out would be shown before
/// one that is listed.
pub fn top_durations(durations: &DurationMap, host: Host, limit: usize) -> (top: Vec<DurationEntry>)
    ensures
        top@.len() <= limit,
        distinct_keys(entry_views(top@)),
        forall|i: int|
            0 <= i < top@.len() ==> {
                &&& (#[trigger] top@[i]).host == host
                &&& durations@.contains_key((host, top@[i].display_name@))
                &&& durations@[(host, top@[i].display_name@)] == top@[i].seconds
            },
        top@.len() < limit ==> forall|name: Seq<char>|
            durations@.contains_key((host, name)) ==> lists(top@, name),
        forall|i: int, j: int|
            0 <= i < j < top@.len() ==> !ranks_before((#[trigger] top@[j])@, (#[trigger] top@[i])@),
        forall|name: Seq<char>, i: int|
            #![trigger durations@.contains_key((host, name)), top@[i]]
            durations@.contains_key((host, name)) && !lists(top@, name) && 0 <= i < top@.len()
                ==> !ranks_before(
                DurationEntryView {
                    host,
                    display_name: name,
                    seconds: durations@[(host, name)],
                },
                top@[i]@,
            ),
{
    let mut rest = durations.entries_of(host);
    let mut top: Vec<DurationEntry> = Vec::new();
    proof {
        let views = entry_views(rest@);
        assert forall|i: int, j: int| 0 <= i < j < rest@.len() implies (#[trigger] rest@[i])
            .display_name@ != (#[trigger] rest@[j]).display_name@ by {
            assert(views[i].key() != views[j].key());
        }
        assert forall|name: Seq<char>| durations@.contains_key((host, name)) implies lists(
            rest@,
            name,
        ) by {}
    }
    while top.len() < limit && rest.len() > 0
        invariant
            top@.len() <= limit,
            forall|i: int|
                0 <= i < top@.len() ==> {
                    &&& (#[trigger] top@[i]).host == host
                    &&& durations@.contains_key((host, top@[i].display_name@))
                    &&& durations@[(host, top@[i].display_name@)] == top@[i].seconds
                },
            forall|i: int|
                0 <= i < rest@.len() ==> {
                    &&& (#[trigger] rest@[i]).host == host
                    &&& durations@.contains_key((host, rest@[i].display_name@))
                    &&& durations@[(host, rest@[i].display_name@)] == rest@[i].seconds
                },
            forall|i: int, j: int|
                0 <= i < j < top@.len() ==> (#[trigger] top@[i]).display_name@ != (
                #[trigger] top@[j]).display_name@,
            forall|i: int, j: int|
                0 <= i < j < rest@.len() ==> (#[trigger] rest@[i]).display_name@ != (
                #[trigger] rest@[j]).display_name@,
            forall|i: int, j: int|
                0 <= i < top@.len() && 0 <= j < rest@.len() ==> (#[trigger] top@[i]).display_name@
                    != (#[trigger] rest@[j]).display_name@,
            forall|name: Seq<char>|
                durations@.contains_key((host, name)) ==> lists(top@, name) || lists(rest@, name),
            forall|i: int, j: int|
                0 <= i < j < top@.len() ==> !ranks_before(
                    (#[trigger] top@[j])@,
                    (#[trigger] top@[i])@,
                ),
            forall|i: int, j: int|
                0 <= i < top@.len() && 0 <= j < rest@.len() ==> !ranks_before(
                    (#[trigger] rest@[j])@,
                    (#[trigger] top@[i])@,
                ),
        decreases rest@.len(),
    {
        let best = position_of_first(&rest);
        let ghost old_rest = rest@;
        let ghost old_top = top@;
        let entry = rest.remove(best);
        top.push(entry);
        proof {
            assert forall|j: int| 0 <= j < rest@.len() implies #[trigger] rest@[j] == old_rest[if j
                < best {
                j
            } else {
                j + 1
            }] by {}
            assert forall|name: Seq<char>| durations@.contains_key((host, name)) implies lists(
                top@,
                name,
            ) || lists(rest@, name) by {
                if lists(old_top, name) {
                    let i = choose|i: int|
                        0 <= i < old_top.len() && (#[trigger] old_top[i]).display_name@ == name;
                    assert(top@[i].display_name@ == name);
                } else {
                    let j = choose|j: int|
                        0 <= j < old_rest.len() && (#[trigger] old_rest[j]).display_name@ == name;
                    if j == best {
                        assert(top@[top@.len() - 1].display_name@ == name);
                    } else if j < best {
                        assert(rest@[j].display_name@ == name);
                    } else {
                        assert(rest@[j - 1].display_name@ == name);
                    }
                }
            }
        }
    }
    proof {
        let listed = entry_views(top@);
        assert forall|a: int, b: int| 0 <= a < b < listed.len() implies (#[trigger] listed[a]).key()
            != (#[trigger] listed[b]).key() by {
            assert(top@[a].display_name@ != top@[b].display_name@);
        }
        assert forall|name: Seq<char>, i: int|
            #![trigger durations@.contains_key((host, name)), top@[i]]
            durations@.contains_key((host, name)) && !lists(top@, name) && 0 <= i < top@.len()
            implies !ranks_before(
            DurationEntryView { host, display_name: name, seconds: durations@[(host, name)] },
            top@[i]@,
        ) by {
            let j = choose|j: int|
                0 <= j < rest@.len() && (#[trigger] rest@[j]).display_name@ == name;
            assert(rest@[j]@ == DurationEntryView {
                host,
                display_name: name,
                seconds: durations@[(host, name)],
            });
        }
    }
    top
}

/// The label of a target in the chart: its display name, and a fixed label
/// for the target without a name.
pub open spec fn chart_label_of(display_name: Seq<char>) -> Seq<char> {
    if display_name.len() == 0 {
        "firefox_tools"@
    } else {
        display_name
    }
}

/// The label of a target in the chart.
pub fn chart_label(display_name: &str) -> (label: String)
    ensures
        label@ == chart_label_of(display_name@),
{
    if display_name.is_empty() {
        String::from_str("firefox_tools")
    } else {
        String::from_str(display_name)
    }
}

/// The minutes that the chart shows for a count of seconds: a minute that
/// has begun counts as a whole one.
pub open spec fn minutes_shown_of(seconds: u32) -> u32 {
    ((seconds + 59) / 60) as u32
}

/// The minutes that the chart shows for a count of seconds.
pub fn minutes_shown(seconds: u32) -> (minutes: u32)
    ensures
        minutes == minutes_shown_of(seconds),
{
    if seconds % 60 == 0 {
        seconds / 60
    } else {
        seconds / 60 + 1
    }
}

} // verus!
