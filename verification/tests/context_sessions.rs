use activity_warden::clock::LocalDay;
use activity_warden::context::{DaemonContext, LastEvent, LastEvents};
use activity_warden::daemon::DurationMap;
use activity_warden::dbus::Host;
use activity_warden::event::{Event, EventType};
use activity_warden::schema::{FocusChange, Timer};

fn monday() -> LocalDay {
    // 2024-01-01 was a Monday.
    LocalDay { date: 738_886, weekday: 0 }
}

fn fresh() -> DaemonContext {
    DaemonContext::new_on(Vec::new(), DurationMap::new(), monday(), None)
}

fn focus(source: Host, display_name: &str, metadata: &str) -> Event {
    Event {
        event_type: EventType::FocusChange,
        source,
        display_name: display_name.to_string(),
        metadata: metadata.to_string(),
    }
}

fn lost(source: Host) -> Event {
    Event {
        event_type: EventType::FocusLost,
        source,
        display_name: String::new(),
        metadata: String::new(),
    }
}

#[test]
fn first_event_opens_a_session_and_closes_nothing() {
    let mut context = fresh();
    let event = focus(Host::FirefoxWatcher, "news.example", "42");
    let change = context.update_event_durations_at(1_000, &event, true);
    assert_eq!(change, None);
    assert_eq!(
        context.last_event.get(Host::FirefoxWatcher),
        Some(&LastEvent { time: 1_000, event })
    );
    assert_eq!(context.timer_durations.len(), 0);
}

#[test]
fn second_event_closes_the_session_of_its_source() {
    let mut context = fresh();
    let a = focus(Host::FirefoxWatcher, "news.example", "42");
    let b = focus(Host::FirefoxWatcher, "mail.example", "43");
    context.update_event_durations_at(10_000, &a, true);
    let change = context.update_event_durations_at(75_999, &b, true);
    assert_eq!(
        change,
        Some(FocusChange {
            host: Host::FirefoxWatcher,
            display_name: "news.example".to_string(),
            timestamp: 75_999,
            duration: 65,
        })
    );
    assert_eq!(
        context.timer_durations.get(Host::FirefoxWatcher, &"news.example".to_string()),
        Some(65)
    );
    assert_eq!(context.last_event.get(Host::FirefoxWatcher).map(|last| last.time), Some(75_999));
    assert_eq!(
        context.last_event.get(Host::FirefoxWatcher).map(|last| last.event.clone()),
        Some(b)
    );
}

#[test]
fn focus_lost_closes_and_leaves_no_session() {
    let mut context = fresh();
    context.update_event_durations_at(0, &focus(Host::FirefoxWatcher, "news.example", "1"), true);
    let change = context.update_event_durations_at(3_500, &lost(Host::FirefoxWatcher), false);
    assert_eq!(change.map(|c| c.duration), Some(3));
    assert!(context.last_event.is_empty());
    let again = context.update_event_durations_at(9_000, &lost(Host::FirefoxWatcher), false);
    assert_eq!(again, None);
    assert_eq!(context.timer_durations.seconds(Host::FirefoxWatcher, &"news.example".to_string()), 3);
}

#[test]
fn sources_are_accounted_for_separately() {
    let mut context = fresh();
    context.update_event_durations_at(0, &focus(Host::FirefoxWatcher, "news.example", "1"), true);
    let other = context.update_event_durations_at(
        5_000,
        &focus(Host::GnomeExtension, "Terminal", ""),
        true,
    );
    assert_eq!(other, None);
    assert!(context.last_event.contains(Host::FirefoxWatcher));
    assert!(context.last_event.contains(Host::GnomeExtension));
    assert!(!context.last_event.contains(Host::UserDaemon));
    let closed = context.update_event_durations_at(8_000, &lost(Host::GnomeExtension), false);
    assert_eq!(
        closed,
        Some(FocusChange {
            host: Host::GnomeExtension,
            display_name: "Terminal".to_string(),
            timestamp: 8_000,
            duration: 3,
        })
    );
    assert!(context.last_event.contains(Host::FirefoxWatcher));
}

#[test]
fn durations_accumulate_over_sessions_of_one_target() {
    let mut context = fresh();
    let a = focus(Host::FirefoxWatcher, "news.example", "1");
    context.update_event_durations_at(0, &a, true);
    context.update_event_durations_at(10_000, &lost(Host::FirefoxWatcher), false);
    context.update_event_durations_at(20_000, &a, true);
    context.update_event_durations_at(27_000, &lost(Host::FirefoxWatcher), false);
    assert_eq!(
        context.timer_durations.seconds(Host::FirefoxWatcher, &"news.example".to_string()),
        17
    );
    assert_eq!(context.timer_durations.len(), 1);
}

#[test]
fn a_clock_that_went_backwards_counts_as_zero_seconds() {
    let mut context = fresh();
    context.update_event_durations_at(50_000, &focus(Host::FirefoxWatcher, "a", "1"), true);
    let change = context.update_event_durations_at(20_000, &lost(Host::FirefoxWatcher), false);
    assert_eq!(change.map(|c| c.duration), Some(0));
    assert_eq!(context.timer_durations.get(Host::FirefoxWatcher, &"a".to_string()), Some(0));
}

#[test]
fn a_session_longer_than_a_u32_of_seconds_is_held_at_the_largest() {
    let mut context = fresh();
    context.update_event_durations_at(0, &focus(Host::FirefoxWatcher, "a", "1"), true);
    let change =
        context.update_event_durations_at(i64::MAX, &focus(Host::FirefoxWatcher, "a", "1"), true);
    assert_eq!(change.map(|c| c.duration), Some(u32::MAX));
    context.update_event_durations_at(i64::MAX, &lost(Host::FirefoxWatcher), false);
    assert_eq!(context.timer_durations.seconds(Host::FirefoxWatcher, &"a".to_string()), u32::MAX);
}

#[test]
fn extreme_moments_do_not_overflow() {
    let mut context = fresh();
    context.update_event_durations_at(i64::MIN, &focus(Host::FirefoxWatcher, "a", "1"), true);
    let change = context.update_event_durations_at(i64::MAX, &lost(Host::FirefoxWatcher), false);
    assert_eq!(change.map(|c| c.duration), Some(u32::MAX));
}

#[test]
fn reset_on_the_same_day_keeps_everything() {
    let mut context = fresh();
    context.update_event_durations_at(0, &focus(Host::FirefoxWatcher, "a", "1"), true);
    context.update_event_durations_at(4_000, &focus(Host::FirefoxWatcher, "b", "2"), true);
    context.reset_daily_state_on(monday());
    assert_eq!(context.timer_durations.seconds(Host::FirefoxWatcher, &"a".to_string()), 4);
    assert!(context.last_event.contains(Host::FirefoxWatcher));
    assert_eq!(context.cur_date, 738_886);
}

#[test]
fn reset_on_a_new_day_drops_durations_and_sessions() {
    let mut context = fresh();
    context.insert_timer(Timer {
        display_name: "a".to_string(),
        host: Host::FirefoxWatcher,
        time_limit: 60,
        allowed_days: [true; 7],
    });
    context.update_event_durations_at(0, &focus(Host::FirefoxWatcher, "a", "1"), true);
    context.update_event_durations_at(4_000, &focus(Host::FirefoxWatcher, "b", "2"), true);
    context.reset_daily_state_on(LocalDay { date: 738_887, weekday: 1 });
    assert_eq!(context.timer_durations.len(), 0);
    assert!(context.last_event.is_empty());
    assert_eq!(context.cur_date, 738_887);
    assert_eq!(context.timers.len(), 1);
}

#[test]
fn clear_closes_every_session_in_the_order_of_the_hosts() {
    let mut context = fresh();
    context.update_event_durations_at(0, &focus(Host::GnomeExtension, "Terminal", ""), true);
    context.update_event_durations_at(1_000, &focus(Host::FirefoxWatcher, "news.example", "7"), true);
    let changes = context.clear_last_event_at(61_000);
    assert_eq!(
        changes,
        vec![
            FocusChange {
                host: Host::FirefoxWatcher,
                display_name: "news.example".to_string(),
                timestamp: 61_000,
                duration: 60,
            },
            FocusChange {
                host: Host::GnomeExtension,
                display_name: "Terminal".to_string(),
                timestamp: 61_000,
                duration: 61,
            },
        ]
    );
    assert!(context.last_event.is_empty());
    assert_eq!(context.timer_durations.seconds(Host::GnomeExtension, &"Terminal".to_string()), 61);
    assert_eq!(
        context.timer_durations.seconds(Host::FirefoxWatcher, &"news.example".to_string()),
        60
    );
}

#[test]
fn suspend_clears_sessions() {
    let mut context = fresh();
    let a = focus(Host::FirefoxWatcher, "a.example", "5");
    context.update_event_durations_at(100_000, &a, true);
    let stored = context.clear_last_event_at(130_000);
    assert_eq!(stored.len(), 1);
    assert_eq!(stored[0].display_name, "a.example");
    assert_eq!(stored[0].duration, 30);
    assert!(context.last_event.is_empty());
    let on_resume = context.clear_last_event_at(500_000);
    assert!(on_resume.is_empty());
    assert_eq!(context.timer_durations.seconds(Host::FirefoxWatcher, &"a.example".to_string()), 30);
}

#[test]
fn midnight_splits_a_session_in_two() {
    let mut context = fresh();
    let a = focus(Host::FirefoxWatcher, "late.example", "9");
    // The session starts 600.4 s before midnight and ends 300.7 s after it.
    let midnight: i64 = 1_704_067_200_000;
    context.update_event_durations_at(midnight - 600_400, &a, true);
    let before = context.split_sessions_at(midnight);
    assert_eq!(
        before,
        vec![FocusChange {
            host: Host::FirefoxWatcher,
            display_name: "late.example".to_string(),
            timestamp: midnight,
            duration: 600,
        }]
    );
    assert_eq!(
        context.last_event.get(Host::FirefoxWatcher),
        Some(&LastEvent { time: midnight, event: a })
    );
    let after = context.update_event_durations_at(midnight + 300_700, &lost(Host::FirefoxWatcher), false);
    let after = after.unwrap();
    assert_eq!(after.timestamp, midnight + 300_700);
    assert_eq!(after.duration, 300);
    // 901.1 s in all: the two parts give 900, one second less than the whole seconds.
    assert_eq!(before[0].duration + after.duration, 900);
    assert!(before[0].timestamp <= midnight && midnight < after.timestamp);
}

#[test]
fn midnight_without_sessions_closes_nothing() {
    let mut context = fresh();
    assert!(context.split_sessions_at(5).is_empty());
    assert!(context.last_event.is_empty());
}

#[test]
fn reading_the_clock_closes_an_open_session() {
    let mut context = fresh();
    let a = focus(Host::FirefoxWatcher, "a", "1");
    assert_eq!(context.update_event_durations(&a, true), None);
    let opened = context.last_event.get(Host::FirefoxWatcher).unwrap().time;
    // A moment after 2020 and before 2200.
    assert!(opened > 1_577_836_800_000 && opened < 7_258_118_400_000);
    let change = context.update_event_durations(&lost(Host::FirefoxWatcher), false).unwrap();
    assert_eq!(change.display_name, "a");
    assert!(change.timestamp >= opened);
    assert!(change.duration < 60);
    assert!(context.clear_last_event().is_empty());
    context.reset_daily_state();
    assert!(context.cur_date > 737_000);
}

#[test]
fn last_events_keep_one_session_per_source() {
    let mut sessions = LastEvents::new();
    assert!(sessions.is_empty());
    sessions.insert(LastEvent { time: 1, event: focus(Host::UserDaemon, "a", "") });
    sessions.insert(LastEvent { time: 2, event: focus(Host::UserDaemon, "b", "") });
    sessions.insert(LastEvent { time: 3, event: focus(Host::GnomeApplication, "c", "") });
    assert_eq!(sessions.get(Host::UserDaemon).map(|l| l.time), Some(2));
    assert_eq!(sessions.get(Host::GnomeApplication).map(|l| l.time), Some(3));
    assert_eq!(sessions.get(Host::FirefoxWatcher), None);
    sessions.remove(Host::UserDaemon);
    assert!(!sessions.contains(Host::UserDaemon));
    assert!(!sessions.is_empty());
    sessions.clear();
    assert!(sessions.is_empty());
}

#[test]
fn closed_segments_hold_the_open_time_to_within_a_second_each() {
    let mut context = fresh();
    // (moment, opens a session): open, switch, close, pause, open, close.
    let steps: [(i64, bool); 6] =
        [(0, true), (1_900, true), (4_700, false), (9_000, false), (10_000, true), (10_999, false)];
    let mut seconds: i64 = 0;
    let mut segments: i64 = 0;
    let mut open_millis: i64 = 0;
    let mut opened: Option<i64> = None;
    for (now, opens) in steps {
        let event = if opens { focus(Host::FirefoxWatcher, "a", "1") } else { lost(Host::FirefoxWatcher) };
        if let Some(since) = opened {
            open_millis += now - since;
        }
        if let Some(change) = context.update_event_durations_at(now, &event, opens) {
            seconds += change.duration as i64;
            segments += 1;
        }
        opened = if opens { Some(now) } else { None };
    }
    // Open for 1.9 s, 2.8 s and 0.999 s: 5.699 s, stored as 1 + 2 + 0 seconds.
    assert_eq!(open_millis, 5_699);
    assert_eq!(seconds, 3);
    assert_eq!(segments, 3);
    assert!(1_000 * seconds <= open_millis);
    assert!(open_millis < 1_000 * (seconds + segments));
    assert_eq!(context.timer_durations.seconds(Host::FirefoxWatcher, &"a".to_string()), 3);
}

#[test]
fn one_segment_is_within_a_second_of_its_session() {
    for length in [0i64, 1, 999, 1_000, 1_001, 59_999, 86_400_000] {
        let mut context = fresh();
        context.update_event_durations_at(7, &focus(Host::GnomeExtension, "a", ""), true);
        let change = context.update_event_durations_at(7 + length, &lost(Host::GnomeExtension), false);
        let seconds = change.unwrap().duration as i64;
        assert!(1_000 * seconds <= length && length < 1_000 * (seconds + 1));
    }
}

#[test]
fn a_context_starts_today_without_sessions() {
    let mut durations = DurationMap::new();
    durations.add(Host::FirefoxWatcher, &"a".to_string(), 5);
    let mut context = DaemonContext::new(Vec::new(), durations, Some("digest".to_string()));
    assert!(context.last_event.is_empty());
    assert!(context.is_locked());
    assert_eq!(context.timer_durations.seconds(Host::FirefoxWatcher, &"a".to_string()), 5);
    let date = context.cur_date;
    context.reset_daily_state();
    // Unless midnight fell between the two readings of the clock, nothing was dropped.
    if context.cur_date == date {
        assert_eq!(context.timer_durations.len(), 1);
    }
    context.update_event_durations(&focus(Host::FirefoxWatcher, "b", "1"), true);
    let changes = context.split_sessions();
    assert_eq!(changes.len(), 1);
    assert_eq!(changes[0].display_name, "b");
    assert!(context.last_event.contains(Host::FirefoxWatcher));
}
