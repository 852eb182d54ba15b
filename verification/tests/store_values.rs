use activity_warden::clock::{LocalDay, LocalMoment};
use activity_warden::context::DaemonContext;
use activity_warden::daemon::{sum_durations, DurationEntry};
use activity_warden::dbus::Host;
use activity_warden::event::{Event, EventType};
use activity_warden::persistence::{
    current_day_window, day_window_at, decode_allowed_days, encode_allowed_days, missing_tables,
    select_current_durations, select_timers, sql_file_name, timer_from_row, timer_to_row,
    DayWindow, TimerRow,
};
use activity_warden::schema::{AWTables, FocusChange, QueryType, Timer};

#[test]
fn allowed_days_as_a_bit_mask() {
    assert_eq!(encode_allowed_days(&[false; 7]), 0);
    assert_eq!(encode_allowed_days(&[true; 7]), 127);
    assert_eq!(encode_allowed_days(&[true, false, false, false, false, false, false]), 1);
    assert_eq!(encode_allowed_days(&[false, false, false, false, false, false, true]), 64);
    assert_eq!(encode_allowed_days(&[false, true, true, true, true, true, false]), 62);
    assert_eq!(encode_allowed_days(&[true, false, true, false, false, true, false]), 37);
}

#[test]
fn a_bit_mask_as_allowed_days() {
    assert_eq!(decode_allowed_days(0), [false; 7]);
    assert_eq!(decode_allowed_days(127), [true; 7]);
    assert_eq!(decode_allowed_days(1), [true, false, false, false, false, false, false]);
    assert_eq!(decode_allowed_days(64), [false, false, false, false, false, false, true]);
    assert_eq!(decode_allowed_days(62), [false, true, true, true, true, true, false]);
    // The eighth bit carries no day.
    assert_eq!(decode_allowed_days(128), [false; 7]);
    assert_eq!(decode_allowed_days(255), [true; 7]);
}

#[test]
fn every_mask_round_trips() {
    for mask in 0..=255u8 {
        assert_eq!(encode_allowed_days(&decode_allowed_days(mask)), mask % 128);
    }
}

#[test]
fn a_timer_is_stored_as_four_values() {
    let timer = Timer {
        display_name: "news.example".to_string(),
        host: Host::FirefoxWatcher,
        time_limit: 1200,
        allowed_days: [false, true, true, true, true, true, false],
    };
    let row = timer_to_row(&timer);
    assert_eq!(
        row,
        TimerRow {
            display_name: "news.example".to_string(),
            host: "firefox_watcher".to_string(),
            time_limit: 1200,
            allowed_days: 62,
        }
    );
    assert_eq!(timer_from_row(&row), Ok(timer));
}

#[test]
fn a_row_with_an_unknown_host_is_rejected() {
    let row = TimerRow {
        display_name: "x".to_string(),
        host: "chrome_watcher".to_string(),
        time_limit: 1,
        allowed_days: 0,
    };
    assert_eq!(timer_from_row(&row), Err("'chrome_watcher' is not a valid color".to_string()));
}

#[test]
fn a_row_with_a_host_in_capitals_is_read() {
    let row = TimerRow {
        display_name: "x".to_string(),
        host: "GNOME_Extension".to_string(),
        time_limit: 1,
        allowed_days: 3,
    };
    let timer = timer_from_row(&row).unwrap();
    assert_eq!(timer.host, Host::GnomeExtension);
    assert_eq!(timer.allowed_days, [true, true, false, false, false, false, false]);
}

#[test]
fn statement_files_are_named_by_table_and_kind() {
    assert_eq!(sql_file_name(&AWTables::Timers, &QueryType::SELECT), "timers_select.sql");
    assert_eq!(sql_file_name(&AWTables::Timers, &QueryType::INSERT), "timers_insert.sql");
    assert_eq!(sql_file_name(&AWTables::Timers, &QueryType::UPDATE), "timers_update.sql");
    assert_eq!(sql_file_name(&AWTables::Timers, &QueryType::DELETE), "timers_delete.sql");
    assert_eq!(sql_file_name(&AWTables::FocusChanges, &QueryType::CREATE), "focus_changes_create.sql");
    assert_eq!(AWTables::FocusChanges.to_string(), "focus_changes");
    assert_eq!(QueryType::CREATE.to_string(), "create");
}

#[test]
fn only_missing_tables_are_created() {
    assert_eq!(missing_tables(false, false), vec![AWTables::FocusChanges, AWTables::Timers]);
    assert_eq!(missing_tables(true, false), vec![AWTables::Timers]);
    assert_eq!(missing_tables(false, true), vec![AWTables::FocusChanges]);
    assert!(missing_tables(true, true).is_empty());
}

fn segment(host: Host, display_name: &str, timestamp: i64, duration: u32) -> FocusChange {
    FocusChange { host, display_name: display_name.to_string(), timestamp, duration }
}

#[test]
fn todays_durations_are_the_sums_of_todays_segments() {
    let window = DayWindow { start: 1_000, end: 2_000 };
    let log = vec![
        segment(Host::FirefoxWatcher, "a", 999, 100),
        segment(Host::FirefoxWatcher, "a", 1_000, 5),
        segment(Host::FirefoxWatcher, "b", 1_500, 7),
        segment(Host::GnomeExtension, "a", 1_600, 11),
        segment(Host::FirefoxWatcher, "a", 1_999, 6),
        segment(Host::FirefoxWatcher, "b", 2_000, 100),
        segment(Host::FirefoxWatcher, "c", 5_000, 100),
    ];
    let durations = select_current_durations(&log, &window);
    assert_eq!(durations.len(), 3);
    assert_eq!(durations.get(Host::FirefoxWatcher, &"a".to_string()), Some(11));
    assert_eq!(durations.get(Host::FirefoxWatcher, &"b".to_string()), Some(7));
    assert_eq!(durations.get(Host::GnomeExtension, &"a".to_string()), Some(11));
    assert_eq!(durations.get(Host::FirefoxWatcher, &"c".to_string()), None);
}

#[test]
fn an_empty_log_or_window_gives_no_durations() {
    let window = DayWindow { start: 0, end: 10 };
    assert_eq!(select_current_durations(&Vec::new(), &window).len(), 0);
    let log = vec![segment(Host::FirefoxWatcher, "a", 5, 1)];
    assert_eq!(select_current_durations(&log, &DayWindow { start: 5, end: 5 }).len(), 0);
    assert_eq!(select_current_durations(&log, &DayWindow { start: 9, end: 1 }).len(), 0);
}

#[test]
fn a_window_holds_its_start_and_not_its_end() {
    let window = DayWindow { start: -5, end: 5 };
    assert!(window.contains(-5));
    assert!(window.contains(4));
    assert!(!window.contains(5));
    assert!(!window.contains(-6));
}

#[test]
fn the_memory_follows_the_log() {
    let window = DayWindow { start: 0, end: 86_400_000 };
    let mut log: Vec<FocusChange> = Vec::new();
    let mut context = DaemonContext::new_on(
        Vec::new(),
        select_current_durations(&log, &window),
        LocalDay { date: 1, weekday: 0 },
        None,
    );
    let names = ["a", "b", "a", "c", "a"];
    for (i, name) in names.iter().enumerate() {
        let event = Event {
            event_type: EventType::FocusChange,
            source: Host::FirefoxWatcher,
            display_name: name.to_string(),
            metadata: String::new(),
        };
        let now = (i as i64) * 12_345;
        if let Some(change) = context.update_event_durations_at(now, &event, true) {
            log.push(change);
        }
        assert_eq!(
            context.timer_durations.entries(),
            select_current_durations(&log, &window).entries()
        );
    }
    assert_eq!(log.len(), 4);
    assert_eq!(context.timer_durations.seconds(Host::FirefoxWatcher, &"a".to_string()), 24);
}

#[test]
fn todays_window_is_a_day_long_and_holds_the_present() {
    let window = current_day_window();
    assert_eq!(window.end - window.start, 86_400_000);
    assert_eq!(window.start % 1_000, 0);
    // Today began after 2020.
    assert!(window.start > 1_577_836_800_000);
    let again = current_day_window();
    assert!(again == window || again.start == window.end);
}

fn row(display_name: &str, host: &str, time_limit: u32, allowed_days: u8) -> TimerRow {
    TimerRow { display_name: display_name.to_string(), host: host.to_string(), time_limit, allowed_days }
}

#[test]
fn the_timer_table_is_read_row_by_row() {
    let rows = vec![
        row("news.example", "firefox_watcher", 60, 127),
        row("Terminal", "gnome_extension", 0, 65),
        row("news.example", "firefox_watcher", 5, 0),
    ];
    let timers = select_timers(&rows).unwrap();
    assert_eq!(timers.len(), 3);
    assert_eq!(timers[0].display_name, "news.example");
    assert_eq!(timers[0].time_limit, 60);
    assert_eq!(timers[1].host, Host::GnomeExtension);
    assert_eq!(timers[1].allowed_days, [true, false, false, false, false, false, true]);
    assert_eq!(timers[2].allowed_days, [false; 7]);
    assert_eq!(select_timers(&Vec::new()), Ok(Vec::new()));
}

#[test]
fn the_first_bad_row_rejects_the_timer_table() {
    let rows = vec![
        row("a", "firefox_watcher", 60, 127),
        row("b", "safari_watcher", 60, 127),
        row("c", "opera_watcher", 60, 127),
    ];
    assert_eq!(select_timers(&rows), Err("'safari_watcher' is not a valid color".to_string()));
}

#[test]
fn summed_rows_group_by_target() {
    let rows = vec![
        DurationEntry { host: Host::FirefoxWatcher, display_name: "a".to_string(), seconds: 5 },
        DurationEntry { host: Host::GnomeExtension, display_name: "a".to_string(), seconds: 1 },
        DurationEntry { host: Host::FirefoxWatcher, display_name: "a".to_string(), seconds: 6 },
        DurationEntry { host: Host::FirefoxWatcher, display_name: "b".to_string(), seconds: 0 },
    ];
    let durations = sum_durations(&rows);
    assert_eq!(durations.len(), 3);
    assert_eq!(durations.get(Host::FirefoxWatcher, &"a".to_string()), Some(11));
    assert_eq!(durations.get(Host::GnomeExtension, &"a".to_string()), Some(1));
    assert_eq!(durations.get(Host::FirefoxWatcher, &"b".to_string()), Some(0));
    assert_eq!(sum_durations(&Vec::new()).len(), 0);
}

#[test]
fn the_window_of_a_day_starts_at_local_midnight() {
    let day: i64 = 86_400_000;
    // 2024-01-03 12:34:56.789 UTC.
    let noon: i64 = 1_704_285_296_789;
    let midnight_utc: i64 = 1_704_240_000_000;
    assert_eq!(
        day_window_at(LocalMoment { utc: noon, offset_seconds: 0 }),
        DayWindow { start: midnight_utc, end: midnight_utc + day }
    );
    // Two hours east of Greenwich the day began two hours earlier.
    assert_eq!(
        day_window_at(LocalMoment { utc: noon, offset_seconds: 7_200 }),
        DayWindow { start: midnight_utc - 7_200_000, end: midnight_utc - 7_200_000 + day }
    );
    // Thirteen hours east it is already the next day.
    assert_eq!(
        day_window_at(LocalMoment { utc: noon, offset_seconds: 46_800 }),
        DayWindow { start: midnight_utc + day - 46_800_000, end: midnight_utc + 2 * day - 46_800_000 }
    );
    // Five hours west the day began five hours later.
    assert_eq!(
        day_window_at(LocalMoment { utc: noon, offset_seconds: -18_000 }),
        DayWindow { start: midnight_utc + 18_000_000, end: midnight_utc + 18_000_000 + day }
    );
}

#[test]
fn the_window_of_a_day_at_its_edges() {
    let day: i64 = 86_400_000;
    assert_eq!(
        day_window_at(LocalMoment { utc: 0, offset_seconds: 0 }),
        DayWindow { start: 0, end: day }
    );
    assert_eq!(
        day_window_at(LocalMoment { utc: day - 1, offset_seconds: 0 }),
        DayWindow { start: 0, end: day }
    );
    assert_eq!(
        day_window_at(LocalMoment { utc: day, offset_seconds: 0 }),
        DayWindow { start: day, end: 2 * day }
    );
    // Before 1970 the day is cut down, not up.
    assert_eq!(
        day_window_at(LocalMoment { utc: -1, offset_seconds: 0 }),
        DayWindow { start: -day, end: 0 }
    );
    assert_eq!(
        day_window_at(LocalMoment { utc: -day, offset_seconds: 0 }),
        DayWindow { start: -day, end: 0 }
    );
    assert_eq!(
        day_window_at(LocalMoment { utc: -1, offset_seconds: 3_600 }),
        DayWindow { start: -3_600_000, end: day - 3_600_000 }
    );
}

#[test]
fn the_window_of_a_day_is_held_at_the_ends_of_time() {
    let late = day_window_at(LocalMoment { utc: i64::MAX, offset_seconds: i32::MAX });
    assert_eq!(late.end, i64::MAX);
    assert!(late.start <= i64::MAX);
    let early = day_window_at(LocalMoment { utc: i64::MIN, offset_seconds: i32::MIN });
    assert_eq!(early.start, i64::MIN);
    assert!(early.end > i64::MIN);
}
