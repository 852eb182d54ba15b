use activity_warden::clock::{
    alarm_seconds, day_after, day_index, elapsed_seconds, seconds_until,
    seconds_until_next_local_midnight, wait_until, LocalDay,
};
use activity_warden::daemon::{DurationEntry, DurationMap};
use activity_warden::dbus::Host;
use activity_warden::display::{
    chart_label, fmt_mm_ss, fmt_timer_duration, fmt_timer_duration_on, minutes_shown,
    shown_before, top_durations, HIST_SIZE,
};
use activity_warden::text::str_before;
use activity_warden::pages::Page;
use activity_warden::schema::Timer;

#[test]
fn elapsed_seconds_are_whole_seconds() {
    assert_eq!(elapsed_seconds(0, 0), 0);
    assert_eq!(elapsed_seconds(0, 999), 0);
    assert_eq!(elapsed_seconds(0, 1_000), 1);
    assert_eq!(elapsed_seconds(1_500, 4_499), 2);
    assert_eq!(elapsed_seconds(-2_500, 2_500), 5);
    assert_eq!(elapsed_seconds(1_700_000_000_000, 1_700_000_060_001), 60);
}

#[test]
fn elapsed_seconds_are_never_negative_and_never_too_large() {
    assert_eq!(elapsed_seconds(1_000, 0), 0);
    assert_eq!(elapsed_seconds(i64::MAX, i64::MIN), 0);
    assert_eq!(elapsed_seconds(0, 4_294_967_295_000), u32::MAX);
    assert_eq!(elapsed_seconds(0, 4_294_967_294_999), u32::MAX - 1);
    assert_eq!(elapsed_seconds(0, 4_294_967_296_000), u32::MAX);
    assert_eq!(elapsed_seconds(i64::MIN, i64::MAX), u32::MAX);
}

#[test]
fn waiting_time_in_whole_seconds() {
    assert_eq!(seconds_until(0, 0), 0);
    assert_eq!(seconds_until(5_000, 1_000), 0);
    assert_eq!(seconds_until(1_000, 5_999), 4);
    assert_eq!(seconds_until(i64::MIN, i64::MAX), 18_446_744_073_709_551);
}

#[test]
fn the_next_local_midnight_is_at_most_a_long_day_away() {
    if let Some(seconds) = seconds_until_next_local_midnight() {
        assert!(seconds <= 25 * 3_600);
    }
}

#[test]
fn sunday_is_the_first_day_of_a_timers_week() {
    // Counted from Monday: Monday 0, ..., Sunday 6.
    assert_eq!(day_index(6), 0);
    assert_eq!(day_index(0), 1);
    assert_eq!(day_index(1), 2);
    assert_eq!(day_index(2), 3);
    assert_eq!(day_index(3), 4);
    assert_eq!(day_index(4), 5);
    assert_eq!(day_index(5), 6);
    assert_eq!(day_index(255), 4);
}

#[test]
fn durations_are_written_as_minutes_and_seconds() {
    assert_eq!(fmt_mm_ss(0), "00:00");
    assert_eq!(fmt_mm_ss(9), "00:09");
    assert_eq!(fmt_mm_ss(59), "00:59");
    assert_eq!(fmt_mm_ss(60), "01:00");
    assert_eq!(fmt_mm_ss(754), "12:34");
    assert_eq!(fmt_mm_ss(5_999), "99:59");
    assert_eq!(fmt_mm_ss(6_000), "100:00");
    assert_eq!(fmt_mm_ss(u32::MAX), "71582788:15");
}

#[test]
fn a_timer_shows_its_limit_on_allowed_days_only() {
    let timer = Timer {
        display_name: "news.example".to_string(),
        host: Host::FirefoxWatcher,
        time_limit: 1_200,
        allowed_days: [false, true, true, true, true, true, false],
    };
    assert_eq!(fmt_timer_duration_on(&timer, 0), "20:00");
    assert_eq!(fmt_timer_duration_on(&timer, 4), "20:00");
    assert_eq!(fmt_timer_duration_on(&timer, 5), "00:00");
    assert_eq!(fmt_timer_duration_on(&timer, 6), "00:00");
    let today = fmt_timer_duration(&timer);
    assert!(today == "20:00" || today == "00:00");
}

#[test]
fn pages_are_named_in_lowercase() {
    assert_eq!(Page::Timers.name(), "timers");
    assert_eq!(Page::Data.name(), "data");
    assert_eq!(Page::Settings.name(), "settings");
}

fn entry(display_name: &str, seconds: u32) -> DurationEntry {
    DurationEntry { host: Host::FirefoxWatcher, display_name: display_name.to_string(), seconds }
}

#[test]
fn texts_are_ordered_as_the_standard_library_orders_them() {
    let texts = ["", "a", "ab", "abc", "b", "B", "z", "é", "e", "日本", "日", "~", "a\u{0}", "\u{10FFFF}"];
    for left in texts {
        for right in texts {
            assert_eq!(str_before(left, right), left < right, "{:?} before {:?}", left, right);
        }
    }
}

#[test]
fn the_chart_shows_the_most_seconds_first() {
    let mut durations = DurationMap::new();
    for (name, seconds) in [("c", 30), ("a", 10), ("e", 50), ("b", 20), ("d", 40)] {
        durations.add(Host::FirefoxWatcher, &name.to_string(), seconds);
    }
    durations.add(Host::GnomeExtension, &"Terminal".to_string(), 999);
    assert_eq!(
        top_durations(&durations, Host::FirefoxWatcher, 3),
        vec![entry("e", 50), entry("d", 40), entry("c", 30)]
    );
    assert_eq!(
        top_durations(&durations, Host::FirefoxWatcher, HIST_SIZE),
        vec![entry("e", 50), entry("d", 40), entry("c", 30), entry("b", 20), entry("a", 10)]
    );
    assert!(top_durations(&durations, Host::FirefoxWatcher, 0).is_empty());
    assert!(top_durations(&durations, Host::UserDaemon, HIST_SIZE).is_empty());
    assert_eq!(top_durations(&durations, Host::GnomeExtension, 1).len(), 1);
}

#[test]
fn equal_seconds_are_shown_by_name_from_the_end_of_the_alphabet() {
    let mut durations = DurationMap::new();
    for name in ["m", "a", "z", "mm"] {
        durations.add(Host::FirefoxWatcher, &name.to_string(), 7);
    }
    durations.add(Host::FirefoxWatcher, &"top".to_string(), 8);
    assert_eq!(
        top_durations(&durations, Host::FirefoxWatcher, HIST_SIZE),
        vec![entry("top", 8), entry("z", 7), entry("mm", 7), entry("m", 7), entry("a", 7)]
    );
    assert!(shown_before(&entry("z", 7), &entry("a", 7)));
    assert!(!shown_before(&entry("a", 7), &entry("z", 7)));
    assert!(shown_before(&entry("a", 8), &entry("z", 7)));
    assert!(!shown_before(&entry("a", 7), &entry("a", 7)));
}

#[test]
fn the_chart_shows_ten_targets() {
    let mut durations = DurationMap::new();
    for i in 0..25u32 {
        durations.add(Host::FirefoxWatcher, &format!("site{}", i), (i * 37) % 101);
    }
    let top = top_durations(&durations, Host::FirefoxWatcher, HIST_SIZE);
    assert_eq!(HIST_SIZE, 10);
    assert_eq!(top.len(), 10);
    let mut all = durations.entries();
    all.sort_by(|a, b| (b.seconds, &b.display_name).cmp(&(a.seconds, &a.display_name)));
    all.truncate(10);
    assert_eq!(top, all);
}

#[test]
fn a_minute_that_has_begun_is_shown_as_a_whole_one() {
    assert_eq!(minutes_shown(0), 0);
    assert_eq!(minutes_shown(1), 1);
    assert_eq!(minutes_shown(60), 1);
    assert_eq!(minutes_shown(61), 2);
    assert_eq!(minutes_shown(3_600), 60);
    assert_eq!(minutes_shown(u32::MAX), 71_582_789);
}

#[test]
fn the_target_without_a_name_has_a_label() {
    assert_eq!(chart_label(""), "firefox_tools");
    assert_eq!(chart_label("news.example"), "news.example");
}

#[test]
fn the_day_after_is_the_next_number() {
    assert_eq!(day_after(LocalDay { date: 738_888, weekday: 2 }), Some(738_889));
    assert_eq!(day_after(LocalDay { date: 0, weekday: 6 }), Some(1));
    assert_eq!(day_after(LocalDay { date: -1, weekday: 5 }), Some(0));
    assert_eq!(day_after(LocalDay { date: i32::MIN, weekday: 0 }), Some(i32::MIN + 1));
    assert_eq!(day_after(LocalDay { date: i32::MAX - 1, weekday: 0 }), Some(i32::MAX));
    assert_eq!(day_after(LocalDay { date: i32::MAX, weekday: 0 }), None);
}

#[test]
fn the_wait_is_for_the_midnight_that_was_given() {
    // 23:59:30.000: thirty seconds to midnight.
    assert_eq!(wait_until(Some(1_704_326_400_000), 1_704_326_370_000), Some(30));
    assert_eq!(wait_until(Some(1_704_326_400_000), 1_704_326_399_001), Some(0));
    assert_eq!(wait_until(Some(1_704_326_400_000), 1_704_240_000_000), Some(86_400));
    assert_eq!(wait_until(Some(5), 10), Some(0));
    assert_eq!(wait_until(None, 10), None);
}

#[test]
fn the_alarm_is_set_for_a_second_at_least() {
    assert_eq!(alarm_seconds(0), 1);
    assert_eq!(alarm_seconds(1), 1);
    assert_eq!(alarm_seconds(30), 30);
    assert_eq!(alarm_seconds(u64::MAX), u64::MAX);
}
