use activity_warden::clock::LocalDay;
use activity_warden::context::DaemonContext;
use activity_warden::daemon::DurationMap;
use activity_warden::dbus::Host;
use activity_warden::schema::{QueryType, Timer};
use activity_warden::timers::{
    copy_of_timers, has_timer_for, with_timer_deleted, with_timer_inserted, with_timer_updated,
};

fn timer(host: Host, display_name: &str, time_limit: u32) -> Timer {
    Timer { display_name: display_name.to_string(), host, time_limit, allowed_days: [true; 7] }
}

fn names(timers: &Vec<Timer>) -> Vec<(Host, String, u32)> {
    timers.iter().map(|t| (t.host, t.display_name.clone(), t.time_limit)).collect()
}

#[test]
fn insert_appends() {
    let list = vec![timer(Host::FirefoxWatcher, "a", 1)];
    let list = with_timer_inserted(&list, &timer(Host::FirefoxWatcher, "b", 2));
    let list = with_timer_inserted(&list, &timer(Host::GnomeExtension, "a", 3));
    assert_eq!(
        names(&list),
        vec![
            (Host::FirefoxWatcher, "a".to_string(), 1),
            (Host::FirefoxWatcher, "b".to_string(), 2),
            (Host::GnomeExtension, "a".to_string(), 3),
        ]
    );
}

#[test]
fn delete_removes_every_timer_of_the_target_and_keeps_the_order() {
    let list = vec![
        timer(Host::FirefoxWatcher, "a", 1),
        timer(Host::FirefoxWatcher, "b", 2),
        timer(Host::GnomeExtension, "a", 3),
        timer(Host::FirefoxWatcher, "a", 4),
        timer(Host::FirefoxWatcher, "c", 5),
    ];
    // Only host and display name count: the limit of the argument does not.
    let list = with_timer_deleted(&list, &timer(Host::FirefoxWatcher, "a", 99));
    assert_eq!(
        names(&list),
        vec![
            (Host::FirefoxWatcher, "b".to_string(), 2),
            (Host::GnomeExtension, "a".to_string(), 3),
            (Host::FirefoxWatcher, "c".to_string(), 5),
        ]
    );
    let same = with_timer_deleted(&list, &timer(Host::UserDaemon, "b", 2));
    assert_eq!(same, list);
}

#[test]
fn update_replaces_in_place() {
    let list = vec![
        timer(Host::FirefoxWatcher, "a", 1),
        timer(Host::FirefoxWatcher, "b", 2),
        timer(Host::GnomeExtension, "a", 3),
    ];
    let mut changed = timer(Host::FirefoxWatcher, "a", 600);
    changed.allowed_days = [false, true, true, true, true, true, false];
    let list = with_timer_updated(&list, &changed);
    assert_eq!(list.len(), 3);
    assert_eq!(list[0], changed);
    assert_eq!(list[1], timer(Host::FirefoxWatcher, "b", 2));
    assert_eq!(list[2], timer(Host::GnomeExtension, "a", 3));
    let untouched = with_timer_updated(&list, &timer(Host::FirefoxWatcher, "zzz", 1));
    assert_eq!(untouched, list);
}

#[test]
fn edits_of_an_empty_list() {
    let empty: Vec<Timer> = Vec::new();
    assert!(with_timer_deleted(&empty, &timer(Host::FirefoxWatcher, "a", 1)).is_empty());
    assert!(with_timer_updated(&empty, &timer(Host::FirefoxWatcher, "a", 1)).is_empty());
    assert_eq!(with_timer_inserted(&empty, &timer(Host::FirefoxWatcher, "a", 1)).len(), 1);
    assert!(copy_of_timers(&empty).is_empty());
}

#[test]
fn each_target_stays_unique_over_a_run_of_edits() {
    let mut context =
        DaemonContext::new_on(Vec::new(), DurationMap::new(), LocalDay { date: 1, weekday: 0 }, None);
    context.insert_timer(timer(Host::FirefoxWatcher, "a", 1));
    context.insert_timer(timer(Host::FirefoxWatcher, "b", 2));
    context.update_timer(timer(Host::FirefoxWatcher, "a", 10));
    context.delete_timer(timer(Host::FirefoxWatcher, "b", 0));
    context.insert_timer(timer(Host::FirefoxWatcher, "b", 20));
    context.insert_timer(timer(Host::GnomeExtension, "a", 3));
    context.update_timer(timer(Host::GnomeExtension, "a", 30));
    let listed = names(&context.timers);
    assert_eq!(
        listed,
        vec![
            (Host::FirefoxWatcher, "a".to_string(), 10),
            (Host::FirefoxWatcher, "b".to_string(), 20),
            (Host::GnomeExtension, "a".to_string(), 30),
        ]
    );
    for (i, a) in listed.iter().enumerate() {
        for b in listed.iter().skip(i + 1) {
            assert!(a.0 != b.0 || a.1 != b.1);
        }
    }
}

#[test]
fn inserting_for_a_target_that_has_a_timer_replaces_it() {
    let mut context =
        DaemonContext::new_on(Vec::new(), DurationMap::new(), LocalDay { date: 1, weekday: 0 }, None);
    assert_eq!(context.insert_timer(timer(Host::FirefoxWatcher, "a", 1)), QueryType::INSERT);
    assert_eq!(context.insert_timer(timer(Host::FirefoxWatcher, "b", 5)), QueryType::INSERT);
    assert_eq!(context.insert_timer(timer(Host::FirefoxWatcher, "a", 2)), QueryType::UPDATE);
    assert_eq!(
        names(&context.timers),
        vec![(Host::FirefoxWatcher, "a".to_string(), 2), (Host::FirefoxWatcher, "b".to_string(), 5)]
    );
    // The same name at another host is another target.
    assert_eq!(context.insert_timer(timer(Host::GnomeExtension, "a", 3)), QueryType::INSERT);
    assert_eq!(context.timers.len(), 3);
    context.delete_timer(timer(Host::FirefoxWatcher, "a", 0));
    assert_eq!(context.insert_timer(timer(Host::FirefoxWatcher, "a", 9)), QueryType::INSERT);
    assert_eq!(
        names(&context.timers),
        vec![
            (Host::FirefoxWatcher, "b".to_string(), 5),
            (Host::GnomeExtension, "a".to_string(), 3),
            (Host::FirefoxWatcher, "a".to_string(), 9),
        ]
    );
}

#[test]
fn an_insertion_mends_a_list_that_held_a_target_twice() {
    let list = vec![
        timer(Host::FirefoxWatcher, "a", 1),
        timer(Host::FirefoxWatcher, "b", 2),
        timer(Host::FirefoxWatcher, "a", 3),
    ];
    assert!(has_timer_for(&list, &timer(Host::FirefoxWatcher, "a", 0)));
    assert!(!has_timer_for(&list, &timer(Host::GnomeExtension, "a", 0)));
    assert!(!has_timer_for(&Vec::new(), &timer(Host::FirefoxWatcher, "a", 0)));
    let list = with_timer_inserted(&list, &timer(Host::FirefoxWatcher, "a", 7));
    assert_eq!(
        names(&list),
        vec![
            (Host::FirefoxWatcher, "a".to_string(), 7),
            (Host::FirefoxWatcher, "b".to_string(), 2),
            (Host::FirefoxWatcher, "a".to_string(), 7),
        ]
    );
}

#[test]
fn snapshot_holds_the_timers_and_the_given_durations() {
    let mut context =
        DaemonContext::new_on(Vec::new(), DurationMap::new(), LocalDay { date: 1, weekday: 0 }, None);
    context.insert_timer(timer(Host::FirefoxWatcher, "a", 1));
    context.timer_durations.add(Host::FirefoxWatcher, &"in memory".to_string(), 5);
    let mut stored = DurationMap::new();
    stored.add(Host::FirefoxWatcher, &"a".to_string(), 77);
    let snapshot = context.get_daemon_snapshot(stored);
    assert_eq!(snapshot.timers, context.timers);
    assert_eq!(snapshot.durations.get(Host::FirefoxWatcher, &"a".to_string()), Some(77));
    assert_eq!(snapshot.durations.get(Host::FirefoxWatcher, &"in memory".to_string()), None);
}
