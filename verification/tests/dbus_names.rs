use activity_warden::dbus::{DBus, Host, Interface};
use std::str::FromStr;

#[test]
fn host_names_are_lowercase_tags() {
    assert_eq!(Host::UserDaemon.to_string(), "user_daemon");
    assert_eq!(Host::FirefoxWatcher.to_string(), "firefox_watcher");
    assert_eq!(Host::GnomeApplication.to_string(), "gnome_application");
    assert_eq!(Host::GnomeExtension.to_string(), "gnome_extension");
}

#[test]
fn host_parses_without_regard_to_case() {
    assert_eq!(Host::from_str("user_daemon"), Ok(Host::UserDaemon));
    assert_eq!(Host::from_str("Firefox_Watcher"), Ok(Host::FirefoxWatcher));
    assert_eq!(Host::from_str("GNOME_APPLICATION"), Ok(Host::GnomeApplication));
    assert_eq!(Host::from_str("gnome_extension"), Ok(Host::GnomeExtension));
}

#[test]
fn unknown_host_is_rejected_with_its_text() {
    assert_eq!(Host::from_str("Teal"), Err("'Teal' is not a valid color".to_string()));
    assert_eq!(Host::from_str(""), Err("'' is not a valid color".to_string()));
}

#[test]
fn bus_names_and_paths() {
    assert_eq!(DBus::host_name(&Host::UserDaemon), "com.activity_warden.user_daemon");
    assert_eq!(
        DBus::object_path(&Host::UserDaemon, &Interface::EventBus),
        "/com/activity_warden/user_daemon/EventBus"
    );
    assert_eq!(
        DBus::object_path(&Host::FirefoxWatcher, &Interface::Watcher),
        "/com/activity_warden/firefox_watcher/Watcher"
    );
    assert_eq!(DBus::interface_name(&Interface::DaemonContext), "com.activity_warden.DaemonContext");
}

#[test]
fn host_parses_through_the_standard_trait() {
    assert_eq!("firefox_watcher".parse::<Host>(), Ok(Host::FirefoxWatcher));
    assert_eq!("User_Daemon".parse::<Host>(), Ok(Host::UserDaemon));
    assert!("daemon".parse::<Host>().is_err());
}

#[test]
fn a_name_round_trips_through_its_host() {
    for host in [Host::UserDaemon, Host::FirefoxWatcher, Host::GnomeApplication, Host::GnomeExtension] {
        assert_eq!(Host::from_str(&host.to_string()), Ok(host));
        assert_eq!(Host::from_canonical(host.as_str()), Some(host));
    }
    assert_eq!(Host::from_canonical("User_Daemon"), None);
}

#[test]
fn interfaces_are_named_in_capitals() {
    assert_eq!(Interface::EventBus.to_string(), "EventBus");
    assert_eq!(Interface::Watcher.to_string(), "Watcher");
    assert_eq!(Interface::DaemonContext.as_str(), "DaemonContext");
    assert_eq!(DBus::interface_name(&Interface::Watcher), "com.activity_warden.Watcher");
    assert_eq!(DBus::host_name(&Host::GnomeApplication), "com.activity_warden.gnome_application");
    assert_eq!(DBus::BASE_URL, "com.activity_warden");
    assert_eq!(DBus::BASE_PATH, "/com/activity_warden");
}

#[test]
fn the_standard_trait_parses_as_the_host_does() {
    for text in ["user_daemon", "FIREFOX_WATCHER", "Gnome_Application", "gnome_extension", "", "x"] {
        assert_eq!(<Host as FromStr>::from_str(text), Host::from_str(text));
    }
    assert_eq!(
        <Host as FromStr>::from_str("Gnome_Extension"),
        Ok(Host::GnomeExtension)
    );
    assert_eq!(
        <Host as FromStr>::from_str("gnome"),
        Err("'gnome' is not a valid color".to_string())
    );
}
