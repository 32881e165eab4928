use watchsync::config::Config;
use watchsync::config::ConfigError;
use watchsync::event::EventKind;
use watchsync::watcher::base::MyWatcher;
use watchsync::watcher::debounce::RawArrival;
use watchsync::watcher::debounce::RawKind;
use watchsync::watcher::debounce::RawNotification;
use watchsync::watcher::debounce::debounce_batch;
use watchsync::watcher::emptywatcher::EmptyWatcher;
use watchsync::watcher::filewatcher::Classified;
use watchsync::watcher::filewatcher::FileWatcherCore;

fn watcher_config(root: &str, ignore: &str, interval: &str) -> Config {
    let mut c = Config::new();
    c.add(String::from("filepath"), String::from(root));
    c.add(String::from("ignore"), String::from(ignore));
    c.add(String::from("check_interval_sec"), String::from(interval));
    c
}

fn make_core(root: &str, ignore: &str) -> FileWatcherCore {
    FileWatcherCore::new(&watcher_config(root, ignore, "2")).unwrap()
}

fn raw(kind: RawKind, path: &str) -> RawNotification {
    RawNotification {
        kind,
        path: String::from(path),
        old_path: String::new(),
    }
}

fn arrival(path: &str, at_ms: u64) -> RawArrival {
    RawArrival {
        notif: raw(RawKind::Write, path),
        at_ms,
    }
}

#[test]
fn watcher_core_reads_its_configuration() {
    let w = make_core("/w/root", "none");
    assert_eq!(w.root, "/w/root");
    assert_eq!(w.ignore, "none");
    assert_eq!(w.interval_secs, 2);
}

#[test]
fn watcher_core_missing_key_is_fatal() {
    let mut c = Config::new();
    c.add(String::from("filepath"), String::from("/w"));
    assert_eq!(FileWatcherCore::new(&c).unwrap_err(), ConfigError::MissingKey);
}

#[test]
fn watcher_core_bad_interval_is_fatal() {
    let c = watcher_config("/w", "none", "2s");
    assert_eq!(FileWatcherCore::new(&c).unwrap_err(), ConfigError::InvalidInterval);
    let c = watcher_config("/w", "none", "18446744073709551616");
    assert_eq!(FileWatcherCore::new(&c).unwrap_err(), ConfigError::InvalidInterval);
}

#[test]
fn create_of_existing_file_is_created() {
    let w = make_core("/w/root", "none");
    let r = w.process(&raw(RawKind::Create, "/w/root/d/f.txt"), true, false);
    match r {
        Classified::Event(e) => {
            assert_eq!(e.kind, EventKind::Created);
            assert_eq!(e.new_path, "d/f.txt");
            assert_eq!(e.old_path, "");
            assert_eq!(e.abs_path, "/w/root/d/f.txt");
        },
        Classified::Skip => panic!("event expected"),
    }
}

#[test]
fn create_of_vanished_path_is_removed() {
    let w = make_core("/w/root", "none");
    let r = w.process(&raw(RawKind::Create, "/w/root/gone.txt"), false, false);
    match r {
        Classified::Event(e) => {
            assert_eq!(e.kind, EventKind::Removed);
            assert_eq!(e.old_path, "gone.txt");
            assert_eq!(e.new_path, "");
        },
        Classified::Skip => panic!("event expected"),
    }
}

#[test]
fn write_on_directory_is_dropped() {
    let w = make_core("/w/root", "none");
    let r = w.process(&raw(RawKind::Write, "/w/root/subdir"), false, true);
    assert!(matches!(r, Classified::Skip));
}

#[test]
fn write_on_file_is_modified() {
    let w = make_core("/w/root", "none");
    let r = w.process(&raw(RawKind::Write, "/w/root/f.txt"), true, false);
    match r {
        Classified::Event(e) => {
            assert_eq!(e.kind, EventKind::Modified);
            assert_eq!(e.new_path, "f.txt");
        },
        Classified::Skip => panic!("event expected"),
    }
}

#[test]
fn remove_is_removed_unconditionally() {
    let w = make_core("/w/root", "none");
    let r = w.process(&raw(RawKind::Remove, "/w/root/f.txt"), false, false);
    match r {
        Classified::Event(e) => {
            assert_eq!(e.kind, EventKind::Removed);
            assert_eq!(e.old_path, "f.txt");
        },
        Classified::Skip => panic!("event expected"),
    }
}

#[test]
fn rename_carries_both_relative_paths() {
    let w = make_core("/w/root", "none");
    let n = RawNotification {
        kind: RawKind::Rename,
        path: String::from("/w/root/b.txt"),
        old_path: String::from("/w/root/a.txt"),
    };
    let r = w.process(&n, true, false);
    match r {
        Classified::Event(e) => {
            assert_eq!(e.kind, EventKind::Renamed);
            assert_eq!(e.old_path, "a.txt");
            assert_eq!(e.new_path, "b.txt");
        },
        Classified::Skip => panic!("event expected"),
    }
}

#[test]
fn path_outside_root_degrades_to_error_event() {
    let w = make_core("/w/root", "none");
    let r = w.process(&raw(RawKind::Remove, "/elsewhere/f.txt"), false, false);
    match r {
        Classified::Event(e) => {
            assert_eq!(e.kind, EventKind::Error);
            assert_eq!(e.new_path, "");
            assert_eq!(e.old_path, "");
        },
        Classified::Skip => panic!("event expected"),
    }
}

#[test]
fn ignore_pattern_suppresses_matching_events() {
    let w = make_core("/w/root", ".swp");
    let r = w.process(&raw(RawKind::Write, "/w/root/f.txt.swp"), true, false);
    assert!(matches!(r, Classified::Skip));
    // a pattern contained in every path suppresses every event
    let w = make_core("/w/root", "f");
    let r = w.process(&raw(RawKind::Write, "/w/root/f1.txt"), true, false);
    assert!(matches!(r, Classified::Skip));
    let r = w.process(&raw(RawKind::Create, "/w/root/file2"), true, false);
    assert!(matches!(r, Classified::Skip));
}

#[test]
fn ignore_sentinel_none_suppresses_nothing() {
    let w = make_core("/w/root", "none");
    let r = w.process(&raw(RawKind::Write, "/w/root/none.txt"), true, false);
    assert!(matches!(r, Classified::Event(_)));
}

#[test]
fn debounce_keeps_one_event_per_burst() {
    // create + write + write for the same path inside one window
    let batch = vec![
        arrival("/w/root/f.txt", 0),
        arrival("/w/root/f.txt", 500),
        arrival("/w/root/f.txt", 900),
    ];
    let kept = debounce_batch(&batch, 1000);
    assert_eq!(kept.len(), 1);
    assert_eq!(kept[0].at_ms, 900);
    assert_eq!(kept[0].notif.path, "/w/root/f.txt");
}

#[test]
fn debounce_keeps_separate_paths_and_late_arrivals() {
    let batch = vec![
        arrival("/w/root/a.txt", 0),
        arrival("/w/root/b.txt", 100),
        arrival("/w/root/a.txt", 5000),
    ];
    let kept = debounce_batch(&batch, 1000);
    assert_eq!(kept.len(), 3);
    assert_eq!(kept[0].notif.path, "/w/root/a.txt");
    assert_eq!(kept[1].notif.path, "/w/root/b.txt");
    assert_eq!(kept[2].at_ms, 5000);
}

#[test]
fn empty_watcher_reports_only_its_tag() {
    let w = EmptyWatcher::new(&Config::new());
    assert_eq!(w.get(), "{\"event\":\"EmptyWatcher\"}");
}
