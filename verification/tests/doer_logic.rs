use watchsync::config::Config;
use watchsync::config::ConfigError;
use watchsync::doer::base::MyDoer;
use watchsync::doer::base::Status;
use watchsync::doer::emptydoer::EmptyDoer;
use watchsync::doer::remotesync::RemoteAction;
use watchsync::doer::remotesync::RemoteSyncCore;
use watchsync::doer::remotesync::interpret_command_output;
use watchsync::doer::remotesync::mkdir_command;
use watchsync::doer::remotesync::move_command;
use watchsync::doer::remotesync::remove_command;
use watchsync::doer::remotesync::upload_target_path;
use watchsync::event::ChangeEvent;
use watchsync::wire::encode_event;

fn sync_config() -> Config {
    let mut c = Config::new();
    c.add(String::from("remote_ip_port"), String::from("203.0.113.5:22"));
    c.add(String::from("user"), String::from("mirror"));
    c.add(String::from("password"), String::from("SECRET-REDACTED"));
    c.add(String::from("remote_dir"), String::from("/srv/mirror/proj"));
    c.add(String::from("local_dir"), String::from("/home/dev/proj"));
    c
}

fn syncer() -> RemoteSyncCore {
    RemoteSyncCore::new(&sync_config()).unwrap()
}

#[test]
fn sync_core_missing_key_is_fatal() {
    let mut c = Config::new();
    c.add(String::from("remote_ip_port"), String::from("203.0.113.5:22"));
    assert_eq!(RemoteSyncCore::new(&c).unwrap_err(), ConfigError::MissingKey);
}

#[test]
fn sync_core_rejects_mismatched_mirror_roots() {
    let mut c = Config::new();
    c.add(String::from("remote_ip_port"), String::from("203.0.113.5:22"));
    c.add(String::from("user"), String::from("mirror"));
    c.add(String::from("password"), String::from("SECRET-REDACTED"));
    c.add(String::from("remote_dir"), String::from("/srv/mirror/other"));
    c.add(String::from("local_dir"), String::from("/home/dev/proj"));
    assert_eq!(
        RemoteSyncCore::new(&c).unwrap_err(),
        ConfigError::MirrorRootMismatch
    );
}

#[test]
fn created_event_plans_an_upload() {
    let ev = ChangeEvent::created(String::from("src/f.rs"), String::from("/home/dev/proj/src/f.rs"));
    match syncer().plan_action(&ev) {
        RemoteAction::Upload { local_abs, remote_path, remote_parent } => {
            assert_eq!(local_abs, "/home/dev/proj/src/f.rs");
            assert_eq!(remote_path, "/srv/mirror/proj/src/f.rs");
            assert_eq!(remote_parent, "/srv/mirror/proj/src");
        },
        _ => panic!("upload expected"),
    }
}

#[test]
fn renamed_event_plans_one_move() {
    let ev = ChangeEvent::renamed(String::from("a.txt"), String::from("b.txt"));
    match syncer().plan_action(&ev) {
        RemoteAction::Move { from, to } => {
            assert_eq!(from, "/srv/mirror/proj/a.txt");
            assert_eq!(to, "/srv/mirror/proj/b.txt");
        },
        _ => panic!("move expected"),
    }
}

#[test]
fn removed_event_plans_one_recursive_delete() {
    let ev = ChangeEvent::removed(String::from("dir1"), String::new());
    match syncer().plan_action(&ev) {
        RemoteAction::RemoveRecursive { path } => {
            assert_eq!(path, "/srv/mirror/proj/dir1");
        },
        _ => panic!("recursive delete expected"),
    }
}

#[test]
fn error_event_is_surfaced_unchanged() {
    let ev = ChangeEvent::error_event();
    assert!(matches!(syncer().plan_action(&ev), RemoteAction::SurfaceError));
}

#[test]
fn dispatch_preserves_event_order() {
    let events = vec![
        ChangeEvent::created(String::from("n/f.txt"), String::from("/home/dev/proj/n/f.txt")),
        ChangeEvent::removed(String::from("n/f.txt"), String::new()),
    ];
    let plans = syncer().plan_events(&events);
    assert_eq!(plans.len(), 2);
    assert!(matches!(&plans[0], RemoteAction::Upload { .. }));
    match &plans[1] {
        RemoteAction::RemoveRecursive { path } => assert_eq!(path, "/srv/mirror/proj/n/f.txt"),
        _ => panic!("recursive delete expected second"),
    }
}

#[test]
fn plan_from_wire_follows_the_wire_contract() {
    let ev = ChangeEvent::renamed(String::from("a.txt"), String::from("b.txt"));
    let wire = encode_event(&ev);
    match syncer().plan_from_wire(&wire) {
        Ok(RemoteAction::Move { from, to }) => {
            assert_eq!(from, "/srv/mirror/proj/a.txt");
            assert_eq!(to, "/srv/mirror/proj/b.txt");
        },
        _ => panic!("move expected"),
    }
    let err = syncer().plan_from_wire("{\"event\":\"EmptyWatcher\"}").unwrap_err();
    assert_eq!(err, "Currently Only support FileWatcher");
}

#[test]
fn command_output_policy_is_empty_means_ok() {
    assert!(matches!(interpret_command_output(String::new()), Status::OkNone));
    match interpret_command_output(String::from("mv: cannot stat 'a.txt'")) {
        Status::Error(m) => assert_eq!(m, "mv: cannot stat 'a.txt'"),
        _ => panic!("error expected"),
    }
}

#[test]
fn remote_commands_are_built_verbatim() {
    assert_eq!(move_command("~/a.txt", "~/b.txt"), "mv ~/a.txt ~/b.txt");
    assert_eq!(remove_command("~/d", true), "rm -r ~/d");
    assert_eq!(remove_command("~/f.txt", false), "rm ~/f.txt");
    assert_eq!(mkdir_command("/srv/mirror/proj/src"), "mkdir -p /srv/mirror/proj/src");
}

#[test]
fn upload_target_joins_directory_and_basename() {
    assert_eq!(
        upload_target_path("aaa/bbb/cc", "file/dir").unwrap(),
        "file/dir/cc"
    );
    assert_eq!(
        upload_target_path("aa\\bdd\\cc", "file\\dir\\").unwrap(),
        "file\\dir\\cc"
    );
}

#[test]
fn empty_doer_accepts_everything() {
    let d = EmptyDoer::new(&Config::new());
    assert!(matches!(d.get(String::from("anything")), Status::OkNone));
}
