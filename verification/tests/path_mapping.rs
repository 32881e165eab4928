use watchsync::config::Config;
use watchsync::doer::remotesync::RemoteSyncCore;
use watchsync::paths::PathMappingError;
use watchsync::paths::get_basename;
use watchsync::paths::join_path;
use watchsync::paths::map_to_remote;
use watchsync::paths::normalize_separators;
use watchsync::paths::parent_dir;
use watchsync::paths::relativize;

#[test]
fn test_get_basename() {
    let res = get_basename("/path/test/test1.txt").unwrap();
    assert_eq!(res, "test1.txt");
    let res = get_basename("c:\\Users\\abs\\test2.txt").unwrap();
    assert_eq!(res, "test2.txt");
    let res = get_basename("/path/test_dir/").unwrap();
    assert_eq!(res, "test_dir");
    let res = get_basename("/path/test_dir2/  ").unwrap();
    assert_eq!(res, "test_dir2");
}

fn construct_config() -> Config {
    let mut c = Config::new();
    c.add(
        String::from("remote_ip_port"),
        String::from("xxx.xxx.xxx.xx:22"),
    );
    c.add(String::from("user"), String::from("xxxx"));
    c.add(String::from("password"), String::from("xxxx"));
    c.add(String::from("remote_dir"), String::from("/home/zhiqilin/test1"));
    c.add(String::from("local_dir"), String::from("C::\\Users\\zhiqilin\\test1\\"));
    c
}

#[test]
fn test_to_remote_filepath() {
    let config = construct_config();
    let syncer = RemoteSyncCore::new(&config).unwrap();
    let res = map_to_remote(
        &syncer.local_dir,
        &syncer.remote_dir,
        "C:\\Users\\zhiqilin\\test1\\test\\abc.txt",
    );
    assert_eq!(res.unwrap(), "/home/zhiqilin/test1/test/abc.txt")
}

#[test]
fn map_to_remote_mirrors_subtree() {
    let res = map_to_remote("/a/b/proj", "/x/y/proj", "/a/b/proj/src/f.rs");
    assert_eq!(res.unwrap(), "/x/y/proj/src/f.rs");
}

#[test]
fn map_to_remote_without_basename_segment_fails() {
    let res = map_to_remote("/a/b/proj", "/x/y/proj", "/somewhere/else/f.rs");
    assert_eq!(res.unwrap_err(), PathMappingError::BasenameNotInPath);
    // the basename must stand as a whole segment, not a substring
    let res = map_to_remote("/a/b/proj", "/x/y/proj", "/a/b/projects/f.rs");
    assert_eq!(res.unwrap_err(), PathMappingError::BasenameNotInPath);
}

#[test]
fn map_to_remote_empty_path_is_noop() {
    let res = map_to_remote("/a/b/proj", "/x/y/proj", "");
    assert_eq!(res.unwrap(), "");
}

#[test]
fn map_to_remote_without_root_basename_fails() {
    let res = map_to_remote("///", "/x/y/proj", "/a/b/f.rs");
    assert_eq!(res.unwrap_err(), PathMappingError::NoRootBasename);
}

#[test]
fn map_to_remote_picks_rightmost_occurrence() {
    let res = map_to_remote("/a/proj", "/r/proj", "/a/proj/x/proj/f.rs");
    assert_eq!(res.unwrap(), "/r/proj/f.rs");
}

#[test]
fn get_basename_of_separators_fails() {
    assert_eq!(
        get_basename("/ // ").unwrap_err(),
        PathMappingError::NoRootBasename
    );
    assert_eq!(get_basename("").unwrap_err(), PathMappingError::NoRootBasename);
}

#[test]
fn normalize_separators_rewrites_backslashes() {
    assert_eq!(normalize_separators("a\\b\\c.txt"), "a/b/c.txt");
    assert_eq!(normalize_separators("a/b"), "a/b");
}

#[test]
fn join_path_inserts_one_separator() {
    assert_eq!(join_path("/a/b", "c.txt"), "/a/b/c.txt");
    assert_eq!(join_path("/a/b/", "c.txt"), "/a/b/c.txt");
    assert_eq!(join_path("/a/b", ""), "/a/b");
}

#[test]
fn relativize_strips_the_root() {
    assert_eq!(relativize("/w/root", "/w/root/d/f.txt").unwrap(), "d/f.txt");
    assert_eq!(relativize("/w/root/", "/w/root/f.txt").unwrap(), "f.txt");
    assert_eq!(relativize("C:\\w\\root", "C:\\w\\root\\f.txt").unwrap(), "f.txt");
    assert_eq!(relativize("/w/root", "/w/root").unwrap(), "");
    assert!(relativize("/w/root", "/other/f.txt").is_none());
    assert!(relativize("/w/root", "/w/rootless/f.txt").is_none());
}

#[test]
fn parent_dir_cuts_at_last_slash() {
    assert_eq!(parent_dir("/a/b/c.txt"), "/a/b");
    assert_eq!(parent_dir("c.txt"), "");
    assert_eq!(parent_dir("/c.txt"), "");
}
