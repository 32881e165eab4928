//! The directory watcher's decision core: classifies debounced raw
//! notifications into normalized change events, relativizes their
//! paths against the watched root, and applies the ignore filter.
//!
//! The observation source itself (the OS notification channel) lives
//! outside the library; it hands each debounced notification here
//! together with what a stat of the path showed at processing time.

use vstd::prelude::*;
use crate::config::Config;
use crate::config::ConfigError;
use crate::config::lookup;
use crate::event::ChangeEvent;
use crate::event::EventKind;
use crate::event::EventSource;
use crate::event::EventV;
use crate::paths::rel_spec;
use crate::paths::relativize;
use crate::text::all_digits;
use crate::text::contains_str;
use crate::text::contains_sub;
use crate::text::digits_value;
use crate::text::parse_u64;
use crate::text::str_eq;
use crate::watcher::debounce::RawKind;
use crate::watcher::debounce::RawNotification;
use crate::watcher::debounce::RawNotificationV;

verus! {

/// The mathematical content of a classification outcome.
pub ghost enum ClassifiedV {
    /// Deliver this event.
    Event(EventV),
    /// Surface nothing and keep watching.
    Skip,
}

/// What the watcher does with one debounced raw notification.
#[derive(Debug)]
pub enum Classified {
    /// Deliver this event.
    Event(ChangeEvent),
    /// Surface nothing and keep watching.
    Skip,
}

impl View for Classified {
    type V = ClassifiedV;

    open spec fn view(&self) -> ClassifiedV {
        match self {
            Classified::Event(e) => ClassifiedV::Event(e@),
            Classified::Skip => ClassifiedV::Skip,
        }
    }
}

/// An event carrying only a root-relative new path.
pub open spec fn created_v(rel: Seq<char>, abs: Seq<char>) -> EventV {
    EventV {
        source: EventSource::DirectoryWatch,
        kind: EventKind::Created,
        new_path: rel,
        old_path: Seq::empty(),
        abs_path: abs,
    }
}

/// An event for changed file content.
pub open spec fn modified_v(rel: Seq<char>, abs: Seq<char>) -> EventV {
    EventV {
        source: EventSource::DirectoryWatch,
        kind: EventKind::Modified,
        new_path: rel,
        old_path: Seq::empty(),
        abs_path: abs,
    }
}

/// An event for a vanished path.
pub open spec fn removed_v(rel: Seq<char>, abs: Seq<char>) -> EventV {
    EventV {
        source: EventSource::DirectoryWatch,
        kind: EventKind::Removed,
        new_path: Seq::empty(),
        old_path: rel,
        abs_path: abs,
    }
}

/// An event for a path moved within the watched tree.
pub open spec fn renamed_v(old_rel: Seq<char>, new_rel: Seq<char>) -> EventV {
    EventV {
        source: EventSource::DirectoryWatch,
        kind: EventKind::Renamed,
        new_path: new_rel,
        old_path: old_rel,
        abs_path: Seq::empty(),
    }
}

/// The terminal error event.
pub open spec fn error_v() -> EventV {
    EventV {
        source: EventSource::DirectoryWatch,
        kind: EventKind::Error,
        new_path: Seq::empty(),
        old_path: Seq::empty(),
        abs_path: Seq::empty(),
    }
}

/// How one debounced raw notification is classified, given what a stat
/// of its path showed at processing time.
///
/// A raw create for a path that no longer exists is reclassified as a
/// removal (some editors synthesize a create notification for what is
/// actually a delete). A raw write on a directory is dropped, since
/// directory content changes are a side effect of changes to children.
/// A path that cannot be relativized against the watched root degrades
/// to the error event rather than ending the process.
pub open spec fn classify_spec(
    root: Seq<char>,
    raw: RawNotificationV,
    is_file: bool,
    is_dir: bool,
) -> ClassifiedV {
    match raw.kind {
        RawKind::Create => match rel_spec(root, raw.path) {
            None => ClassifiedV::Event(error_v()),
            Some(rel) => if rel.len() == 0 {
                ClassifiedV::Skip
            } else if is_file || is_dir {
                ClassifiedV::Event(created_v(rel, raw.path))
            } else {
                ClassifiedV::Event(removed_v(rel, Seq::empty()))
            },
        },
        RawKind::Write => if !is_file {
            ClassifiedV::Skip
        } else {
            match rel_spec(root, raw.path) {
                None => ClassifiedV::Event(error_v()),
                Some(rel) => if rel.len() == 0 {
                    ClassifiedV::Skip
                } else {
                    ClassifiedV::Event(modified_v(rel, raw.path))
                },
            }
        },
        RawKind::Remove => match rel_spec(root, raw.path) {
            None => ClassifiedV::Event(error_v()),
            Some(rel) => if rel.len() == 0 {
                ClassifiedV::Skip
            } else {
                ClassifiedV::Event(removed_v(rel, raw.path))
            },
        },
        RawKind::Rename => match (rel_spec(root, raw.old_path), rel_spec(root, raw.path)) {
            (Some(old_rel), Some(new_rel)) => if old_rel.len() == 0 || new_rel.len() == 0
                || old_rel == new_rel {
                ClassifiedV::Skip
            } else {
                ClassifiedV::Event(renamed_v(old_rel, new_rel))
            },
            _ => ClassifiedV::Event(error_v()),
        },
        RawKind::Other => ClassifiedV::Skip,
    }
}

/// The ignore filter: with a pattern other than the sentinel `none`,
/// an event whose new path contains the pattern is suppressed.
pub open spec fn suppressed(ignore: Seq<char>, new_path: Seq<char>) -> bool {
    ignore != "none"@ && contains_sub(new_path, ignore)
}

/// Classification followed by the ignore filter.
pub open spec fn process_spec(
    root: Seq<char>,
    ignore: Seq<char>,
    raw: RawNotificationV,
    is_file: bool,
    is_dir: bool,
) -> ClassifiedV {
    match classify_spec(root, raw, is_file, is_dir) {
        ClassifiedV::Skip => ClassifiedV::Skip,
        ClassifiedV::Event(ev) => if suppressed(ignore, ev.new_path) {
            ClassifiedV::Skip
        } else {
            ClassifiedV::Event(ev)
        },
    }
}

/// The decision core of the directory watcher.
#[derive(Debug)]
pub struct FileWatcherCore {
    /// Absolute path of the watched root.
    pub root: String,
    /// Ignore pattern, or the sentinel `none`.
    pub ignore: String,
    /// Debounce window, in seconds.
    pub interval_secs: u64,
}

impl FileWatcherCore {
    /// Builds the core from the configuration keys `filepath`,
    /// `ignore` and `check_interval_sec`. A missing key or a debounce
    /// interval that is not a plain decimal number is a fatal
    /// configuration error.
    pub fn new(config: &Config) -> (r: Result<FileWatcherCore, ConfigError>)
        ensures
            match r {
                Ok(c) => {
                    &&& lookup(config@, "filepath"@) == Some(c.root@)
                    &&& lookup(config@, "ignore"@) == Some(c.ignore@)
                    &&& (lookup(config@, "check_interval_sec"@) matches Some(s) && s.len() > 0
                        && all_digits(s) && c.interval_secs == digits_value(s))
                },
                Err(e) => {
                    ||| (e == ConfigError::MissingKey && (lookup(config@, "filepath"@) is None
                        || lookup(config@, "ignore"@) is None || lookup(
                        config@,
                        "check_interval_sec"@,
                    ) is None))
                    ||| (e == ConfigError::InvalidInterval && (lookup(
                        config@,
                        "check_interval_sec"@,
                    ) matches Some(s) && (s.len() == 0 || !all_digits(s) || digits_value(s)
                        > u64::MAX)))
                },
            },
    {
        let root = match config.get("filepath") {
            Some(v) => v.clone(),
            None => {
                return Err(ConfigError::MissingKey);
            },
        };
        let ignore = match config.get("ignore") {
            Some(v) => v.clone(),
            None => {
                return Err(ConfigError::MissingKey);
            },
        };
        let interval_str = match config.get("check_interval_sec") {
            Some(v) => v.clone(),
            None => {
                return Err(ConfigError::MissingKey);
            },
        };
        let interval_secs = match parse_u64(interval_str.as_str()) {
            Some(v) => v,
            None => {
                return Err(ConfigError::InvalidInterval);
            },
        };
        Ok(FileWatcherCore { root, ignore, interval_secs })
    }

    /// Classifies one debounced raw notification. `is_file` and
    /// `is_dir` report what a stat of the notification's path showed
    /// at processing time.
    pub fn classify(&self, raw: &RawNotification, is_file: bool, is_dir: bool) -> (r: Classified)
        ensures
            r@ == classify_spec(self.root@, raw@, is_file, is_dir),
            r@ matches ClassifiedV::Event(ev) ==> ev.wf(),
    {
        match raw.kind {
            RawKind::Create => {
                match relativize(self.root.as_str(), raw.path.as_str()) {
                    None => Classified::Event(ChangeEvent::error_event()),
                    Some(rel) => {
                        if rel.as_str().unicode_len() == 0 {
                            Classified::Skip
                        } else if is_file || is_dir {
                            Classified::Event(ChangeEvent::created(rel, raw.path.clone()))
                        } else {
                            Classified::Event(ChangeEvent::removed(rel, String::new()))
                        }
                    },
                }
            },
            RawKind::Write => {
                if !is_file {
                    Classified::Skip
                } else {
                    match relativize(self.root.as_str(), raw.path.as_str()) {
                        None => Classified::Event(ChangeEvent::error_event()),
                        Some(rel) => {
                            if rel.as_str().unicode_len() == 0 {
                                Classified::Skip
                            } else {
                                Classified::Event(ChangeEvent::modified(rel, raw.path.clone()))
                            }
                        },
                    }
                }
            },
            RawKind::Remove => {
                match relativize(self.root.as_str(), raw.path.as_str()) {
                    None => Classified::Event(ChangeEvent::error_event()),
                    Some(rel) => {
                        if rel.as_str().unicode_len() == 0 {
                            Classified::Skip
                        } else {
                            Classified::Event(ChangeEvent::removed(rel, raw.path.clone()))
                        }
                    },
                }
            },
            RawKind::Rename => {
                let old_rel = match relativize(self.root.as_str(), raw.old_path.as_str()) {
                    None => {
                        return Classified::Event(ChangeEvent::error_event());
                    },
                    Some(v) => v,
                };
                let new_rel = match relativize(self.root.as_str(), raw.path.as_str()) {
                    None => {
                        return Classified::Event(ChangeEvent::error_event());
                    },
                    Some(v) => v,
                };
                if old_rel.as_str().unicode_len() == 0 || new_rel.as_str().unicode_len() == 0
                    || str_eq(old_rel.as_str(), new_rel.as_str()) {
                    Classified::Skip
                } else {
                    Classified::Event(ChangeEvent::renamed(old_rel, new_rel))
                }
            },
            RawKind::Other => Classified::Skip,
        }
    }

    /// True when the ignore filter discards an event with this new
    /// path.
    pub fn should_suppress(&self, new_path: &str) -> (r: bool)
        ensures
            r == suppressed(self.ignore@, new_path@),
    {
        if str_eq(self.ignore.as_str(), "none") {
            false
        } else {
            contains_str(new_path, self.ignore.as_str())
        }
    }

    /// Classifies one raw notification and applies the ignore filter:
    /// everything the watcher decides about one debounced notification.
    pub fn process(&self, raw: &RawNotification, is_file: bool, is_dir: bool) -> (r: Classified)
        ensures
            r@ == process_spec(self.root@, self.ignore@, raw@, is_file, is_dir),
            r@ matches ClassifiedV::Event(ev) ==> ev.wf(),
    {
        let classified = self.classify(raw, is_file, is_dir);
        match classified {
            Classified::Skip => Classified::Skip,
            Classified::Event(ev) => {
                if self.should_suppress(ev.new_path.as_str()) {
                    Classified::Skip
                } else {
                    Classified::Event(ev)
                }
            },
        }
    }
}

/// A raw create for a path that no longer exists at processing time is
/// never classified as a creation: it yields a removal when the path
/// relativizes to a non-empty relative path, and the error event when
/// it cannot be relativized at all.
pub proof fn lemma_create_without_file_is_removal(
    root: Seq<char>,
    raw: RawNotificationV,
    is_file: bool,
    is_dir: bool,
)
    requires
        raw.kind == RawKind::Create,
        !is_file,
        !is_dir,
    ensures
        !(classify_spec(root, raw, is_file, is_dir) matches ClassifiedV::Event(ev) && ev.kind
            == EventKind::Created),
        (rel_spec(root, raw.path) matches Some(rel) && rel.len() > 0) ==> classify_spec(
            root,
            raw,
            is_file,
            is_dir,
        ) == ClassifiedV::Event(removed_v(rel_spec(root, raw.path).unwrap(), Seq::empty())),
{
}

/// The ignore filter law: the sentinel pattern `none` suppresses
/// nothing, and any other pattern that is contained in an event's new
/// path suppresses that event entirely.
pub proof fn lemma_ignore_filter(
    root: Seq<char>,
    ignore: Seq<char>,
    raw: RawNotificationV,
    is_file: bool,
    is_dir: bool,
)
    ensures
        ignore == "none"@ ==> process_spec(root, ignore, raw, is_file, is_dir) == classify_spec(
            root,
            raw,
            is_file,
            is_dir,
        ),
        (classify_spec(root, raw, is_file, is_dir) matches ClassifiedV::Event(ev) && ignore
            != "none"@ && contains_sub(ev.new_path, ignore)) ==> process_spec(
            root,
            ignore,
            raw,
            is_file,
            is_dir,
        ) == ClassifiedV::Skip,
{
}

} // verus!
