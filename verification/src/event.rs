//! The normalized representation of one filesystem change, as handed
//! from a watcher to a doer.
//!
//! Paths in an event are always relative to the watched root, so that
//! they transfer unambiguously to the remote mapper; `abs_path` keeps
//! the absolute local form of `new_path` when one is known, for local
//! stat checks only.

use vstd::prelude::*;

verus! {

/// The change class of an event.
#[derive(Clone, Copy, PartialEq, Eq, Structural, Debug)]
pub enum EventKind {
    Created,
    Modified,
    Removed,
    Renamed,
    Error,
}

/// Which kind of watcher produced an event. Only the directory watcher
/// is in scope.
#[derive(Clone, Copy, PartialEq, Eq, Structural, Debug)]
pub enum EventSource {
    DirectoryWatch,
}

/// The mathematical content of a `ChangeEvent`.
pub ghost struct EventV {
    pub source: EventSource,
    pub kind: EventKind,
    pub new_path: Seq<char>,
    pub old_path: Seq<char>,
    pub abs_path: Seq<char>,
}

impl EventV {
    /// Which path fields each change class fills: `Created` and
    /// `Modified` carry only the new path, `Removed` only the old one,
    /// `Renamed` two distinct non-empty paths, `Error` none.
    pub open spec fn wf(self) -> bool {
        match self.kind {
            EventKind::Created => self.new_path.len() > 0 && self.old_path.len() == 0,
            EventKind::Modified => self.new_path.len() > 0 && self.old_path.len() == 0,
            EventKind::Removed => self.old_path.len() > 0 && self.new_path.len() == 0,
            EventKind::Renamed => self.new_path.len() > 0 && self.old_path.len() > 0
                && self.new_path != self.old_path,
            EventKind::Error => self.new_path.len() == 0 && self.old_path.len() == 0,
        }
    }
}

/// One normalized filesystem change. Constructed once per debounced
/// notification inside the watcher, immutable afterwards.
#[derive(Debug)]
pub struct ChangeEvent {
    pub source: EventSource,
    pub kind: EventKind,
    pub new_path: String,
    pub old_path: String,
    pub abs_path: String,
}

impl View for ChangeEvent {
    type V = EventV;

    open spec fn view(&self) -> EventV {
        EventV {
            source: self.source,
            kind: self.kind,
            new_path: self.new_path@,
            old_path: self.old_path@,
            abs_path: self.abs_path@,
        }
    }
}

impl ChangeEvent {
    /// The path-field invariant of the event.
    pub open spec fn wf(&self) -> bool {
        self@.wf()
    }

    /// Decides the path-field invariant at run time.
    pub fn check_wf(&self) -> (r: bool)
        ensures
            r == self.wf(),
    {
        let new_len = self.new_path.as_str().unicode_len();
        let old_len = self.old_path.as_str().unicode_len();
        match self.kind {
            EventKind::Created => new_len > 0 && old_len == 0,
            EventKind::Modified => new_len > 0 && old_len == 0,
            EventKind::Removed => old_len > 0 && new_len == 0,
            EventKind::Renamed => new_len > 0 && old_len > 0 && !crate::text::str_eq(
                self.new_path.as_str(),
                self.old_path.as_str(),
            ),
            EventKind::Error => new_len == 0 && old_len == 0,
        }
    }

    /// An event for a path that has appeared under the watched root.
    pub fn created(new_path: String, abs_path: String) -> (r: ChangeEvent)
        requires
            new_path@.len() > 0,
        ensures
            r@ == (EventV {
                source: EventSource::DirectoryWatch,
                kind: EventKind::Created,
                new_path: new_path@,
                old_path: Seq::empty(),
                abs_path: abs_path@,
            }),
            r.wf(),
    {
        let r = ChangeEvent {
            source: EventSource::DirectoryWatch,
            kind: EventKind::Created,
            new_path,
            old_path: String::new(),
            abs_path,
        };
        r
    }

    /// An event for a file whose content has changed.
    pub fn modified(new_path: String, abs_path: String) -> (r: ChangeEvent)
        requires
            new_path@.len() > 0,
        ensures
            r@ == (EventV {
                source: EventSource::DirectoryWatch,
                kind: EventKind::Modified,
                new_path: new_path@,
                old_path: Seq::empty(),
                abs_path: abs_path@,
            }),
            r.wf(),
    {
        let r = ChangeEvent {
            source: EventSource::DirectoryWatch,
            kind: EventKind::Modified,
            new_path,
            old_path: String::new(),
            abs_path,
        };
        r
    }

    /// An event for a path that is gone from the watched root.
    pub fn removed(old_path: String, abs_path: String) -> (r: ChangeEvent)
        requires
            old_path@.len() > 0,
        ensures
            r@ == (EventV {
                source: EventSource::DirectoryWatch,
                kind: EventKind::Removed,
                new_path: Seq::empty(),
                old_path: old_path@,
                abs_path: abs_path@,
            }),
            r.wf(),
    {
        let r = ChangeEvent {
            source: EventSource::DirectoryWatch,
            kind: EventKind::Removed,
            new_path: String::new(),
            old_path,
            abs_path,
        };
        r
    }

    /// An event for a path that moved within the watched root.
    pub fn renamed(old_path: String, new_path: String) -> (r: ChangeEvent)
        requires
            old_path@.len() > 0,
            new_path@.len() > 0,
            old_path@ != new_path@,
        ensures
            r@ == (EventV {
                source: EventSource::DirectoryWatch,
                kind: EventKind::Renamed,
                new_path: new_path@,
                old_path: old_path@,
                abs_path: Seq::empty(),
            }),
            r.wf(),
    {
        let r = ChangeEvent {
            source: EventSource::DirectoryWatch,
            kind: EventKind::Renamed,
            new_path,
            old_path,
            abs_path: String::new(),
        };
        r
    }

    /// The terminal event: the notification source failed or a path
    /// could not be relativized.
    pub fn error_event() -> (r: ChangeEvent)
        ensures
            r@ == (EventV {
                source: EventSource::DirectoryWatch,
                kind: EventKind::Error,
                new_path: Seq::empty(),
                old_path: Seq::empty(),
                abs_path: Seq::empty(),
            }),
            r.wf(),
    {
        let r = ChangeEvent {
            source: EventSource::DirectoryWatch,
            kind: EventKind::Error,
            new_path: String::new(),
            old_path: String::new(),
            abs_path: String::new(),
        };
        r
    }
}

} // verus!
