//! The remote mirroring doer's decision core: translates each change
//! event into the one idempotent remote operation that mirrors it, and
//! judges the output of remote commands.
//!
//! The authenticated transport (an SSH session over a TCP stream) is an
//! I/O shell outside the library; it executes the actions planned here
//! and hands the captured command output back to
//! `interpret_command_output`.

use vstd::prelude::*;
use crate::config::Config;
use crate::config::ConfigError;
use crate::config::lookup;
use crate::doer::base::Status;
use crate::event::ChangeEvent;
use crate::event::EventKind;
use crate::event::EventV;
use crate::paths::PathMappingError;
use crate::paths::basename_of;
use crate::paths::get_basename;
use crate::paths::is_seg_at;
use crate::paths::join_path;
use crate::paths::join_spec;
use crate::paths::lemma_base_segment_in_join;
use crate::paths::lemma_rightmost_seg_some;
use crate::paths::map_spec;
use crate::paths::map_to_remote;
use crate::paths::norm_seps;
use crate::paths::parent_dir;
use crate::paths::parent_spec;
use crate::text::str_eq;
use crate::wire::decode_event;
use crate::wire::decode_spec;

verus! {

/// The mathematical content of a planned remote operation.
pub ghost enum RemoteActionV {
    /// Ensure the remote parent directory exists, then transfer the
    /// whole current content of the local file to the remote path,
    /// overwriting unconditionally.
    Upload { local_abs: Seq<char>, remote_path: Seq<char>, remote_parent: Seq<char> },
    /// Move the remote file or directory.
    Move { from: Seq<char>, to: Seq<char> },
    /// Delete the remote path, recursively.
    RemoveRecursive { path: Seq<char> },
    /// No remote operation: the watcher reported a terminal error,
    /// which is surfaced to the caller unchanged.
    SurfaceError,
}

/// The one remote operation that mirrors a change event.
#[derive(Debug)]
pub enum RemoteAction {
    /// Ensure the remote parent directory exists, then transfer the
    /// whole current content of the local file to the remote path,
    /// overwriting unconditionally.
    Upload { local_abs: String, remote_path: String, remote_parent: String },
    /// Move the remote file or directory.
    Move { from: String, to: String },
    /// Delete the remote path, recursively.
    RemoveRecursive { path: String },
    /// No remote operation: the watcher reported a terminal error,
    /// which is surfaced to the caller unchanged.
    SurfaceError,
}

impl View for RemoteAction {
    type V = RemoteActionV;

    open spec fn view(&self) -> RemoteActionV {
        match self {
            RemoteAction::Upload { local_abs, remote_path, remote_parent } => RemoteActionV::Upload {
                local_abs: local_abs@,
                remote_path: remote_path@,
                remote_parent: remote_parent@,
            },
            RemoteAction::Move { from, to } => RemoteActionV::Move { from: from@, to: to@ },
            RemoteAction::RemoveRecursive { path } => RemoteActionV::RemoveRecursive {
                path: path@,
            },
            RemoteAction::SurfaceError => RemoteActionV::SurfaceError,
        }
    }
}

/// The remote path of a root-relative event path: the event path is
/// placed back under the local mirror root and mapped through the path
/// mapper.
pub open spec fn mapped(ld: Seq<char>, rd: Seq<char>, rel: Seq<char>) -> Option<Seq<char>> {
    map_spec(ld, rd, join_spec(ld, rel))
}

/// The dispatch table of the remote mirroring doer: which remote
/// operation mirrors each change class. `None` when a path of the
/// event cannot be mapped.
pub open spec fn plan_spec(ld: Seq<char>, rd: Seq<char>, ev: EventV) -> Option<RemoteActionV> {
    match ev.kind {
        EventKind::Created | EventKind::Modified => match mapped(ld, rd, ev.new_path) {
            None => None,
            Some(rp) => Some(
                RemoteActionV::Upload {
                    local_abs: join_spec(ld, ev.new_path),
                    remote_path: rp,
                    remote_parent: parent_spec(rp),
                },
            ),
        },
        EventKind::Renamed => match (mapped(ld, rd, ev.old_path), mapped(ld, rd, ev.new_path)) {
            (Some(from), Some(to)) => Some(RemoteActionV::Move { from, to }),
            _ => None,
        },
        EventKind::Removed => match mapped(ld, rd, ev.old_path) {
            None => None,
            Some(rp) => Some(RemoteActionV::RemoveRecursive { path: rp }),
        },
        EventKind::Error => Some(RemoteActionV::SurfaceError),
    }
}

/// The plans of a whole event sequence, in event order.
pub open spec fn plan_all(ld: Seq<char>, rd: Seq<char>, evs: Seq<EventV>) -> Seq<
    Option<RemoteActionV>,
> {
    evs.map_values(|e: EventV| plan_spec(ld, rd, e))
}

/// A well-formed mirror mapping together with the remote account it is
/// reached under.
#[derive(Debug)]
pub struct RemoteSyncCore {
    pub ip_port: String,
    pub user: String,
    pub password: String,
    pub remote_dir: String,
    pub local_dir: String,
}

impl RemoteSyncCore {
    /// The mirror-root invariant: the local and remote roots share
    /// their final path component, so that relative sub-paths below
    /// that leaf are identical on both sides.
    pub open spec fn wf(self) -> bool {
        &&& basename_of(self.local_dir@) is Some
        &&& basename_of(self.local_dir@) == basename_of(self.remote_dir@)
    }

    /// Builds the core from the configuration keys `remote_ip_port`,
    /// `user`, `password`, `remote_dir` and `local_dir`, and validates
    /// the mirror-root invariant. A missing key or a violated
    /// invariant is a fatal configuration error.
    pub fn new(config: &Config) -> (r: Result<RemoteSyncCore, ConfigError>)
        ensures
            match r {
                Ok(c) => {
                    &&& lookup(config@, "remote_ip_port"@) == Some(c.ip_port@)
                    &&& lookup(config@, "user"@) == Some(c.user@)
                    &&& lookup(config@, "password"@) == Some(c.password@)
                    &&& lookup(config@, "remote_dir"@) == Some(c.remote_dir@)
                    &&& lookup(config@, "local_dir"@) == Some(c.local_dir@)
                    &&& c.wf()
                },
                Err(e) => {
                    ||| (e == ConfigError::MissingKey && (lookup(config@, "remote_ip_port"@) is None
                        || lookup(config@, "user"@) is None || lookup(config@, "password"@) is None
                        || lookup(config@, "remote_dir"@) is None || lookup(
                        config@,
                        "local_dir"@,
                    ) is None))
                    ||| (e == ConfigError::MirrorRootMismatch && (lookup(
                        config@,
                        "local_dir"@,
                    ) matches Some(ld) && lookup(config@, "remote_dir"@) matches Some(rd) && !(
                    basename_of(ld) is Some && basename_of(ld) == basename_of(rd))))
                },
            },
    {
        let ip_port = match config.get("remote_ip_port") {
            Some(v) => v.clone(),
            None => {
                return Err(ConfigError::MissingKey);
            },
        };
        let user = match config.get("user") {
            Some(v) => v.clone(),
            None => {
                return Err(ConfigError::MissingKey);
            },
        };
        let password = match config.get("password") {
            Some(v) => v.clone(),
            None => {
                return Err(ConfigError::MissingKey);
            },
        };
        let remote_dir = match config.get("remote_dir") {
            Some(v) => v.clone(),
            None => {
                return Err(ConfigError::MissingKey);
            },
        };
        let local_dir = match config.get("local_dir") {
            Some(v) => v.clone(),
            None => {
                return Err(ConfigError::MissingKey);
            },
        };
        let local_base = match get_basename(local_dir.as_str()) {
            Ok(b) => b,
            Err(_) => {
                return Err(ConfigError::MirrorRootMismatch);
            },
        };
        let remote_base = match get_basename(remote_dir.as_str()) {
            Ok(b) => b,
            Err(_) => {
                return Err(ConfigError::MirrorRootMismatch);
            },
        };
        if !str_eq(local_base.as_str(), remote_base.as_str()) {
            return Err(ConfigError::MirrorRootMismatch);
        }
        Ok(RemoteSyncCore { ip_port, user, password, remote_dir, local_dir })
    }

    /// Plans the one remote operation that mirrors `ev`. For a
    /// well-formed event under a well-formed mirror mapping the plan
    /// never fails: the local root's basename is by construction a
    /// segment of every path placed under it.
    pub fn plan_action(&self, ev: &ChangeEvent) -> (r: RemoteAction)
        requires
            self.wf(),
            ev.wf(),
        ensures
            Some(r@) == plan_spec(self.local_dir@, self.remote_dir@, ev@),
    {
        match ev.kind {
            EventKind::Created | EventKind::Modified => {
                proof {
                    lemma_mapped_is_some(self.local_dir@, self.remote_dir@, ev@.new_path);
                }
                let local_abs = join_path(self.local_dir.as_str(), ev.new_path.as_str());
                let remote_path = match map_to_remote(
                    self.local_dir.as_str(),
                    self.remote_dir.as_str(),
                    local_abs.as_str(),
                ) {
                    Ok(p) => p,
                    Err(_) => {
                        proof {
                            assert(false);
                        }
                        String::new()
                    },
                };
                let remote_parent = parent_dir(remote_path.as_str());
                RemoteAction::Upload { local_abs, remote_path, remote_parent }
            },
            EventKind::Renamed => {
                proof {
                    lemma_mapped_is_some(self.local_dir@, self.remote_dir@, ev@.old_path);
                    lemma_mapped_is_some(self.local_dir@, self.remote_dir@, ev@.new_path);
                }
                let old_abs = join_path(self.local_dir.as_str(), ev.old_path.as_str());
                let from = match map_to_remote(
                    self.local_dir.as_str(),
                    self.remote_dir.as_str(),
                    old_abs.as_str(),
                ) {
                    Ok(p) => p,
                    Err(_) => {
                        proof {
                            assert(false);
                        }
                        String::new()
                    },
                };
                let new_abs = join_path(self.local_dir.as_str(), ev.new_path.as_str());
                let to = match map_to_remote(
                    self.local_dir.as_str(),
                    self.remote_dir.as_str(),
                    new_abs.as_str(),
                ) {
                    Ok(p) => p,
                    Err(_) => {
                        proof {
                            assert(false);
                        }
                        String::new()
                    },
                };
                RemoteAction::Move { from, to }
            },
            EventKind::Removed => {
                proof {
                    lemma_mapped_is_some(self.local_dir@, self.remote_dir@, ev@.old_path);
                }
                let old_abs = join_path(self.local_dir.as_str(), ev.old_path.as_str());
                let path = match map_to_remote(
                    self.local_dir.as_str(),
                    self.remote_dir.as_str(),
                    old_abs.as_str(),
                ) {
                    Ok(p) => p,
                    Err(_) => {
                        proof {
                            assert(false);
                        }
                        String::new()
                    },
                };
                RemoteAction::RemoveRecursive { path }
            },
            EventKind::Error => RemoteAction::SurfaceError,
        }
    }

    /// Receives one watcher output in the event wire format and plans
    /// the remote operation that mirrors it. Fails, with the message
    /// the status should carry, exactly when the input is not a
    /// well-formed event of the directory watcher.
    pub fn plan_from_wire(&self, input: &str) -> (r: Result<RemoteAction, String>)
        requires
            self.wf(),
        ensures
            match r {
                Ok(a) => decode_spec(input@) matches Some(ev) && Some(a@) == plan_spec(
                    self.local_dir@,
                    self.remote_dir@,
                    ev,
                ),
                Err(m) => decode_spec(input@) is None && m@ == "Currently Only support FileWatcher"@,
            },
    {
        match decode_event(input) {
            Some(ev) => Ok(self.plan_action(&ev)),
            None => Err("Currently Only support FileWatcher".to_owned()),
        }
    }

    /// Plans a whole batch of events, one remote operation per event,
    /// in the exact order the events stand in the batch.
    pub fn plan_events(&self, events: &Vec<ChangeEvent>) -> (r: Vec<RemoteAction>)
        requires
            self.wf(),
            forall|i: int| 0 <= i < events@.len() ==> (#[trigger] events@[i]).wf(),
        ensures
            r@.len() == events@.len(),
            forall|i: int|
                0 <= i < events@.len() ==> Some((#[trigger] r@[i])@) == plan_spec(
                    self.local_dir@,
                    self.remote_dir@,
                    events@[i]@,
                ),
    {
        let n = events.len();
        let mut out: Vec<RemoteAction> = Vec::new();
        let mut i: usize = 0;
        while i < n
            invariant
                n == events@.len(),
                self.wf(),
                forall|k: int| 0 <= k < events@.len() ==> (#[trigger] events@[k]).wf(),
                0 <= i <= n,
                out@.len() == i,
                forall|k: int|
                    0 <= k < i ==> Some((#[trigger] out@[k])@) == plan_spec(
                        self.local_dir@,
                        self.remote_dir@,
                        events@[k]@,
                    ),
            decreases n - i,
        {
            let a = self.plan_action(&events[i]);
            out.push(a);
            i += 1;
        }
        out
    }
}

/// Under a mirror root with a basename, every non-empty relative path
/// placed beneath it maps onto the remote tree.
pub proof fn lemma_mapped_is_some(ld: Seq<char>, rd: Seq<char>, rel: Seq<char>)
    requires
        basename_of(ld) is Some,
        rel.len() > 0,
    ensures
        mapped(ld, rd, rel) is Some,
{
    let base = basename_of(ld).unwrap();
    lemma_base_segment_in_join(ld, rel, base);
    let p = join_spec(ld, rel);
    let s = norm_seps(p);
    assert(p.len() > 0);
    let i = choose|i: int| is_seg_at(s, base, i);
    lemma_rightmost_seg_some(s, base, s.len() - base.len(), i);
}

/// The remote shell command for a move.
pub fn move_command(from: &str, to: &str) -> (r: String)
    ensures
        r@ == seq!['m', 'v', ' '] + from@ + seq![' '] + to@,
{
    proof {
        reveal_strlit("mv ");
        reveal_strlit(" ");
    }
    let mut out = "mv ".to_owned();
    out.append(from);
    out.append(" ");
    out.append(to);
    proof {
        assert(out@ =~= seq!['m', 'v', ' '] + from@ + seq![' '] + to@);
    }
    out
}

/// The remote shell command for a delete, recursive on demand.
pub fn remove_command(path: &str, is_recursive: bool) -> (r: String)
    ensures
        is_recursive ==> r@ == seq!['r', 'm', ' ', '-', 'r', ' '] + path@,
        !is_recursive ==> r@ == seq!['r', 'm', ' '] + path@,
{
    proof {
        reveal_strlit("rm ");
        reveal_strlit("-r ");
    }
    let mut out = "rm ".to_owned();
    if is_recursive {
        out.append("-r ");
    }
    out.append(path);
    proof {
        if is_recursive {
            assert(out@ =~= seq!['r', 'm', ' ', '-', 'r', ' '] + path@);
        } else {
            assert(out@ =~= seq!['r', 'm', ' '] + path@);
        }
    }
    out
}

/// The remote shell command that ensures a directory exists,
/// idempotently.
pub fn mkdir_command(dir: &str) -> (r: String)
    ensures
        r@ == seq!['m', 'k', 'd', 'i', 'r', ' ', '-', 'p', ' '] + dir@,
{
    proof {
        reveal_strlit("mkdir -p ");
    }
    let mut out = "mkdir -p ".to_owned();
    out.append(dir);
    proof {
        assert(out@ =~= seq!['m', 'k', 'd', 'i', 'r', ' ', '-', 'p', ' '] + dir@);
    }
    out
}

/// The remote path a local file is uploaded to when it is sent into a
/// remote directory: the directory joined with the file's basename.
pub fn upload_target_path(local_file_path: &str, remote_path: &str) -> (r: Result<
    String,
    PathMappingError,
>)
    ensures
        match r {
            Ok(t) => basename_of(local_file_path@) matches Some(b) && t@ == join_spec(
                remote_path@,
                b,
            ),
            Err(e) => basename_of(local_file_path@) is None && e
                == PathMappingError::NoRootBasename,
        },
{
    let base = match get_basename(local_file_path) {
        Ok(b) => b,
        Err(e) => {
            return Err(e);
        },
    };
    Ok(join_path(remote_path, base.as_str()))
}

/// Judges captured remote command output: no output means success;
/// any diagnostic output at all is treated as a failure carrying that
/// output, deliberately, since exit codes are not captured separately.
pub fn interpret_command_output(output: String) -> (r: Status)
    ensures
        output@.len() == 0 ==> r is OkNone,
        output@.len() > 0 ==> (r matches Status::Error(m) && m@ == output@),
{
    if output.as_str().unicode_len() == 0 {
        Status::OkNone
    } else {
        Status::Error(output)
    }
}

/// A renamed event plans exactly one remote move, from the mapped old
/// path to the mapped new path; `interpret_command_output` then judges
/// it, so empty command output yields success and any other output an
/// error carrying it.
pub proof fn lemma_renamed_plans_one_move(ld: Seq<char>, rd: Seq<char>, ev: EventV)
    requires
        basename_of(ld) is Some,
        ev.wf(),
        ev.kind == EventKind::Renamed,
    ensures
        plan_spec(ld, rd, ev) matches Some(a) && a matches RemoteActionV::Move { from, to }
            && Some(from) == mapped(ld, rd, ev.old_path) && Some(to) == mapped(
            ld,
            rd,
            ev.new_path,
        ),
{
    lemma_mapped_is_some(ld, rd, ev.old_path);
    lemma_mapped_is_some(ld, rd, ev.new_path);
}

/// A removed event plans exactly one recursive remote delete of the
/// mapped old path; `interpret_command_output` then judges it, so
/// empty command output yields success and any other output an error
/// carrying it.
pub proof fn lemma_removed_plans_one_delete(ld: Seq<char>, rd: Seq<char>, ev: EventV)
    requires
        basename_of(ld) is Some,
        ev.wf(),
        ev.kind == EventKind::Removed,
    ensures
        plan_spec(ld, rd, ev) matches Some(a) && a matches RemoteActionV::RemoveRecursive { path }
            && Some(path) == mapped(ld, rd, ev.old_path),
{
    lemma_mapped_is_some(ld, rd, ev.old_path);
}

/// Dispatch keeps event order: a created event followed by a removed
/// event for the same relative path plans exactly one upload followed
/// by exactly one recursive delete, in that order.
pub proof fn lemma_create_then_remove_in_order(ld: Seq<char>, rd: Seq<char>, c: EventV, r: EventV)
    requires
        basename_of(ld) is Some,
        c.wf(),
        c.kind == EventKind::Created,
        r.wf(),
        r.kind == EventKind::Removed,
    ensures
        plan_all(ld, rd, seq![c, r]).len() == 2,
        plan_all(ld, rd, seq![c, r])[0] matches Some(a) && a is Upload,
        plan_all(ld, rd, seq![c, r])[1] matches Some(b) && b is RemoveRecursive,
{
    lemma_mapped_is_some(ld, rd, c.new_path);
    lemma_mapped_is_some(ld, rd, r.old_path);
    assert(plan_all(ld, rd, seq![c, r])[0] == plan_spec(ld, rd, c));
    assert(plan_all(ld, rd, seq![c, r])[1] == plan_spec(ld, rd, r));
}

} // verus!
