//! Directory-watch events: what a raw file-system notification becomes, how a watcher is
//! configured, and what the debounce worker decides on each signal. The watcher itself,
//! its thread, its channel and its debounce timer run around these functions.
use vstd::prelude::*;

use std::path::PathBuf;
use std::time::SystemTime;

verus! {

/// High-level change type reported by directory watchers.
#[derive(Debug, Clone, Copy, PartialEq, Eq, Hash, Structural)]
pub enum StorageChangeType {
    /// A file-system entry was created.
    Created,
    /// A file-system entry was deleted.
    Deleted,
    /// A file-system entry was modified in place.
    Modified,
    /// A file-system entry was moved or renamed.
    Relocated,
}

/// A debounced change notification produced by a directory watcher.
#[derive(Debug)]
pub struct StorageChangeEvent {
    /// The kind of change that was observed.
    pub change_type: StorageChangeType,
    /// The current path of the affected entry.
    pub path: PathBuf,
    /// The previous path when the change was a relocation.
    pub previous_path: Option<PathBuf>,
    /// The time at which the debounced event was emitted.
    pub observed_at: SystemTime,
}

/// Configuration of a directory watcher.
#[derive(Debug, Clone, Copy, PartialEq, Eq, Structural)]
pub struct StorageWatchConfig {
    /// Whether to watch the directory tree recursively.
    pub recursive: bool,
    /// The debounce window, in milliseconds, used to coalesce bursts of low-level events.
    pub debounce_window_ms: u64,
}

impl Default for StorageWatchConfig {
    fn default() -> (r: StorageWatchConfig)
        ensures
            r.recursive,
            r.debounce_window_ms == 500,
    {
        StorageWatchConfig { recursive: true, debounce_window_ms: 500 }
    }
}

/// The kind of a raw notification, as the notification source classifies it.
#[derive(Debug, Clone, Copy, PartialEq, Eq, Structural)]
pub enum RawEventKind {
    /// An entry was created.
    Create,
    /// An entry was removed.
    Remove,
    /// An entry was renamed, with both its old and new names reported.
    RenameBoth,
    /// Some other rename notification.
    RenameOther,
    /// Any other modification.
    Modify,
    /// Access and other notifications.
    Other,
}

/// Whether `e` reports `change` at `path`, without a previous path, at `at`.
pub open spec fn is_plain_event(
    e: StorageChangeEvent,
    change: StorageChangeType,
    path: PathBuf,
    at: SystemTime,
) -> bool {
    e.change_type == change && e.path == path && e.previous_path is None && e.observed_at == at
}

/// The change a notification of `kind` reports for each of its paths, when it reports one
/// per path.
pub open spec fn per_path_change(kind: RawEventKind) -> Option<StorageChangeType> {
    match kind {
        RawEventKind::Create => Some(StorageChangeType::Created),
        RawEventKind::Remove => Some(StorageChangeType::Deleted),
        RawEventKind::Modify => Some(StorageChangeType::Modified),
        _ => None,
    }
}

/// The events a raw notification becomes: creations, removals and modifications give one
/// event per path; a rename with at least two paths gives one relocation from the first
/// path to the second (a rename with fewer paths counts as a modification of each);
/// anything else gives none. Every event carries `observed_at`.
pub fn map_raw_event(kind: RawEventKind, paths: Vec<PathBuf>, observed_at: SystemTime) -> (r: Vec<
    StorageChangeEvent,
>)
    ensures
        (kind == RawEventKind::RenameBoth || kind == RawEventKind::RenameOther) && paths@.len() >= 2
            ==> r@.len() == 1 && r@[0].change_type == StorageChangeType::Relocated && r@[0].path
            == paths@[1] && r@[0].previous_path == Some(paths@[0]) && r@[0].observed_at == observed_at,
        (kind == RawEventKind::RenameBoth || kind == RawEventKind::RenameOther) && paths@.len() < 2
            ==> r@.len() == paths@.len() && forall|i: int|
            0 <= i < r@.len() ==> is_plain_event(
                #[trigger] r@[i],
                StorageChangeType::Modified,
                paths@[i],
                observed_at,
            ),
        per_path_change(kind) matches Some(change) ==> r@.len() == paths@.len() && forall|i: int|
            0 <= i < r@.len() ==> is_plain_event(#[trigger] r@[i], change, paths@[i], observed_at),
        kind == RawEventKind::Other ==> r@.len() == 0,
{
    let is_rename = match kind {
        RawEventKind::RenameBoth | RawEventKind::RenameOther => true,
        _ => false,
    };
    if is_rename && paths.len() >= 2 {
        let mut paths = paths;
        let previous = paths.remove(0);
        let path = paths.remove(0);
        let mut out: Vec<StorageChangeEvent> = Vec::new();
        out.push(
            StorageChangeEvent {
                change_type: StorageChangeType::Relocated,
                path,
                previous_path: Some(previous),
                observed_at,
            },
        );
        return out;
    }
    let change = match kind {
        RawEventKind::Create => StorageChangeType::Created,
        RawEventKind::Remove => StorageChangeType::Deleted,
        RawEventKind::Other => {
            return Vec::new();
        },
        _ => StorageChangeType::Modified,
    };
    let ghost original = paths@;
    let mut rest = paths;
    let mut out: Vec<StorageChangeEvent> = Vec::new();
    while rest.len() > 0
        invariant
            out@.len() + rest@.len() == original.len(),
            rest@ == original.skip(out@.len() as int),
            forall|i: int|
                0 <= i < out@.len() ==> is_plain_event(#[trigger] out@[i], change, original[i], observed_at),
        decreases rest@.len(),
    {
        let ghost k = out@.len();
        let path = rest.remove(0);
        assert(path == original[k as int]);
        out.push(StorageChangeEvent { change_type: change, path, previous_path: None, observed_at });
        assert(rest@ =~= original.skip(out@.len() as int));
    }
    out
}

/// What the debounce worker hears while it waits for raw events.
pub enum WatchSignal<T> {
    /// A raw event arrived; `None` when the watcher reported an error instead, which is
    /// dropped.
    Received(Option<T>),
    /// The debounce window passed without another event.
    Quiet,
    /// The watcher went away.
    Closed,
}

/// What the debounce worker does next.
pub enum WatchStep<T> {
    /// Keep waiting: for the window to pass while a batch is open, else for the next event.
    Wait,
    /// Map and emit the batch's events, then wait for the next event.
    Flush(Vec<T>),
    /// Map and emit the batch's events, then stop.
    Stop(Vec<T>),
}

/// The debounce worker's state: whether a batch is open, and the raw events it holds.
pub struct Debouncer<T> {
    pub collecting: bool,
    pub batch: Vec<T>,
}

/// `s` followed by the event `x` holds, if any.
pub open spec fn with_event<T>(s: Seq<T>, x: Option<T>) -> Seq<T> {
    match x {
        Some(e) => s.push(e),
        None => s,
    }
}

impl<T> Debouncer<T> {
    /// Whether no batch is open and nothing is held.
    pub open spec fn idle(&self) -> bool {
        !self.collecting && self.batch@.len() == 0
    }

    /// A worker waiting for its first event.
    pub fn new() -> (r: Debouncer<T>)
        ensures
            r.idle(),
    {
        Debouncer { collecting: false, batch: Vec::new() }
    }

    /// Takes one signal: an event opens a batch or joins the open one; a quiet window
    /// flushes the open batch; a closed watcher stops the worker, flushing the open batch.
    pub fn step(&mut self, signal: WatchSignal<T>) -> (r: WatchStep<T>)
        ensures
            (!old(self).collecting ==> old(self).batch@.len() == 0) ==> (!final(self).collecting
                ==> final(self).batch@.len() == 0),
            match signal {
                WatchSignal::Received(x) => {
                    &&& r is Wait
                    &&& final(self).collecting
                    &&& final(self).batch@ == with_event(old(self).batch@, x)
                },
                WatchSignal::Quiet => if old(self).collecting {
                    r matches WatchStep::Flush(b) && b@ == old(self).batch@ && final(self).idle()
                } else {
                    r is Wait && !final(self).collecting && final(self).batch@ == old(self).batch@
                },
                WatchSignal::Closed => r matches WatchStep::Stop(b) && b@ == old(self).batch@
                    && final(self).idle(),
            },
    {
        match signal {
            WatchSignal::Received(x) => {
                self.collecting = true;
                match x {
                    Some(e) => self.batch.push(e),
                    None => {},
                }
                WatchStep::Wait
            },
            WatchSignal::Quiet => {
                if self.collecting {
                    let mut out: Vec<T> = Vec::new();
                    std::mem::swap(&mut out, &mut self.batch);
                    self.collecting = false;
                    WatchStep::Flush(out)
                } else {
                    WatchStep::Wait
                }
            },
            WatchSignal::Closed => {
                let mut out: Vec<T> = Vec::new();
                std::mem::swap(&mut out, &mut self.batch);
                self.collecting = false;
                WatchStep::Stop(out)
            },
        }
    }
}

} // verus!
