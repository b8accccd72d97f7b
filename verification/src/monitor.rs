//! Sources of file events: what an event is, the synthetic source that walks
//! a fixed rotation of paths, and the native source that falls back to it.

use vstd::prelude::*;
use vstd::string::*;

verus! {

/// What happened to a file.
#[derive(Debug, Clone, Copy, PartialEq, Eq)]
pub enum EventType {
    Modified,
    Created,
    Deleted,
    /// Opened for reading or execution.
    Accessed,
}

/// A file that was touched and is to be checked.
#[derive(Debug, PartialEq, Eq)]
pub struct FileEvent {
    /// The absolute path of the file.
    pub path: String,
    pub event_type: EventType,
}

/// An event as mathematical values.
pub struct FileEventView {
    pub path: Seq<char>,
    pub event_type: EventType,
}

impl View for FileEvent {
    type V = FileEventView;

    open spec fn view(&self) -> FileEventView {
        FileEventView { path: self.path@, event_type: self.event_type }
    }
}

impl Clone for FileEvent {
    fn clone(&self) -> (r: Self)
        ensures
            r@ == self@,
    {
        FileEvent { path: self.path.clone(), event_type: self.event_type }
    }
}

/// How many events may wait between a source and the supervisor; a source
/// that finds the queue full waits and drops nothing.
pub const EVENT_QUEUE_CAPACITY: usize = 100;

/// The interval, in seconds, of the synthetic source that stands in for a
/// native one.
pub const FALLBACK_INTERVAL_SECS: u64 = 10;

/// The paths that the synthetic source names, in turn.
pub open spec fn rotation() -> Seq<Seq<char>> {
    seq!["/etc/passwd"@, "/bin/ls"@, "/usr/bin/python3"@]
}

/// A source of synthetic events, for platforms without a native one.
#[derive(Debug)]
pub struct MockMonitor {
    interval_secs: u64,
}

impl MockMonitor {
    /// The number of seconds between two events.
    pub closed spec fn interval(&self) -> u64 {
        self.interval_secs
    }

    /// A source that emits one event every `interval_secs` seconds.
    pub fn new(interval_secs: u64) -> (r: Self)
        ensures
            r.interval() == interval_secs,
    {
        MockMonitor { interval_secs }
    }

    /// The number of seconds between two events.
    pub fn interval_secs(&self) -> (r: u64)
        ensures
            r == self.interval(),
    {
        self.interval_secs
    }

    /// The event with the given number, counted from zero: a modification of
    /// the next path of the rotation.
    pub fn event_at(&self, counter: usize) -> (r: FileEvent)
        ensures
            r@ == (FileEventView {
                path: rotation()[(counter % 3) as int],
                event_type: EventType::Modified,
            }),
    {
        let path = if counter % 3 == 0 {
            "/etc/passwd"
        } else if counter % 3 == 1 {
            "/bin/ls"
        } else {
            "/usr/bin/python3"
        };
        FileEvent { path: String::from_str(path), event_type: EventType::Modified }
    }
}

/// The native source of events for Linux. It has no backend of its own yet
/// and hands the work to a synthetic source, with a warning.
#[derive(Debug)]
pub struct FanotifyMonitor {
    watch_paths: Vec<String>,
}

impl FanotifyMonitor {
    /// The paths to watch.
    pub closed spec fn watched(&self) -> Seq<String> {
        self.watch_paths@
    }

    /// A source that watches the given paths.
    pub fn new(watch_paths: Vec<String>) -> (r: Self)
        ensures
            r.watched() == watch_paths@,
    {
        FanotifyMonitor { watch_paths }
    }

    /// The paths to watch.
    pub fn watch_paths(&self) -> (r: &Vec<String>)
        ensures
            r@ == self.watched(),
    {
        &self.watch_paths
    }

    /// The warning to show whenever such a source is made: it has no native
    /// backend.
    pub fn construction_warning() -> (r: &'static str)
        ensures
            r@ == "FanotifyMonitor has no native backend. Real fanotify support requires Linux-specific crates or system calls."@,
    {
        "FanotifyMonitor has no native backend. Real fanotify support requires Linux-specific crates or system calls."
    }

    /// The synthetic source that does the work in place of the native one.
    pub fn fallback(&self) -> (r: MockMonitor)
        ensures
            r.interval() == FALLBACK_INTERVAL_SECS,
    {
        MockMonitor::new(FALLBACK_INTERVAL_SECS)
    }

    /// The warning to show whenever the fallback is taken.
    pub fn fallback_warning(&self) -> (r: &'static str)
        ensures
            r@ == "Fanotify monitoring is not implemented. Falling back to MockMonitor behavior."@,
    {
        "Fanotify monitoring is not implemented. Falling back to MockMonitor behavior."
    }
}

} // verus!
