use vstd::prelude::*;

verus! {

/// The kind of a filesystem change.
#[derive(Debug, Clone, Copy, PartialEq, Eq, Structural)]
pub enum EventType {
    Created,
    Modified,
    Deleted,
    MovedFrom,
    MovedTo,
    Accessed,
}

/// inotify event-mask bits.
pub const IN_ACCESS: u32 = 0x1;
pub const IN_MODIFY: u32 = 0x2;
pub const IN_MOVED_FROM: u32 = 0x40;
pub const IN_MOVED_TO: u32 = 0x80;
pub const IN_CREATE: u32 = 0x100;
pub const IN_DELETE: u32 = 0x200;

/// The kind of change an inotify mask reports: the first of created,
/// modified, deleted, moved from, moved to and accessed whose bit is set, and
/// modified when none is.
pub open spec fn event_type_of_mask(mask: u32) -> EventType {
    if mask & IN_CREATE != 0 {
        EventType::Created
    } else if mask & IN_MODIFY != 0 {
        EventType::Modified
    } else if mask & IN_DELETE != 0 {
        EventType::Deleted
    } else if mask & IN_MOVED_FROM != 0 {
        EventType::MovedFrom
    } else if mask & IN_MOVED_TO != 0 {
        EventType::MovedTo
    } else if mask & IN_ACCESS != 0 {
        EventType::Accessed
    } else {
        EventType::Modified
    }
}

impl EventType {
    /// Classifies an inotify event mask.
    pub fn from_inotify_mask(mask: u32) -> (r: EventType)
        ensures
            r == event_type_of_mask(mask),
    {
        if mask & IN_CREATE != 0 {
            EventType::Created
        } else if mask & IN_MODIFY != 0 {
            EventType::Modified
        } else if mask & IN_DELETE != 0 {
            EventType::Deleted
        } else if mask & IN_MOVED_FROM != 0 {
            EventType::MovedFrom
        } else if mask & IN_MOVED_TO != 0 {
            EventType::MovedTo
        } else if mask & IN_ACCESS != 0 {
            EventType::Accessed
        } else {
            EventType::Modified
        }
    }
}

/// The process behind a filesystem change, where known.
pub struct ProcessInfo {
    pub pid: u32,
    pub command: String,
    pub user_id: u32,
    pub user_name: String,
}

/// One filesystem change under a watched path.
pub struct MonitorEvent {
    pub watch_path: String,
    pub event_type: EventType,
    pub file_path: String,
    pub cookie: u32,
    pub timestamp: u64,
    pub process_info: Option<ProcessInfo>,
}

} // verus!
