//! Notifications of touched files.

use crate::common::{EdrEvent, FileEvent, FileOperation};
use crate::number::{signed_decimal, to_signed_decimal};
use crate::time::Timestamp;
use vstd::prelude::*;

verus! {

/// What a notification says was done to a file.
#[derive(Debug, Clone, Copy, PartialEq, Eq, Structural)]
pub struct Mask {
    pub create: bool,
    pub delete: bool,
    pub close_write: bool,
    pub modify: bool,
    pub open: bool,
}

/// The operation of a notification that may name several: creating goes before deleting,
/// deleting before writing, writing before opening.
pub open spec fn operation_of(mask: Mask) -> FileOperation {
    if mask.create {
        FileOperation::Create
    } else if mask.delete {
        FileOperation::Delete
    } else if mask.close_write || mask.modify {
        FileOperation::Write
    } else if mask.open {
        FileOperation::Open
    } else {
        FileOperation::Unknown(0)
    }
}

/// The operation of a notification.
pub fn mask_to_operation(mask: Mask) -> (operation: FileOperation)
    ensures
        operation == operation_of(mask),
{
    if mask.create {
        FileOperation::Create
    } else if mask.delete {
        FileOperation::Delete
    } else if mask.close_write {
        FileOperation::Write
    } else if mask.modify {
        FileOperation::Write
    } else if mask.open {
        FileOperation::Open
    } else {
        FileOperation::Unknown(0)
    }
}

/// The link that leads to the path of an open file.
pub fn fd_link(fd: i32) -> (path: String)
    ensures
        path@ == "/proc/self/fd/"@ + signed_decimal(fd as int),
{
    let mut path = "/proc/self/fd/".to_owned();
    path.push_str(to_signed_decimal(fd as i64).as_str());
    path
}

/// The path of a file whose path cannot be found out.
pub const UNKNOWN_PATH: &'static str = "<inconnu>";

/// The event that tells of a notification.
pub open spec fn tells_of_notification(
    event: EdrEvent,
    pid: i32,
    path: Option<String>,
    mask: Mask,
    now: Timestamp,
) -> bool {
    &&& event matches EdrEvent::File(e)
    &&& e.pid == pid as u32
    &&& e.timestamp == now
    &&& e.path@ == crate::collector::ebpf::text_or(path, UNKNOWN_PATH@)
    &&& e.operation == operation_of(mask)
    &&& e.sha256 is None
}

/// Makes an event of a notification, at the given time.
pub fn file_event_at(pid: i32, path: Option<String>, mask: Mask, now: Timestamp) -> (event:
    EdrEvent)
    ensures
        tells_of_notification(event, pid, path, mask, now),
{
    let path: String = match path {
        Some(p) => p,
        None => UNKNOWN_PATH.to_owned(),
    };
    EdrEvent::File(
        FileEvent {
            pid: pid as u32,
            timestamp: now,
            path,
            operation: mask_to_operation(mask),
            sha256: None,
        },
    )
}

/// Makes an event of a notification, at the current time.
pub fn file_event(pid: i32, path: Option<String>, mask: Mask) -> (event: EdrEvent)
    ensures
        exists|now: Timestamp| tells_of_notification(event, pid, path, mask, now),
{
    file_event_at(pid, path, mask, Timestamp::now())
}

} // verus!
