//! Notifications of touched files.

use crate::monitor::detector::{crontab_write, shadow_access, ssh_key_write};
use crate::monitor::events::{Event, FileEvent};
use crate::text::{occurs_at, opt_text};
use crate::time::Timestamp;
use vstd::prelude::*;

verus! {

/// The watched paths.
pub const WATCHED: [&'static str; 6] = [
    "/etc/passwd",
    "/etc/shadow",
    "/etc/sudoers",
    "/root/.ssh",
    "/tmp",
    "/var/spool/cron",
];

/// What a notification says was done to a file.
#[derive(Debug, Clone, Copy, PartialEq, Eq, Structural)]
pub struct Mask {
    pub create: bool,
    pub modify: bool,
    pub delete: bool,
    pub open: bool,
}

/// The name of the operation of a notification that may name several: creating goes before
/// modifying, modifying before deleting, deleting before opening.
pub open spec fn mask_text(mask: Mask) -> Seq<char> {
    if mask.create {
        "CREATE"@
    } else if mask.modify {
        "MODIFY"@
    } else if mask.delete {
        "DELETE"@
    } else if mask.open {
        "OPEN"@
    } else {
        "OTHER"@
    }
}

/// The name of the operation of a notification.
pub fn mask_to_str(mask: Mask) -> (s: &'static str)
    ensures
        s@ == mask_text(mask),
{
    if mask.create {
        "CREATE"
    } else if mask.modify {
        "MODIFY"
    } else if mask.delete {
        "DELETE"
    } else if mask.open {
        "OPEN"
    } else {
        "OTHER"
    }
}

/// The path that a notification is about: the watched path, or what it names below it.
pub open spec fn touched_path(watched: Seq<char>, name: Option<Seq<char>>) -> Seq<char> {
    match name {
        Some(name) => watched + "/"@ + name,
        None => watched,
    }
}

/// The event that tells of a notification.
pub open spec fn tells_of(
    event: Event,
    watched: Seq<char>,
    name: Option<Seq<char>>,
    mask: Mask,
    now: Timestamp,
) -> bool {
    &&& event matches Event::File(e)
    &&& e.path@ == touched_path(watched, name)
    &&& e.operation@ == mask_text(mask)
    &&& e.timestamp == now
}

/// Makes an event of a notification about a watched path, at the given time. Where the path is
/// a directory, the notification gives the name of what was touched in it.
pub fn file_event_at(watched: &str, name: Option<String>, mask: Mask, now: Timestamp) -> (event: Event)
    ensures
        tells_of(event, watched@, opt_text(name), mask, now),
{
    let mut path = watched.to_owned();
    if let Some(name) = name {
        path.push_str("/");
        path.push_str(name.as_str());
    }
    Event::File(FileEvent { path, operation: mask_to_str(mask).to_owned(), timestamp: now })
}

/// Makes an event of a notification about a watched path, at the current time.
pub fn file_event(watched: &str, name: Option<String>, mask: Mask) -> (event: Event)
    ensures
        exists|now: Timestamp| tells_of(event, watched@, opt_text(name), mask, now),
{
    file_event_at(watched, name, mask, Timestamp::now())
}

/// Whatever is done to the watched file of password hashes is reported.
pub proof fn law_shadow_is_watched(event: Event, mask: Mask, now: Timestamp)
    requires
        tells_of(event, "/etc/shadow"@, None, mask, now),
    ensures
        shadow_access(event) is Some,
{
}

/// Whatever is created or modified in the watched directory of scheduled tasks is reported, and
/// so is a change of the directory itself.
pub proof fn law_crontabs_are_watched(
    event: Event,
    name: Option<Seq<char>>,
    mask: Mask,
    now: Timestamp,
)
    requires
        tells_of(event, "/var/spool/cron"@, name, mask, now),
        mask.create || mask.modify,
    ensures
        crontab_write(event) is Some,
{
    reveal_strlit("/var/spool/cron");
    reveal_strlit("/cron");
    let path = touched_path("/var/spool/cron"@, name);
    assert(path.subrange(10, 15) =~= "/cron"@);
    assert(occurs_at(path, "/cron"@, 10));
}

/// Whatever is created or modified in the watched directory of keys for remote access is
/// reported.
pub proof fn law_keys_are_watched(event: Event, name: Seq<char>, mask: Mask, now: Timestamp)
    requires
        tells_of(event, "/root/.ssh"@, Some(name), mask, now),
        mask.create || mask.modify,
    ensures
        ssh_key_write(event) is Some,
{
    reveal_strlit("/root/.ssh");
    reveal_strlit("/.ssh/");
    reveal_strlit("/");
    let path = touched_path("/root/.ssh"@, Some(name));
    assert(path.subrange(5, 11) =~= "/.ssh/"@);
    assert(occurs_at(path, "/.ssh/"@, 5));
}

} // verus!
