//! Sequences in time: what one process does shortly after something else.

use crate::common::{EdrEvent, FileOperation};
use crate::text::{opt_text, same_text};
use crate::time::{elapsed, span, Clock};
use std::collections::HashMap;
use vstd::prelude::*;

verus! {

broadcast use vstd::std_specs::hash::group_hash_axioms;

/// How long an entry is kept, in nanoseconds: thirty seconds.
pub const RETENTION: u128 = 30_000_000_000;

/// How soon after a program a connection counts, in nanoseconds: two seconds.
pub const CONNECT_WINDOW: u128 = 2_000_000_000;

/// How soon after a change of mode a program counts, in nanoseconds: five seconds.
pub const CHMOD_WINDOW: u128 = 5_000_000_000;

/// The rule for a connection shortly after a program.
pub const CONNECT_RULE: &'static str = "R-007";

/// The rule for a program shortly after its mode was changed.
pub const CHMOD_RULE: &'static str = "R-008";

/// The kinds of events that sequences are made of.
#[derive(Debug, Clone, Copy, PartialEq, Eq, Structural)]
pub enum SeqEventKind {
    Execve,
    Chmod,
    NetConn,
    FileCreate,
}

/// What was noted of one event.
#[derive(Debug)]
struct SeqEntry {
    kind: SeqEventKind,
    timestamp: u128,
    path: Option<String>,
}

/// What a note of one event holds.
#[verifier::ext_equal]
pub struct SeqView {
    pub kind: SeqEventKind,
    pub timestamp: u128,
    pub path: Option<Seq<char>>,
}

impl View for SeqEntry {
    type V = SeqView;

    closed spec fn view(&self) -> SeqView {
        SeqView { kind: self.kind, timestamp: self.timestamp, path: opt_text(self.path) }
    }
}

/// The kind of an event; none where it takes no part in sequences.
pub open spec fn kind_of(event: EdrEvent) -> Option<SeqEventKind> {
    match event {
        EdrEvent::Process(_) => Some(SeqEventKind::Execve),
        EdrEvent::Network(_) => Some(SeqEventKind::NetConn),
        EdrEvent::File(f) => match f.operation {
            FileOperation::Chmod => Some(SeqEventKind::Chmod),
            FileOperation::Create => Some(SeqEventKind::FileCreate),
            _ => None,
        },
        _ => None,
    }
}

/// The path of an event.
pub open spec fn path_of(event: EdrEvent) -> Option<Seq<char>> {
    match event {
        EdrEvent::File(f) => Some(f.path@),
        EdrEvent::Process(p) => Some(p.exe_path@),
        _ => None,
    }
}

/// The notes that are still kept at the given time.
pub open spec fn kept(log: Seq<SeqView>, now: u128) -> Seq<SeqView> {
    log.filter(|e: SeqView| span(e.timestamp, now) <= RETENTION)
}

/// Some program was executed within the time in which a connection counts.
pub open spec fn recent_execve(log: Seq<SeqView>, now: u128) -> bool {
    exists|i: int|
        0 <= i < log.len() && (#[trigger] log[i]).kind == SeqEventKind::Execve && span(
            log[i].timestamp,
            now,
        ) < CONNECT_WINDOW
}

/// The mode of the file at `path` was changed within the time in which a program counts.
pub open spec fn recent_chmod(log: Seq<SeqView>, path: Option<Seq<char>>, now: u128) -> bool {
    exists|i: int|
        0 <= i < log.len() && (#[trigger] log[i]).kind == SeqEventKind::Chmod && span(
            log[i].timestamp,
            now,
        ) < CHMOD_WINDOW && log[i].path == path
}

/// The notes of a process after one more, and the rule of the sequence that it completes.
pub open spec fn noted(log: Seq<SeqView>, next: SeqView) -> (Seq<SeqView>, Option<Seq<char>>) {
    let before = kept(log, next.timestamp);
    let rule = if next.kind == SeqEventKind::NetConn && recent_execve(before, next.timestamp) {
        Some(CONNECT_RULE@)
    } else if next.kind == SeqEventKind::Execve && recent_chmod(
        before,
        next.path,
        next.timestamp,
    ) {
        Some(CHMOD_RULE@)
    } else {
        None
    };
    (before.push(next), rule)
}

/// The notes of a process after an event at the given time.
pub open spec fn notes_after(log: Seq<SeqView>, event: EdrEvent, now: u128) -> Seq<SeqView> {
    match kind_of(event) {
        Some(kind) => noted(log, SeqView { kind, timestamp: now, path: path_of(event) }).0,
        None => log,
    }
}

/// The rule of the sequence that an event completes at the given time.
pub open spec fn completes(log: Seq<SeqView>, event: EdrEvent, now: u128) -> Option<Seq<char>> {
    match kind_of(event) {
        Some(kind) => noted(log, SeqView { kind, timestamp: now, path: path_of(event) }).1,
        None => None,
    }
}

/// The notes of a process after a series of them.
pub open spec fn noted_series(log: Seq<SeqView>, series: Seq<SeqView>) -> Seq<SeqView>
    decreases series.len(),
{
    if series.len() == 0 {
        log
    } else {
        noted(noted_series(log, series.drop_last()), series.last()).0
    }
}

/// What passes the test stays in a filtered list.
pub(crate) proof fn lemma_kept_keeps(log: Seq<SeqView>, now: u128, i: int)
    requires
        0 <= i < log.len(),
        span(log[i].timestamp, now) <= RETENTION,
    ensures
        kept(log, now).contains(log[i]),
{
    let fresh = |e: SeqView| span(e.timestamp, now) <= RETENTION;
    log.filter_lemma(fresh);
    assert(fresh(log[i]));
}

/// A note that is young enough all along stays through a series of further notes.
proof fn lemma_note_stays(log: Seq<SeqView>, note: SeqView, series: Seq<SeqView>)
    requires
        log.contains(note),
        forall|i: int|
            0 <= i < series.len() ==> span(note.timestamp, (#[trigger] series[i]).timestamp)
                <= RETENTION,
    ensures
        noted_series(log, series).contains(note),
    decreases series.len(),
{
    if series.len() > 0 {
        let front = series.drop_last();
        assert forall|i: int| 0 <= i < front.len() implies span(
            note.timestamp,
            (#[trigger] front[i]).timestamp,
        ) <= RETENTION by {
            assert(span(note.timestamp, series[i].timestamp) <= RETENTION);
        }
        lemma_note_stays(log, note, front);
        let before = noted_series(log, front);
        let last = series[series.len() - 1];
        let i = choose|i: int| 0 <= i < before.len() && before[i] == note;
        lemma_kept_keeps(before, last.timestamp, i);
        let now = kept(before, last.timestamp);
        let j = choose|j: int| 0 <= j < now.len() && now[j] == note;
        assert(now.push(last)[j] == note);
    }
}

/// A connection less than two seconds after the same process executed a program completes the
/// sequence, whatever the process did in between.
pub proof fn law_connection_after_execve(
    log: Seq<SeqView>,
    program: SeqView,
    between: Seq<SeqView>,
    connection: SeqView,
)
    requires
        program.kind == SeqEventKind::Execve,
        connection.kind == SeqEventKind::NetConn,
        span(program.timestamp, connection.timestamp) < CONNECT_WINDOW,
        forall|i: int|
            0 <= i < between.len() ==> (#[trigger] between[i]).timestamp <= connection.timestamp,
    ensures
        noted(noted_series(noted(log, program).0, between), connection).1 == Some(CONNECT_RULE@),
{
    let start = noted(log, program).0;
    assert(start[start.len() - 1] == program);
    lemma_note_stays(start, program, between);
    let before = noted_series(start, between);
    let i = choose|i: int| 0 <= i < before.len() && before[i] == program;
    lemma_kept_keeps(before, connection.timestamp, i);
    let now = kept(before, connection.timestamp);
    let j = choose|j: int| 0 <= j < now.len() && now[j] == program;
    assert(now[j].kind == SeqEventKind::Execve);
}

/// A program executed less than five seconds after the same process changed the mode of its
/// file completes the sequence, whatever the process did in between.
pub proof fn law_execve_after_chmod(
    log: Seq<SeqView>,
    change: SeqView,
    between: Seq<SeqView>,
    program: SeqView,
)
    requires
        change.kind == SeqEventKind::Chmod,
        program.kind == SeqEventKind::Execve,
        program.path == change.path,
        span(change.timestamp, program.timestamp) < CHMOD_WINDOW,
        forall|i: int|
            0 <= i < between.len() ==> (#[trigger] between[i]).timestamp <= program.timestamp,
    ensures
        noted(noted_series(noted(log, change).0, between), program).1 == Some(CHMOD_RULE@),
{
    let start = noted(log, change).0;
    assert(start[start.len() - 1] == change);
    lemma_note_stays(start, change, between);
    let before = noted_series(start, between);
    let i = choose|i: int| 0 <= i < before.len() && before[i] == change;
    lemma_kept_keeps(before, program.timestamp, i);
    let now = kept(before, program.timestamp);
    let j = choose|j: int| 0 <= j < now.len() && now[j] == change;
    assert(now[j].kind == SeqEventKind::Chmod);
}

/// A sequence is only reported for what the same process really did: a connection within two
/// seconds of a noted program, or a program within five seconds of a noted change of its mode.
pub proof fn law_sequence_has_a_cause(log: Seq<SeqView>, next: SeqView)
    ensures
        noted(log, next).1 == Some(CONNECT_RULE@) ==> next.kind == SeqEventKind::NetConn
            && recent_execve(log, next.timestamp),
        noted(log, next).1 == Some(CHMOD_RULE@) ==> next.kind == SeqEventKind::Execve
            && recent_chmod(log, next.path, next.timestamp),
{
    reveal_strlit("R-007");
    reveal_strlit("R-008");
    assert(CONNECT_RULE@[4] == '7' && CHMOD_RULE@[4] == '8');
    let fresh = |e: SeqView| span(e.timestamp, next.timestamp) <= RETENTION;
    let before = kept(log, next.timestamp);
    if recent_execve(before, next.timestamp) {
        let i = choose|i: int|
            0 <= i < before.len() && (#[trigger] before[i]).kind == SeqEventKind::Execve && span(
                before[i].timestamp,
                next.timestamp,
            ) < CONNECT_WINDOW;
        log.lemma_filter_contains_rev(fresh, before[i]);
        let j = choose|j: int| 0 <= j < log.len() && log[j] == before[i];
        assert(log[j].kind == SeqEventKind::Execve);
    }
    if recent_chmod(before, next.path, next.timestamp) {
        let i = choose|i: int|
            0 <= i < before.len() && (#[trigger] before[i]).kind == SeqEventKind::Chmod && span(
                before[i].timestamp,
                next.timestamp,
            ) < CHMOD_WINDOW && before[i].path == next.path;
        log.lemma_filter_contains_rev(fresh, before[i]);
        let j = choose|j: int| 0 <= j < log.len() && log[j] == before[i];
        assert(log[j].kind == SeqEventKind::Chmod);
    }
}

/// What the notes of a list hold.
closed spec fn entry_views(entries: Seq<SeqEntry>) -> Seq<SeqView> {
    entries.map_values(|e: SeqEntry| e@)
}

/// A copy of a note.
fn copy_entry(entry: &SeqEntry) -> (copy: SeqEntry)
    ensures
        copy@ == entry@,
{
    SeqEntry { kind: entry.kind, timestamp: entry.timestamp, path: entry.path.clone() }
}

/// The notes that are still kept at the given time.
fn purge(entries: &Vec<SeqEntry>, now: u128) -> (left: Vec<SeqEntry>)
    ensures
        entry_views(left@) == kept(entry_views(entries@), now),
{
    let ghost all = entry_views(entries@);
    let ghost fresh = |e: SeqView| span(e.timestamp, now) <= RETENTION;
    let mut left: Vec<SeqEntry> = Vec::new();
    assert(entry_views(left@) =~= all.take(0).filter(fresh)) by {
        reveal(Seq::filter);
    }
    for i in 0..entries.len()
        invariant
            all == entry_views(entries@),
            fresh == (|e: SeqView| span(e.timestamp, now) <= RETENTION),
            entry_views(left@) == all.take(i as int).filter(fresh),
    {
        proof {
            reveal(Seq::filter);
            assert(all.take(i + 1).drop_last() =~= all.take(i as int));
            assert(all.take(i + 1).last() == entries@[i as int]@);
        }
        if elapsed(entries[i].timestamp, now) <= RETENTION {
            let ghost longer = entry_views(left@).push(entries@[i as int]@);
            left.push(copy_entry(&entries[i]));
            assert(entry_views(left@) =~= longer);
        }
    }
    assert(all.take(all.len() as int) =~= all);
    left
}

/// Tells whether two paths are both missing or hold the same.
fn same_path(a: &Option<String>, b: &Option<String>) -> (same: bool)
    ensures
        same == (opt_text(*a) == opt_text(*b)),
{
    match (a, b) {
        (Some(x), Some(y)) => same_text(x.as_str(), y.as_str()),
        (None, None) => true,
        _ => false,
    }
}

/// Tells whether a program was executed within the time in which a connection counts.
fn find_execve(entries: &Vec<SeqEntry>, now: u128) -> (found: bool)
    ensures
        found == recent_execve(entry_views(entries@), now),
{
    let ghost all = entry_views(entries@);
    for i in 0..entries.len()
        invariant
            all == entry_views(entries@),
            forall|k: int|
                0 <= k < i ==> !((#[trigger] all[k]).kind == SeqEventKind::Execve && span(
                    all[k].timestamp,
                    now,
                ) < CONNECT_WINDOW),
    {
        assert(all[i as int] == entries@[i as int]@);
        if entries[i].kind == SeqEventKind::Execve && elapsed(entries[i].timestamp, now)
            < CONNECT_WINDOW {
            return true;
        }
    }
    false
}

/// Tells whether the mode of a file was changed within the time in which a program counts.
fn find_chmod(entries: &Vec<SeqEntry>, path: &Option<String>, now: u128) -> (found: bool)
    ensures
        found == recent_chmod(entry_views(entries@), opt_text(*path), now),
{
    let ghost all = entry_views(entries@);
    for i in 0..entries.len()
        invariant
            all == entry_views(entries@),
            forall|k: int|
                0 <= k < i ==> !((#[trigger] all[k]).kind == SeqEventKind::Chmod && span(
                    all[k].timestamp,
                    now,
                ) < CHMOD_WINDOW && all[k].path == opt_text(*path)),
    {
        assert(all[i as int] == entries@[i as int]@);
        if entries[i].kind == SeqEventKind::Chmod && elapsed(entries[i].timestamp, now)
            < CHMOD_WINDOW && same_path(path, &entries[i].path) {
            return true;
        }
    }
    false
}

/// Notes what the processes do, and finds the sequences in it.
pub struct SequenceEngine {
    log: HashMap<u32, Vec<SeqEntry>>,
    clock: Clock,
}

impl SequenceEngine {
    /// What was noted of a process.
    pub closed spec fn notes(self, pid: u32) -> Seq<SeqView> {
        if self.log@.contains_key(pid) {
            entry_views(self.log@[pid]@)
        } else {
            Seq::empty()
        }
    }

    /// The number is a time on the clock of the engine, counted from when the engine was made.
    pub closed spec fn clock_shows(self, nanos: u128) -> bool {
        self.clock.shows(nanos)
    }

    /// Nothing has been noted yet.
    pub fn new() -> (engine: SequenceEngine)
        ensures
            forall|pid: u32| #[trigger] engine.notes(pid) == Seq::<SeqView>::empty(),
    {
        SequenceEngine { log: HashMap::new(), clock: Clock::start() }
    }

    /// The notes of a process that are still kept at the given time.
    fn kept_entries(&self, pid: u32, now: u128) -> (entries: Vec<SeqEntry>)
        ensures
            entry_views(entries@) == kept(self.notes(pid), now),
    {
        match self.log.get(&pid) {
            Some(entries) => purge(entries, now),
            None => {
                let none: Vec<SeqEntry> = Vec::new();
                assert(entry_views(none@) =~= kept(Seq::empty(), now)) by {
                    reveal(Seq::filter);
                }
                none
            },
        }
    }

    /// The rule of the sequence that an event would complete at the given time. Nothing is
    /// noted.
    pub fn completed_at(&self, event: &EdrEvent, now: u128) -> (rule: Option<&'static str>)
        ensures
            match rule {
                Some(id) => completes(self.notes(event.pid_of()), *event, now) == Some(id@),
                None => completes(self.notes(event.pid_of()), *event, now) is None,
            },
    {
        match event {
            EdrEvent::Network(_) => {
                if find_execve(&self.kept_entries(event.pid(), now), now) {
                    Some(CONNECT_RULE)
                } else {
                    None
                }
            },
            EdrEvent::Process(p) => {
                let path = Some(p.exe_path.clone());
                if find_chmod(&self.kept_entries(event.pid(), now), &path, now) {
                    Some(CHMOD_RULE)
                } else {
                    None
                }
            },
            _ => None,
        }
    }

    /// Notes an event at the given time, and gives the rule of the sequence that it completes.
    pub fn process_at(&mut self, event: &EdrEvent, now: u128) -> (rule: Option<&'static str>)
        ensures
            final(self).notes(event.pid_of()) == notes_after(
                old(self).notes(event.pid_of()),
                *event,
                now,
            ),
            match rule {
                Some(id) => completes(old(self).notes(event.pid_of()), *event, now) == Some(id@),
                None => completes(old(self).notes(event.pid_of()), *event, now) is None,
            },
            forall|other: u32|
                other != event.pid_of() ==> #[trigger] final(self).notes(other) == old(self).notes(
                    other,
                ),
            forall|n: u128| #[trigger] final(self).clock_shows(n) == old(self).clock_shows(n),
    {
        let rule = self.completed_at(event, now);
        let pid = event.pid();
        let kind: SeqEventKind = match event {
            EdrEvent::Process(_) => SeqEventKind::Execve,
            EdrEvent::Network(_) => SeqEventKind::NetConn,
            EdrEvent::File(f) => match f.operation {
                FileOperation::Chmod => SeqEventKind::Chmod,
                FileOperation::Create => SeqEventKind::FileCreate,
                _ => {
                    return rule;
                },
            },
            _ => {
                return rule;
            },
        };
        let path: Option<String> = match event {
            EdrEvent::File(f) => Some(f.path.clone()),
            EdrEvent::Process(p) => Some(p.exe_path.clone()),
            _ => None,
        };
        let mut entries = self.kept_entries(pid, now);
        let next = SeqEntry { kind, timestamp: now, path };
        let ghost longer = entry_views(entries@).push(next@);
        entries.push(next);
        assert(entry_views(entries@) =~= longer);
        self.log.insert(pid, entries);
        rule
    }

    /// Notes an event at the current time, and gives the rule of the sequence that it
    /// completes.
    pub fn process(&mut self, event: &EdrEvent) -> (rule: Option<&'static str>)
        ensures
            exists|now: u128|
                {
                    &&& old(self).clock_shows(now)
                    &&& final(self).notes(event.pid_of()) == #[trigger] notes_after(
                        old(self).notes(event.pid_of()),
                        *event,
                        now,
                    )
                    &&& match rule {
                        Some(id) => completes(old(self).notes(event.pid_of()), *event, now) == Some(
                            id@,
                        ),
                        None => completes(old(self).notes(event.pid_of()), *event, now) is None,
                    }
                },
            forall|other: u32|
                other != event.pid_of() ==> #[trigger] final(self).notes(other) == old(self).notes(
                    other,
                ),
            forall|n: u128| #[trigger] final(self).clock_shows(n) == old(self).clock_shows(n),
    {
        let now = self.clock.nanos();
        self.process_at(event, now)
    }
}

} // verus!
