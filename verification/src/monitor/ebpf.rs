//! Reports of executed programs from the kernel side.

use crate::encoding::{from_utf8_lossy, terminated, until_zero, utf8_lossy};
use crate::monitor::events::{Event, ProcessEvent};
use crate::record::{read_256, read_u32, u32_at};
use crate::time::Timestamp;
use vstd::prelude::*;

verus! {

/// Where the program of the kernel side is found once it is built.
pub const EBPF_BYTECODE: &'static str = "target/bpfel-unknown-none/release/edr-ebpf";

/// The bytes of a report.
pub const EXEC_EVENT_SIZE: usize = 264;

/// A report. The name ends at its first zero byte.
#[derive(Clone, Copy)]
pub struct ExecEvent {
    pub pid: u32,
    pub uid: u32,
    pub filename: [u8; 256],
}

impl ExecEvent {
    /// A report without a name. The thread, the process and its group come as the kernel gives
    /// them: the lower half of the first number is the thread, that of the second the user.
    pub fn of_ids(pid_tgid: u64, uid_gid: u64) -> (report: ExecEvent)
        ensures
            report.pid == pid_tgid % 0x1_0000_0000,
            report.uid == uid_gid % 0x1_0000_0000,
            report.filename@ == Seq::new(256, |i: int| 0u8),
    {
        let report = ExecEvent {
            pid: (pid_tgid % 0x1_0000_0000) as u32,
            uid: (uid_gid % 0x1_0000_0000) as u32,
            filename: [0u8;256],
        };
        assert(report.filename@ =~= Seq::new(256, |i: int| 0u8));
        report
    }
}

/// The bytes hold the report, each field at its place.
pub open spec fn lays_out(bytes: Seq<u8>, report: ExecEvent) -> bool {
    &&& report.pid == u32_at(bytes, 0)
    &&& report.uid == u32_at(bytes, 4)
    &&& report.filename@ == bytes.subrange(8, 264)
}

/// Reads a report from its bytes. Fewer bytes hold none.
pub fn decode(bytes: &[u8]) -> (report: Option<ExecEvent>)
    ensures
        report is Some <==> bytes@.len() >= EXEC_EVENT_SIZE,
        report matches Some(r) ==> lays_out(bytes@, r),
{
    if bytes.len() < EXEC_EVENT_SIZE {
        return None;
    }
    Some(
        ExecEvent {
            pid: read_u32(bytes, 0),
            uid: read_u32(bytes, 4),
            filename: read_256(bytes, 8),
        },
    )
}

/// The event that tells of a report, with the given name.
pub open spec fn tells_of(event: Event, report: ExecEvent, exe: Seq<char>, now: Timestamp) -> bool {
    &&& event matches Event::Process(e)
    &&& e.pid == report.pid
    &&& e.uid == report.uid
    &&& e.exe@ == exe
    &&& e.timestamp == now
}

/// Makes an event of a report whose name is already read.
pub fn named_event(report: &ExecEvent, exe: String, now: Timestamp) -> (event: Event)
    ensures
        tells_of(event, *report, exe@, now),
{
    Event::Process(ProcessEvent { pid: report.pid, uid: report.uid, exe, timestamp: now })
}

/// Makes an event of a report, at the given time. Bytes of the name that are no UTF-8 are
/// replaced.
pub fn process_event_at(report: &ExecEvent, now: Timestamp) -> (event: Event)
    ensures
        tells_of(event, *report, utf8_lossy(terminated(report.filename@)), now),
{
    let exe = from_utf8_lossy(until_zero(report.filename.as_slice()));
    named_event(report, exe, now)
}

/// Makes an event of a report, at the current time.
pub fn process_event(report: &ExecEvent) -> (event: Event)
    ensures
        exists|now: Timestamp|
            tells_of(event, *report, utf8_lossy(terminated(report.filename@)), now),
{
    process_event_at(report, Timestamp::now())
}

} // verus!
