//! Reports of the kernel side: reading a raw event, and making an event of it.

use crate::address::{dotted_from_high, from_high};
use crate::collector::proc_enricher::ProcInfo;
use crate::common::{
    EdrEvent, ExitEvent, FileEvent, FileOperation, ForkEvent, NetworkEvent, NetworkProtocol,
    ProcessEvent, RawEvent, RawEventType,
};
use crate::encoding::{terminated, utf8_or_mark};
use crate::number::{decimal, to_decimal};
use crate::record::{
    i32_at, read_128, read_256, read_i32, read_u16, read_u32, read_u64, u16_at, u32_at, u64_at,
};
use crate::time::Timestamp;
use vstd::prelude::*;

verus! {

/// The bytes of a raw event.
pub const RAW_EVENT_SIZE: usize = 688;

/// The bytes hold the raw event, each field at its place.
pub open spec fn lays_out(bytes: Seq<u8>, raw: RawEvent) -> bool {
    &&& raw.event_type == u32_at(bytes, 0)
    &&& raw.pid == u32_at(bytes, 4)
    &&& raw.ppid == u32_at(bytes, 8)
    &&& raw.uid == u32_at(bytes, 12)
    &&& raw.gid == u32_at(bytes, 16)
    &&& raw.timestamp_ns == u64_at(bytes, 24)
    &&& raw.exe_path@ == bytes.subrange(32, 288)
    &&& raw.args@ == bytes.subrange(288, 544)
    &&& raw.filename@ == bytes.subrange(544, 672)
    &&& raw.dst_ip == u32_at(bytes, 672)
    &&& raw.dst_port == u16_at(bytes, 676)
    &&& raw.src_port == u16_at(bytes, 678)
    &&& raw.exit_code == i32_at(bytes, 680)
    &&& raw.file_op == u32_at(bytes, 684)
}

/// Reads a raw event from the bytes of a report. A shorter report is cut off and holds none.
pub fn decode_raw_event(item: &[u8]) -> (raw: Option<RawEvent>)
    ensures
        raw is Some <==> item@.len() >= RAW_EVENT_SIZE,
        raw matches Some(r) ==> lays_out(item@, r),
{
    if item.len() < RAW_EVENT_SIZE {
        return None;
    }
    Some(
        RawEvent {
            event_type: read_u32(item, 0),
            pid: read_u32(item, 4),
            ppid: read_u32(item, 8),
            uid: read_u32(item, 12),
            gid: read_u32(item, 16),
            timestamp_ns: read_u64(item, 24),
            exe_path: read_256(item, 32),
            args: read_256(item, 288),
            filename: read_128(item, 544),
            dst_ip: read_u32(item, 672),
            dst_port: read_u16(item, 676),
            src_port: read_u16(item, 678),
            exit_code: read_i32(item, 680),
            file_op: read_u32(item, 684),
        },
    )
}

/// The text or, where it is missing, the other one.
pub open spec fn text_or(s: Option<String>, other: Seq<char>) -> Seq<char> {
    match s {
        Some(text) => text@,
        None => other,
    }
}

/// The event that tells of a raw event at the given time. For a program that was executed,
/// `info` and `sha256` are what is known of its process and of its file.
pub open spec fn tells_of(
    event: EdrEvent,
    raw: RawEvent,
    info: ProcInfo,
    sha256: Option<String>,
    now: Timestamp,
) -> bool {
    match event {
        EdrEvent::Process(e) => {
            &&& raw.event_type == RawEventType::Execve.code()
            &&& e.pid == raw.pid
            &&& e.ppid == match info.ppid {
                Some(ppid) => ppid,
                None => raw.ppid,
            }
            &&& e.uid == raw.uid
            &&& e.gid == raw.gid
            &&& e.timestamp == now
            &&& e.exe_path@ == utf8_or_mark(terminated(raw.exe_path@))
            &&& e.args@ == utf8_or_mark(terminated(raw.args@))
            &&& e.cwd@ == text_or(info.cwd, Seq::empty())
            &&& e.username@ == text_or(info.username, decimal(raw.uid as nat))
            &&& e.sha256 == sha256
        },
        EdrEvent::Fork(e) => {
            &&& raw.event_type == RawEventType::Fork.code()
            &&& e.parent_pid == raw.ppid
            &&& e.child_pid == raw.pid
            &&& e.timestamp == now
        },
        EdrEvent::Exit(e) => {
            &&& raw.event_type == RawEventType::Exit.code()
            &&& e.pid == raw.pid
            &&& e.exit_code == raw.exit_code
            &&& e.timestamp == now
            &&& e.lifetime_ms == 0
        },
        EdrEvent::File(e) => {
            &&& raw.event_type == RawEventType::FileOp.code()
            &&& e.pid == raw.pid
            &&& e.timestamp == now
            &&& e.path@ == utf8_or_mark(terminated(raw.filename@))
            &&& e.operation == FileOperation::of_code(raw.file_op)
            &&& e.sha256 is None
        },
        EdrEvent::Network(e) => {
            &&& raw.event_type == RawEventType::NetConn.code()
            &&& e.pid == raw.pid
            &&& e.timestamp == now
            &&& e.src_ip@ == "0.0.0.0"@
            &&& e.src_port == raw.src_port
            &&& e.dst_ip@ == dotted_from_high(raw.dst_ip)
            &&& e.dst_port == raw.dst_port
            &&& e.protocol == NetworkProtocol::Tcp
        },
    }
}

/// Makes an event of a raw event, at the given time. A kind that is not known makes none.
pub fn build_edr_event_at(
    raw: &RawEvent,
    info: ProcInfo,
    sha256: Option<String>,
    now: Timestamp,
) -> (event: Option<EdrEvent>)
    ensures
        event is Some <==> raw.event_type <= 4,
        event matches Some(e) ==> tells_of(e, *raw, info, sha256, now),
{
    match RawEventType::try_from(raw.event_type) {
        Ok(RawEventType::Execve) => {
            let ppid: u32 = match info.ppid {
                Some(ppid) => ppid,
                None => raw.ppid,
            };
            let cwd: String = match info.cwd {
                Some(cwd) => cwd,
                None => String::new(),
            };
            let username: String = match info.username {
                Some(name) => name,
                None => to_decimal(raw.uid as u64),
            };
            Some(
                EdrEvent::Process(
                    ProcessEvent {
                        pid: raw.pid,
                        ppid,
                        uid: raw.uid,
                        gid: raw.gid,
                        timestamp: now,
                        exe_path: raw.exe_path_str().to_owned(),
                        args: raw.args_str().to_owned(),
                        cwd,
                        username,
                        sha256,
                    },
                ),
            )
        },
        Ok(RawEventType::Fork) => Some(
            EdrEvent::Fork(
                ForkEvent { parent_pid: raw.ppid, child_pid: raw.pid, timestamp: now },
            ),
        ),
        Ok(RawEventType::Exit) => Some(
            EdrEvent::Exit(
                ExitEvent {
                    pid: raw.pid,
                    exit_code: raw.exit_code,
                    timestamp: now,
                    lifetime_ms: 0,
                },
            ),
        ),
        Ok(RawEventType::FileOp) => Some(
            EdrEvent::File(
                FileEvent {
                    pid: raw.pid,
                    timestamp: now,
                    path: raw.filename_str().to_owned(),
                    operation: FileOperation::from(raw.file_op),
                    sha256: None,
                },
            ),
        ),
        Ok(RawEventType::NetConn) => Some(
            EdrEvent::Network(
                NetworkEvent {
                    pid: raw.pid,
                    timestamp: now,
                    src_ip: "0.0.0.0".to_owned(),
                    src_port: raw.src_port,
                    dst_ip: from_high(raw.dst_ip),
                    dst_port: raw.dst_port,
                    protocol: NetworkProtocol::Tcp,
                },
            ),
        ),
        Err(_) => None,
    }
}

/// Makes an event of a raw event, at the current time.
pub fn build_edr_event(raw: &RawEvent, info: ProcInfo, sha256: Option<String>) -> (event: Option<
    EdrEvent,
>)
    ensures
        event is Some <==> raw.event_type <= 4,
        event matches Some(e) ==> exists|now: Timestamp| tells_of(e, *raw, info, sha256, now),
{
    build_edr_event_at(raw, info, sha256, Timestamp::now())
}

/// The made-up event with the given number: every third is a connection, the others are
/// programs, of which every fifth runs from a temporary directory.
pub open spec fn is_stub_event(event: EdrEvent, counter: u32, now: Timestamp) -> bool {
    if counter % 3 == 0 {
        &&& event matches EdrEvent::Network(e)
        &&& e.pid == 1234 + counter
        &&& e.timestamp == now
        &&& e.src_ip@ == "192.168.1.10"@
        &&& e.src_port == 54321
        &&& e.dst_ip@ == "1.2.3.4"@
        &&& e.dst_port == 443
        &&& e.protocol == NetworkProtocol::Tcp
    } else {
        &&& event matches EdrEvent::Process(e)
        &&& e.pid == 1000 + counter
        &&& e.ppid == 1
        &&& e.uid == 0
        &&& e.gid == 0
        &&& e.timestamp == now
        &&& e.exe_path@ == if counter % 5 == 0 {
            "/tmp/malicious"@
        } else {
            "/usr/bin/bash"@
        }
        &&& e.args@ == "--stub-event"@
        &&& e.cwd@ == "/"@
        &&& e.username@ == "root"@
        &&& e.sha256 is None
    }
}

/// Makes up the event with the given number, for runs without a kernel side.
pub fn stub_event(counter: u32, now: Timestamp) -> (event: EdrEvent)
    requires
        counter % 3 == 0 ==> 1234 + counter <= u32::MAX,
        counter % 3 != 0 ==> 1000 + counter <= u32::MAX,
    ensures
        is_stub_event(event, counter, now),
{
    if counter % 3 == 0 {
        EdrEvent::Network(
            NetworkEvent {
                pid: 1234 + counter,
                timestamp: now,
                src_ip: "192.168.1.10".to_owned(),
                src_port: 54321,
                dst_ip: "1.2.3.4".to_owned(),
                dst_port: 443,
                protocol: NetworkProtocol::Tcp,
            },
        )
    } else {
        let exe_path = if counter % 5 == 0 {
            "/tmp/malicious".to_owned()
        } else {
            "/usr/bin/bash".to_owned()
        };
        EdrEvent::Process(
            ProcessEvent {
                pid: 1000 + counter,
                ppid: 1,
                uid: 0,
                gid: 0,
                timestamp: now,
                exe_path,
                args: "--stub-event".to_owned(),
                cwd: "/".to_owned(),
                username: "root".to_owned(),
                sha256: None,
            },
        )
    }
}

} // verus!
