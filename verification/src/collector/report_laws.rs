//! What stands in the reports of the kernel side is what is read from them.

use super::ebpf::{build_edr_event_at, decode_raw_event, is_stub_event, lays_out, tells_of};
use super::fanotify::{fd_link, tells_of_notification, Mask};
use super::network_laws::law_highest_byte_first;
use super::proc_enricher::ProcInfo;
use crate::address::dotted;
use crate::analyzer::operators::{
    law_fields_of_connections, law_fields_of_files, law_fields_of_programs,
};
use crate::analyzer::rule::field_text;
use crate::common::{EdrEvent, FileOperation, RawEvent};
use crate::encoding::{lemma_terminated_len, terminated, terminated_len, utf8_or_mark};
use crate::monitor::ebpf::ExecEvent;
use crate::number::decimal;
use crate::record::{i32_at, u16_at, u32_at, u64_at};
use crate::time::Timestamp;
use vstd::prelude::*;
use vstd::utf8::{encode_utf8, encode_utf8_decode_utf8, encode_utf8_valid_utf8};

verus! {

/// A number in `width` bytes, the lowest first.
pub open spec fn low_first(n: nat, width: nat) -> Seq<u8>
    decreases width,
{
    if width == 0 {
        Seq::empty()
    } else {
        seq![(n % 256) as u8] + low_first(n / 256, (width - 1) as nat)
    }
}

/// The number of 32 bits that stands for a signed one.
pub open spec fn unsigned_of(n: i32) -> nat {
    if n < 0 {
        (n + 0x1_0000_0000) as nat
    } else {
        n as nat
    }
}

/// As many bytes as asked for.
proof fn lemma_low_first_len(n: nat, width: nat)
    ensures
        low_first(n, width).len() == width,
    decreases width,
{
    if width > 0 {
        lemma_low_first_len(n / 256, (width - 1) as nat);
    }
}

/// A number that stands somewhere in bytes, the lowest byte first, is read back, whatever stands
/// before it and behind it.
pub proof fn law_numbers_read_back(before: Seq<u8>, n: nat, behind: Seq<u8>)
    ensures
        n <= 0xffff ==> u16_at(before + low_first(n, 2) + behind, before.len() as int) == n,
        n <= 0xffff_ffff ==> u32_at(before + low_first(n, 4) + behind, before.len() as int) == n,
        n <= 0xffff_ffff_ffff_ffff ==> u64_at(
            before + low_first(n, 8) + behind,
            before.len() as int,
        ) == n,
{
    let at = before.len() as int;
    lemma_low_first_len(n, 2);
    lemma_low_first_len(n, 4);
    lemma_low_first_len(n, 8);
    let two = before + low_first(n, 2) + behind;
    let four = before + low_first(n, 4) + behind;
    let eight = before + low_first(n, 8) + behind;
    assert(two.subrange(at, at + 2) =~= low_first(n, 2));
    assert(four.subrange(at, at + 4) =~= low_first(n, 4));
    assert(eight.subrange(at, at + 8) =~= low_first(n, 8));
    if n <= 0xffff {
        lemma_two_bytes(two, at, n);
    }
    if n <= 0xffff_ffff {
        lemma_four_bytes(four, at, n);
    }
    if n <= 0xffff_ffff_ffff_ffff {
        lemma_eight_bytes(eight, at, n);
    }
}

/// A signed number in two's complement is read back.
pub proof fn law_signed_reads_back(before: Seq<u8>, n: i32, behind: Seq<u8>)
    ensures
        i32_at(before + low_first(unsigned_of(n), 4) + behind, before.len() as int) == n,
{
    law_numbers_read_back(before, unsigned_of(n), behind);
}

/// A number of two bytes.
proof fn lemma_two_bytes(bytes: Seq<u8>, at: int, n: nat)
    requires
        0 <= at,
        at + 2 <= bytes.len(),
        n <= 0xffff,
        bytes.subrange(at, at + 2) == low_first(n, 2),
    ensures
        u16_at(bytes, at) == n,
{
    reveal_with_fuel(low_first, 3);
    let part = bytes.subrange(at, at + 2);
    assert(part[0] == bytes[at] && part[1] == bytes[at + 1]);
    assert(part[0] == n % 256 && part[1] == (n / 256) % 256);
}

/// A number of four bytes.
proof fn lemma_four_bytes(bytes: Seq<u8>, at: int, n: nat)
    requires
        0 <= at,
        at + 4 <= bytes.len(),
        n <= 0xffff_ffff,
        bytes.subrange(at, at + 4) == low_first(n, 4),
    ensures
        u32_at(bytes, at) == n,
{
    reveal_with_fuel(low_first, 5);
    let part = bytes.subrange(at, at + 4);
    let second = n / 256;
    let third = second / 256;
    let fourth = third / 256;
    assert(part[0] == n % 256 && part[1] == second % 256);
    assert(part[2] == third % 256 && part[3] == fourth % 256);
    assert(part[0] == bytes[at] && part[1] == bytes[at + 1]);
    assert(part[2] == bytes[at + 2] && part[3] == bytes[at + 2 + 1]);
}

/// A number of eight bytes.
proof fn lemma_eight_bytes(bytes: Seq<u8>, at: int, n: nat)
    requires
        0 <= at,
        at + 8 <= bytes.len(),
        n <= 0xffff_ffff_ffff_ffff,
        bytes.subrange(at, at + 8) == low_first(n, 8),
    ensures
        u64_at(bytes, at) == n,
{
    let low = n % 0x1_0000_0000;
    let high = n / 0x1_0000_0000;
    reveal_with_fuel(low_first, 9);
    let part = bytes.subrange(at, at + 8);
    let b = n / 256;
    let c = b / 256;
    let d = c / 256;
    let e = d / 256;
    let f = e / 256;
    let g = f / 256;
    let h = g / 256;
    assert(part[0] == n % 256 && part[1] == b % 256 && part[2] == c % 256);
    assert(part[3] == d % 256 && part[4] == e % 256 && part[5] == f % 256);
    assert(part[6] == g % 256 && part[7] == h % 256);
    assert(part[0] == bytes[at] && part[1] == bytes[at + 1]);
    assert(part[2] == bytes[at + 2] && part[3] == bytes[at + 2 + 1]);
    assert(part[4] == bytes[at + 4] && part[5] == bytes[at + 4 + 1]);
    assert(part[6] == bytes[at + 4 + 2] && part[7] == bytes[at + 4 + 2 + 1]);
    assert(u32_at(bytes, at) == n - 0x1_0000_0000 * e);
    assert(u32_at(bytes, at + 4) == e);
}

/// Fields one behind the other.
pub open spec fn one_by_one(fields: Seq<Seq<u8>>) -> Seq<u8>
    decreases fields.len(),
{
    if fields.len() == 0 {
        Seq::empty()
    } else {
        one_by_one(fields.drop_last()) + fields.last()
    }
}

/// Where a field stands among the others.
proof fn lemma_field_at(fields: Seq<Seq<u8>>, k: int, at: int)
    requires
        0 <= k < fields.len(),
        at == one_by_one(fields.take(k)).len(),
    ensures
        one_by_one(fields.take(k + 1)).len() == at + fields[k].len(),
        at + fields[k].len() <= one_by_one(fields).len(),
        one_by_one(fields).subrange(at, at + fields[k].len()) == fields[k],
    decreases fields.len(),
{
    let front = fields.drop_last();
    assert(fields.take(k + 1).drop_last() =~= fields.take(k));
    if k == fields.len() - 1 {
        assert(fields.take(k + 1) =~= fields);
        assert(one_by_one(fields).subrange(at, at + fields[k].len()) =~= fields[k]);
    } else {
        assert(front.take(k) =~= fields.take(k));
        lemma_field_at(front, k, at);
        assert(one_by_one(fields).subrange(at, at + fields[k].len()) =~= one_by_one(
            front,
        ).subrange(at, at + fields[k].len()));
    }
}

/// The fields of a raw event in the order in which the kernel side writes them. The gap before
/// the time makes it start at a multiple of eight.
pub open spec fn raw_fields(raw: RawEvent, gap: Seq<u8>, tail: Seq<u8>) -> Seq<Seq<u8>> {
    seq![
        low_first(raw.event_type as nat, 4),
        low_first(raw.pid as nat, 4),
        low_first(raw.ppid as nat, 4),
        low_first(raw.uid as nat, 4),
        low_first(raw.gid as nat, 4),
        gap,
        low_first(raw.timestamp_ns as nat, 8),
        raw.exe_path@,
        raw.args@,
        raw.filename@,
        low_first(raw.dst_ip as nat, 4),
        low_first(raw.dst_port as nat, 2),
        low_first(raw.src_port as nat, 2),
        low_first(unsigned_of(raw.exit_code), 4),
        low_first(raw.file_op as nat, 4),
        tail,
    ]
}

/// Where the fields of a raw event stand.
proof fn lemma_raw_places(raw: RawEvent, gap: Seq<u8>, tail: Seq<u8>)
    requires
        gap.len() == 4,
    ensures
        ({
            let bytes = one_by_one(raw_fields(raw, gap, tail));
            &&& bytes.len() == 688 + tail.len()
            &&& bytes.subrange(0, 4) == low_first(raw.event_type as nat, 4)
            &&& bytes.subrange(4, 8) == low_first(raw.pid as nat, 4)
            &&& bytes.subrange(8, 12) == low_first(raw.ppid as nat, 4)
            &&& bytes.subrange(12, 16) == low_first(raw.uid as nat, 4)
            &&& bytes.subrange(16, 20) == low_first(raw.gid as nat, 4)
            &&& bytes.subrange(24, 32) == low_first(raw.timestamp_ns as nat, 8)
            &&& bytes.subrange(32, 288) == raw.exe_path@
            &&& bytes.subrange(288, 544) == raw.args@
            &&& bytes.subrange(544, 672) == raw.filename@
            &&& bytes.subrange(672, 676) == low_first(raw.dst_ip as nat, 4)
            &&& bytes.subrange(676, 678) == low_first(raw.dst_port as nat, 2)
            &&& bytes.subrange(678, 680) == low_first(raw.src_port as nat, 2)
            &&& bytes.subrange(680, 684) == low_first(unsigned_of(raw.exit_code), 4)
            &&& bytes.subrange(684, 688) == low_first(raw.file_op as nat, 4)
        }),
{
    let fields = raw_fields(raw, gap, tail);
    lemma_low_first_len(raw.event_type as nat, 4);
    lemma_low_first_len(raw.pid as nat, 4);
    lemma_low_first_len(raw.ppid as nat, 4);
    lemma_low_first_len(raw.uid as nat, 4);
    lemma_low_first_len(raw.gid as nat, 4);
    lemma_low_first_len(raw.timestamp_ns as nat, 8);
    lemma_low_first_len(raw.dst_ip as nat, 4);
    lemma_low_first_len(raw.dst_port as nat, 2);
    lemma_low_first_len(raw.src_port as nat, 2);
    lemma_low_first_len(unsigned_of(raw.exit_code), 4);
    lemma_low_first_len(raw.file_op as nat, 4);
    assert(fields.take(0) =~= Seq::<Seq<u8>>::empty());
    lemma_field_at(fields, 0, 0);
    lemma_field_at(fields, 1, 4);
    lemma_field_at(fields, 2, 8);
    lemma_field_at(fields, 3, 12);
    lemma_field_at(fields, 4, 16);
    lemma_field_at(fields, 5, 20);
    lemma_field_at(fields, 6, 24);
    lemma_field_at(fields, 7, 32);
    lemma_field_at(fields, 8, 288);
    lemma_field_at(fields, 9, 544);
    lemma_field_at(fields, 10, 672);
    lemma_field_at(fields, 11, 676);
    lemma_field_at(fields, 12, 678);
    lemma_field_at(fields, 13, 680);
    lemma_field_at(fields, 14, 684);
    lemma_field_at(fields, 15, 688);
    assert(fields.take(16) =~= fields);
}

/// A raw event that is written field by field is read back, field by field, whatever fills the
/// gap and follows behind it. Nothing else is read from those bytes.
pub proof fn law_raw_event_reads_back(
    raw: RawEvent,
    gap: Seq<u8>,
    tail: Seq<u8>,
    read: RawEvent,
)
    requires
        gap.len() == 4,
    ensures
        one_by_one(raw_fields(raw, gap, tail)).len() == 688 + tail.len(),
        lays_out(one_by_one(raw_fields(raw, gap, tail)), raw),
        lays_out(one_by_one(raw_fields(raw, gap, tail)), read) ==> {
            &&& read.event_type == raw.event_type
            &&& read.pid == raw.pid
            &&& read.ppid == raw.ppid
            &&& read.uid == raw.uid
            &&& read.gid == raw.gid
            &&& read.timestamp_ns == raw.timestamp_ns
            &&& read.exe_path@ == raw.exe_path@
            &&& read.args@ == raw.args@
            &&& read.filename@ == raw.filename@
            &&& read.dst_ip == raw.dst_ip
            &&& read.dst_port == raw.dst_port
            &&& read.src_port == raw.src_port
            &&& read.exit_code == raw.exit_code
            &&& read.file_op == raw.file_op
        },
{
    let bytes = one_by_one(raw_fields(raw, gap, tail));
    lemma_raw_places(raw, gap, tail);
    lemma_four_bytes(bytes, 0, raw.event_type as nat);
    lemma_four_bytes(bytes, 4, raw.pid as nat);
    lemma_four_bytes(bytes, 8, raw.ppid as nat);
    lemma_four_bytes(bytes, 12, raw.uid as nat);
    lemma_four_bytes(bytes, 16, raw.gid as nat);
    lemma_eight_bytes(bytes, 24, raw.timestamp_ns as nat);
    lemma_four_bytes(bytes, 672, raw.dst_ip as nat);
    lemma_two_bytes(bytes, 676, raw.dst_port as nat);
    lemma_two_bytes(bytes, 678, raw.src_port as nat);
    lemma_four_bytes(bytes, 680, unsigned_of(raw.exit_code));
    lemma_four_bytes(bytes, 684, raw.file_op as nat);
}

/// A report of an executed program for the monitor, written field by field, is read back.
pub proof fn law_exec_report_reads_back(report: ExecEvent, tail: Seq<u8>, read: ExecEvent)
    ensures
        ({
            let fields = seq![
                low_first(report.pid as nat, 4),
                low_first(report.uid as nat, 4),
                report.filename@,
                tail,
            ];
            &&& one_by_one(fields).len() == 264 + tail.len()
            &&& crate::monitor::ebpf::lays_out(one_by_one(fields), report)
            &&& crate::monitor::ebpf::lays_out(one_by_one(fields), read) ==> read.pid == report.pid
                && read.uid == report.uid && read.filename@ == report.filename@
        }),
{
    let fields = seq![
        low_first(report.pid as nat, 4),
        low_first(report.uid as nat, 4),
        report.filename@,
        tail,
    ];
    lemma_low_first_len(report.pid as nat, 4);
    lemma_low_first_len(report.uid as nat, 4);
    assert(fields.take(0) =~= Seq::<Seq<u8>>::empty());
    lemma_field_at(fields, 0, 0);
    lemma_field_at(fields, 1, 4);
    lemma_field_at(fields, 2, 8);
    lemma_field_at(fields, 3, 264);
    assert(fields.take(4) =~= fields);
    lemma_four_bytes(one_by_one(fields), 0, report.pid as nat);
    lemma_four_bytes(one_by_one(fields), 4, report.uid as nat);
}

/// A text in a field of a report ends at its first zero byte: what stands behind that does not
/// count. Where there is none, the text fills the field.
pub proof fn law_texts_end_at_zero(bytes: Seq<u8>, behind: Seq<u8>)
    requires
        forall|i: int| 0 <= i < bytes.len() ==> bytes[i] != 0,
    ensures
        terminated(bytes + seq![0u8] + behind) == bytes,
        terminated(bytes) == bytes,
{
    let whole = bytes + seq![0u8] + behind;
    lemma_terminated_len(whole);
    lemma_terminated_len(bytes);
    let n = terminated_len(whole) as int;
    assert(whole[bytes.len() as int] == 0);
    if n < bytes.len() {
        assert(whole[n] == bytes[n]);
    }
    assert(n == bytes.len());
    assert(whole.take(n) =~= bytes);
    let m = terminated_len(bytes) as int;
    assert(m == bytes.len());
    assert(bytes.take(m) =~= bytes);
}

/// A text that is encoded in UTF-8 is read back; bytes that encode none are told by a mark.
pub proof fn law_texts_read_back(text: Seq<char>, bytes: Seq<u8>)
    ensures
        utf8_or_mark(encode_utf8(text)) == text,
        !vstd::utf8::valid_utf8(bytes) ==> utf8_or_mark(bytes) == "<invalid utf8>"@,
{
    encode_utf8_valid_utf8(text);
    encode_utf8_decode_utf8(text);
}

/// The event that is made of a report is of the kind that the report's number says, and no event
/// is made of a report with another number.
pub proof fn law_kinds_of_reports(
    event: EdrEvent,
    raw: RawEvent,
    info: ProcInfo,
    sha256: Option<String>,
    now: Timestamp,
)
    requires
        tells_of(event, raw, info, sha256, now),
    ensures
        event is Process <==> raw.event_type == 0,
        event is Fork <==> raw.event_type == 1,
        event is Exit <==> raw.event_type == 2,
        event is File <==> raw.event_type == 3,
        event is Network <==> raw.event_type == 4,
        raw.event_type <= 4,
        event.time_of() == now,
        event.pid_of() == if raw.event_type == 1 {
            raw.ppid
        } else {
            raw.pid
        },
{
}

/// A report of an executed program tells of its path, arguments and user as rules ask for them.
/// The parent, the directory and the user's name are those that are known of the process; else
/// the parent is that of the report, the directory is unknown and the user goes by number.
pub proof fn law_reported_programs(
    event: EdrEvent,
    raw: RawEvent,
    info: ProcInfo,
    sha256: Option<String>,
    now: Timestamp,
    exe: Seq<u8>,
    args: Seq<u8>,
)
    requires
        tells_of(event, raw, info, sha256, now),
        raw.event_type == 0,
        exe == terminated(raw.exe_path@),
        args == terminated(raw.args@),
    ensures
        field_text(event, "exe_path"@) == utf8_or_mark(exe),
        field_text(event, "args"@) == utf8_or_mark(args),
        field_text(event, "pid"@) == decimal(raw.pid as nat),
        field_text(event, "uid"@) == decimal(raw.uid as nat),
        event->Process_0.gid == raw.gid,
        event->Process_0.sha256 == sha256,
        info.ppid matches Some(ppid) ==> event->Process_0.ppid == ppid,
        info.ppid is None ==> event->Process_0.ppid == raw.ppid,
        info.cwd matches Some(cwd) ==> field_text(event, "cwd"@) == cwd@,
        info.cwd is None ==> field_text(event, "cwd"@).len() == 0,
        info.username matches Some(name) ==> field_text(event, "username"@) == name@,
        info.username is None ==> field_text(event, "username"@) == decimal(raw.uid as nat),
{
    law_fields_of_programs(event->Process_0, "pid"@);
}

/// A report of a connection tells of the address, whose first number is the highest byte, and of
/// both ports; one of a file tells of its path and of what was done to it.
pub proof fn law_reported_connections_and_files(
    event: EdrEvent,
    raw: RawEvent,
    info: ProcInfo,
    sha256: Option<String>,
    now: Timestamp,
    a: u8,
    b: u8,
    c: u8,
    d: u8,
)
    requires
        tells_of(event, raw, info, sha256, now),
    ensures
        raw.event_type == 4 && raw.dst_ip == 0x100_0000 * a + 0x1_0000 * b + 0x100 * c + d
            ==> field_text(event, "dst_ip"@) == dotted(a as nat, b as nat, c as nat, d as nat),
        raw.event_type == 4 ==> {
            &&& field_text(event, "dst_port"@) == decimal(raw.dst_port as nat)
            &&& event->Network_0.src_port == raw.src_port
            &&& field_text(event, "src_ip"@) == "0.0.0.0"@
        },
        raw.event_type == 3 ==> {
            &&& field_text(event, "path"@) == utf8_or_mark(terminated(raw.filename@))
            &&& field_text(event, "operation"@) == FileOperation::of_code(raw.file_op).name_text()
        },
        raw.event_type == 2 ==> event->Exit_0.exit_code == raw.exit_code
            && event->Exit_0.lifetime_ms == 0,
        raw.event_type == 1 ==> event->Fork_0.child_pid == raw.pid && event->Fork_0.parent_pid
            == raw.ppid,
{
    if raw.event_type == 4 {
        law_fields_of_connections(event->Network_0, "pid"@);
        if raw.dst_ip == 0x100_0000 * a + 0x1_0000 * b + 0x100 * c + d {
            law_highest_byte_first(a, b, c, d, raw.dst_ip);
        }
    }
    if raw.event_type == 3 {
        law_fields_of_files(event->File_0, "pid"@);
    }
}

/// Every number of an operation stands for an operation of its own: those from one to seven for
/// the known ones, any other for itself.
pub proof fn law_operations_by_number(v: u32, w: u32)
    ensures
        FileOperation::of_code(v) == FileOperation::of_code(w) ==> v == w,
        FileOperation::of_code(1).name_text() == "Open"@,
        FileOperation::of_code(2).name_text() == "Read"@,
        FileOperation::of_code(3).name_text() == "Write"@,
        FileOperation::of_code(4).name_text() == "Create"@,
        FileOperation::of_code(5).name_text() == "Delete"@,
        FileOperation::of_code(6).name_text() == "Rename"@,
        FileOperation::of_code(7).name_text() == "Chmod"@,
        !(1 <= v <= 7) ==> FileOperation::of_code(v).name_text() == "Unknown("@ + decimal(v as nat)
            + ")"@,
{
}

/// Which made-up events there are: a connection for every third number, and for the others a
/// program of root, which every fifth runs from a temporary directory.
pub proof fn law_made_up_events(event: EdrEvent, counter: u32, now: Timestamp)
    requires
        is_stub_event(event, counter, now),
        counter <= 0xffff_0000,
    ensures
        event is Network <==> counter % 3 == 0,
        event is Process <==> counter % 3 != 0,
        event.time_of() == now,
        event is Network ==> event.pid_of() == counter + 1234 && event->Network_0.dst_ip@
            == "1.2.3.4"@ && event->Network_0.dst_port == 443,
        event is Process ==> event.pid_of() == counter + 1000 && event->Process_0.uid == 0,
        event is Process ==> (event->Process_0.exe_path@ == "/tmp/malicious"@ <==> counter % 5
            == 0),
        event is Process && counter % 5 != 0 ==> event->Process_0.exe_path@ == "/usr/bin/bash"@,
        event is Process ==> event->Process_0.ppid == 1 && event->Process_0.gid == 0
            && event->Process_0.args@ == "--stub-event"@ && event->Process_0.cwd@ == "/"@
            && event->Process_0.username@ == "root"@ && event->Process_0.sha256 is None,
        event is Network ==> event->Network_0.src_ip@ == "192.168.1.10"@
            && event->Network_0.src_port == 54321,
{
    reveal_strlit("/tmp/malicious");
    reveal_strlit("/usr/bin/bash");
    assert("/tmp/malicious"@[1] != "/usr/bin/bash"@[1]);
}

/// A report holds a raw event if and only if it is long enough for one: what is longer holds one
/// too, and what is cut off holds none. Of the bytes of a raw event, that event is read.
pub proof fn law_long_enough_reports(
    item: &[u8],
    found: Option<RawEvent>,
    raw: RawEvent,
    gap: Seq<u8>,
    tail: Seq<u8>,
)
    requires
        call_ensures(decode_raw_event, (item,), found),
        gap.len() == 4,
    ensures
        found is Some <==> item@.len() >= 688,
        item@ == one_by_one(raw_fields(raw, gap, tail)) ==> (found matches Some(read) && read.pid
            == raw.pid && read.uid == raw.uid && read.event_type == raw.event_type
            && read.exe_path@ == raw.exe_path@ && read.filename@ == raw.filename@ && read.dst_ip
            == raw.dst_ip && read.exit_code == raw.exit_code),
{
    if let Some(read) = found {
        law_raw_event_reads_back(raw, gap, tail, read);
    }
    law_raw_event_reads_back(raw, gap, tail, raw);
}

/// An event is made of a report if and only if the number of its kind is one of the five, whatever
/// else it holds.
pub proof fn law_known_kinds_make_events(
    raw: &RawEvent,
    info: ProcInfo,
    sha256: Option<String>,
    now: Timestamp,
    event: Option<EdrEvent>,
)
    requires
        call_ensures(build_edr_event_at, (raw, info, sha256, now), event),
    ensures
        event is Some <==> raw.event_type == 0 || raw.event_type == 1 || raw.event_type == 2
            || raw.event_type == 3 || raw.event_type == 4,
        event matches Some(e) ==> e.time_of() == now && (e is Process <==> raw.event_type == 0),
{
}

/// A notification of a file tells of its process, of its path as rules ask for it, and of the
/// gravest of the operations that it names: creating, then deleting, then writing, then opening.
pub proof fn law_notifications_of_files(
    event: EdrEvent,
    pid: i32,
    path: Option<String>,
    mask: Mask,
    now: Timestamp,
)
    requires
        tells_of_notification(event, pid, path, mask, now),
    ensures
        event is File,
        event.time_of() == now,
        pid >= 0 ==> event.pid_of() == pid,
        path matches Some(p) ==> field_text(event, "path"@) == p@,
        path is None ==> field_text(event, "path"@) == "<inconnu>"@,
        mask.create ==> field_text(event, "operation"@) == "Create"@,
        !mask.create && mask.delete ==> field_text(event, "operation"@) == "Delete"@,
        !mask.create && !mask.delete && (mask.modify || mask.close_write) ==> field_text(
            event,
            "operation"@,
        ) == "Write"@,
        !mask.create && !mask.delete && !mask.modify && !mask.close_write && mask.open
            ==> field_text(event, "operation"@) == "Open"@,
        !mask.create && !mask.delete && !mask.modify && !mask.close_write && !mask.open
            ==> event->File_0.operation == FileOperation::Unknown(0),
{
    law_fields_of_files(event->File_0, "pid"@);
}

/// Where an open file is found: below the directory of the own process, under its number.
pub proof fn law_links_of_open_files(fd: i32, path: String)
    requires
        call_ensures(fd_link, (fd,), path),
    ensures
        fd >= 0 ==> path@ == "/proc/self/fd/"@ + decimal(fd as nat),
{
}

} // verus!
