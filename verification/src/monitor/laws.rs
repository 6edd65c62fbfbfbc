//! What the monitor says of events and of notifications.

use super::detector::findings_of;
use super::ebpf::{self, ExecEvent};
use super::events::{Alert, Event};
use super::files::{self, Mask};
use super::storage::{alert_row, event_row, AlertRow, EventRow};
use super::tui::{alert_spans, closes, header, title, AlertSpans, Key};
use crate::common::Severity;
use crate::encoding::{terminated, utf8_lossy};
use crate::interface::tui::{badge, Colour};
use crate::number::{decimal, signed_decimal};
use crate::text::padded;
use crate::time::Timestamp;
use vstd::prelude::*;

verus! {

/// What a notification names as done is what its event says: the first of creating, modifying,
/// deleting and opening that it names, and something else where it names none of them.
pub proof fn law_operation_of_notification(
    event: Event,
    watched: Seq<char>,
    name: Option<Seq<char>>,
    mask: Mask,
    now: Timestamp,
)
    requires
        files::tells_of(event, watched, name, mask, now),
    ensures
        event is File,
        event.time_of() == now,
        mask.create ==> event->File_0.operation@ == "CREATE"@,
        !mask.create && mask.modify ==> event->File_0.operation@ == "MODIFY"@,
        !mask.create && !mask.modify && mask.delete ==> event->File_0.operation@ == "DELETE"@,
        !mask.create && !mask.modify && !mask.delete && mask.open ==> event->File_0.operation@
            == "OPEN"@,
        !mask.create && !mask.modify && !mask.delete && !mask.open ==> event->File_0.operation@
            == "OTHER"@,
{
}

/// A notification is about the watched path itself, or about what it names below it, with one
/// slash between the two.
pub proof fn law_path_of_notification(
    event: Event,
    watched: Seq<char>,
    name: Option<Seq<char>>,
    mask: Mask,
    now: Timestamp,
)
    requires
        files::tells_of(event, watched, name, mask, now),
    ensures
        name is None ==> event->File_0.path@ == watched,
        name matches Some(below) ==> event->File_0.path@ == watched + seq!['/'] + below,
{
    reveal_strlit("/");
    assert("/"@ =~= seq!['/']);
}

/// A file that is only opened or deleted, and is not that of the password hashes, is not
/// reported.
pub proof fn law_reading_is_quiet(
    event: Event,
    watched: Seq<char>,
    name: Option<Seq<char>>,
    mask: Mask,
    now: Timestamp,
)
    requires
        files::tells_of(event, watched, name, mask, now),
        !mask.create,
        !mask.modify,
        event->File_0.path@ != "/etc/shadow"@,
    ensures
        findings_of(event).len() == 0,
{
    reveal_strlit("CREATE");
    reveal_strlit("MODIFY");
    reveal_strlit("DELETE");
    reveal_strlit("OPEN");
    reveal_strlit("OTHER");
    assert("CREATE"@[0] == 'C' && "MODIFY"@[0] == 'M' && "DELETE"@[0] == 'D');
    assert("OPEN"@[0] == 'O' && "OTHER"@[0] == 'O');
}

/// A report of an executed program tells of its process, its user and its path.
pub proof fn law_report_of_program(
    report: &ExecEvent,
    now: Timestamp,
    event: Event,
)
    requires
        call_ensures(ebpf::process_event_at, (report, now), event),
    ensures
        event is Process,
        event->Process_0.pid == report.pid,
        event->Process_0.uid == report.uid,
        event->Process_0.exe@ == utf8_lossy(terminated(report.filename@)),
        event.time_of() == now,
{
}

/// The lower half of each of the two numbers that the kernel gives goes into a report.
pub proof fn law_lower_halves(upper: u32, pid: u32, group: u32, uid: u32, report: ExecEvent)
    requires
        call_ensures(
            ExecEvent::of_ids,
            (
                (upper as u64 * 0x1_0000_0000 + pid as u64) as u64,
                (group as u64 * 0x1_0000_0000 + uid as u64) as u64,
            ),
            report,
        ),
    ensures
        report.pid == pid,
        report.uid == uid,
        forall|i: int| 0 <= i < 256 ==> report.filename@[i] == 0,
{
    vstd::arithmetic::div_mod::lemma_fundamental_div_mod_converse(
        upper as int * 0x1_0000_0000 + pid as int,
        0x1_0000_0000,
        upper as int,
        pid as int,
    );
    vstd::arithmetic::div_mod::lemma_fundamental_div_mod_converse(
        group as int * 0x1_0000_0000 + uid as int,
        0x1_0000_0000,
        group as int,
        uid as int,
    );
}

/// A report is read if and only if it is long enough.
pub proof fn law_long_enough_reports(bytes: &[u8], report: Option<ExecEvent>)
    requires
        call_ensures(ebpf::decode, (bytes,), report),
    ensures
        report is Some <==> bytes@.len() >= 264,
{
}

/// What is stored of an event: its kind, one line on it, and the event in JSON. The line tells
/// of the process and the user of a program, of the operation on a file, and of where a
/// connection leads.
pub proof fn law_stored_events(event: &Event, json: &str, row: EventRow)
    requires
        call_ensures(event_row, (event, json), row),
    ensures
        row.data_json@ == json@,
        *event matches Event::Process(e) ==> row.kind@ == "process"@ && row.summary@
            == "EXEC  pid="@ + decimal(e.pid as nat) + " uid="@ + decimal(e.uid as nat) + " "@
            + e.exe@,
        *event matches Event::File(e) ==> row.kind@ == "file"@ && row.summary@ == "FILE  ["@
            + e.operation@ + "] "@ + e.path@,
        *event matches Event::Network(e) ==> row.kind@ == "network"@ && row.summary@
            == "NET   pid="@ + decimal(e.pid as nat) + " → "@ + e.dst_ip@ + ":"@ + decimal(
            e.dst_port as nat,
        ),
{
}

/// What is stored of an alert: its rule, its severity by name, its message and its event.
pub proof fn law_stored_alerts(alert: &Alert, row: AlertRow)
    requires
        call_ensures(alert_row, (alert,), row),
    ensures
        row.rule@ == alert.rule@,
        row.message@ == alert.message@,
        row.data_json@ == alert.event_json@,
        row.severity@ == "CRITICAL"@ <==> alert.severity == Severity::Critical,
        row.severity@ == "HIGH"@ <==> alert.severity == Severity::High,
        row.severity@ == "MEDIUM"@ <==> alert.severity == Severity::Medium,
        row.severity@ == "LOW"@ <==> alert.severity == Severity::Low,
{
    reveal_strlit("LOW");
    reveal_strlit("MEDIUM");
    reveal_strlit("HIGH");
    reveal_strlit("CRITICAL");
    assert("LOW"@.len() == 3 && "MEDIUM"@.len() == 6);
    assert("HIGH"@.len() == 4 && "CRITICAL"@.len() == 8);
}

/// The monitor shows a stored severity in the colour in which the agent shows that severity, and
/// anything else as it shows the least grave.
pub proof fn law_same_colours(
    rule: &str,
    severity: &str,
    message: &str,
    time: &str,
    spans: AlertSpans,
    shown: Severity,
    other: (Colour, &'static str),
)
    requires
        call_ensures(alert_spans, (rule, severity, message, time), spans),
        call_ensures(badge, (shown,), other),
    ensures
        severity@ == shown.label_text() ==> spans.colour == other.0,
        (forall|known: Severity| severity@ != #[trigger] known.label_text()) ==> spans.colour
            == Colour::Gray,
        spans.message@ == message@,
        spans.severity@ == " "@ + padded(severity@, 8) + " "@,
        spans.rule@ == padded(rule@, 8) + " "@,
        spans.time@ == "["@ + time@ + "] "@,
{
    reveal_strlit("LOW");
    reveal_strlit("MEDIUM");
    reveal_strlit("HIGH");
    reveal_strlit("CRITICAL");
    assert("LOW"@.len() == 3 && "MEDIUM"@.len() == 6);
    assert("HIGH"@.len() == 4 && "CRITICAL"@.len() == 8);
    if forall|known: Severity| severity@ != #[trigger] known.label_text() {
        assert(severity@ != Severity::Critical.label_text());
        assert(severity@ != Severity::High.label_text());
        assert(severity@ != Severity::Medium.label_text());
    }
}

/// Two keys close the dashboard, and no others.
pub proof fn law_keys_that_close(key: Key, yes: bool)
    requires
        call_ensures(closes, (key,), yes),
    ensures
        yes <==> key == Key::Char('q') || key == Key::Esc,
{
}

/// The lines at the top show the number of events and that of alerts, each behind its own label.
pub proof fn law_counts_at_the_top(events: i64, alerts: i64, line: String, list: String)
    requires
        call_ensures(header, (events, alerts), line),
        call_ensures(title, (alerts,), list),
    ensures
        line@ == "  EDR Linux  │  Événements : "@ + signed_decimal(events as int)
            + "  │  Alertes : "@ + signed_decimal(alerts as int)
            + "  │  rafraîchissement : 300ms"@,
        list@ == " Alertes ("@ + signed_decimal(alerts as int)
            + ") — les plus récentes en haut "@,
{
}

} // verus!
