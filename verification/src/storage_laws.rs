//! What is stored, and what the database is asked, say what they are made from.

use crate::common::{Alert, AlertView, EdrEvent, Severity};
use crate::json::JsonTree;
use crate::number::decimal;
use crate::storage::{
    action_row, alert_from_row_at, alert_query, alert_query_of, alert_row, event_row, event_tree,
    labels_from, law_severity_filter, marks, rotation_offset, severities_from, severities_gte,
    severity_labels, ActionRow, AlertQuery, AlertRow, EventRow, SELECT_ALERTS,
};
use crate::text::{lowercase, opt_text, small_letters, texts};
use crate::time::{rfc3339_value, Timestamp};
use vstd::prelude::*;
use vstd::utf8::is_ascii_chars;

verus! {

/// What is stored of an event: its kind by name, its process, its time and the event in JSON.
pub proof fn law_stored_events(event: &EdrEvent, json: &str, row: EventRow)
    requires
        call_ensures(event_row, (event, json), row),
    ensures
        row.data_json@ == json@,
        *event matches EdrEvent::Process(e) ==> row.event_type@ == "process"@ && row.pid == e.pid
            && row.timestamp@ == e.timestamp.rfc3339(),
        *event matches EdrEvent::Fork(e) ==> row.event_type@ == "fork"@ && row.pid == e.parent_pid
            && row.timestamp@ == e.timestamp.rfc3339(),
        *event matches EdrEvent::Exit(e) ==> row.event_type@ == "exit"@ && row.pid == e.pid
            && row.timestamp@ == e.timestamp.rfc3339(),
        *event matches EdrEvent::File(e) ==> row.event_type@ == "file"@ && row.pid == e.pid
            && row.timestamp@ == e.timestamp.rfc3339(),
        *event matches EdrEvent::Network(e) ==> row.event_type@ == "network"@ && row.pid == e.pid
            && row.timestamp@ == e.timestamp.rfc3339(),
{
}

/// Every column of a stored alert holds what it is named for.
pub proof fn law_stored_alerts(alert: &Alert, row: AlertRow)
    requires
        call_ensures(alert_row, (alert,), row),
    ensures
        row.rule_id@ == alert.rule_id@,
        row.description@ == alert.rule_description@,
        row.severity@ == match alert.severity {
            Severity::Low => "LOW"@,
            Severity::Medium => "MEDIUM"@,
            Severity::High => "HIGH"@,
            Severity::Critical => "CRITICAL"@,
        },
        row.pid == alert.pid,
        row.timestamp@ == alert.timestamp.rfc3339(),
        opt_text(row.mitre_technique) == opt_text(alert.mitre_technique),
        row.event_json@ == alert.event_json@,
        opt_text(row.action_taken) == opt_text(alert.action_taken),
{
    assert(row@.rule_id == alert@.rule_id);
    assert(row@.description == alert@.rule_description);
    assert(row@.severity == alert.severity.label_text());
    assert(row@.timestamp == alert.timestamp.rfc3339());
    assert(row@.mitre_technique == alert@.mitre_technique);
    assert(row@.event_json == alert@.event_json);
    assert(row@.action_taken == alert@.action_taken);
    assert(row@.pid == row.pid);
}

/// What is read from a row is what its columns hold, under the number of the row. A time that
/// cannot be read is the current one, and a process of 32 bits is read as it stands.
pub proof fn law_read_alerts(row: AlertRow, id: i64, now: Timestamp, alert: Alert)
    requires
        call_ensures(alert_from_row_at, (row, id, now), alert),
    ensures
        alert.id == Some(id),
        alert.rule_id@ == row.rule_id@,
        alert.rule_description@ == row.description@,
        opt_text(alert.mitre_technique) == opt_text(row.mitre_technique),
        alert.event_json@ == row.event_json@,
        opt_text(alert.action_taken) == opt_text(row.action_taken),
        0 <= row.pid <= 0xffff_ffff ==> alert.pid == row.pid,
        rfc3339_value(row.timestamp@) is None ==> alert.timestamp == now,
        rfc3339_value(row.timestamp@) matches Some((secs, nanos)) ==> secs
            == alert.timestamp.secs_since_epoch() && nanos == alert.timestamp.nanos_into_second(),
        lowercase(row.severity@) == "low"@ <==> alert.severity == Severity::Low,
        lowercase(row.severity@) == "high"@ <==> alert.severity == Severity::High,
        lowercase(row.severity@) == "critical"@ <==> alert.severity == Severity::Critical,
{
    reveal_strlit("low");
    reveal_strlit("medium");
    reveal_strlit("high");
    reveal_strlit("critical");
    assert("low"@.len() == 3 && "medium"@.len() == 6);
    assert("high"@.len() == 4 && "critical"@.len() == 8);
    assert(alert@.rule_id == row@.rule_id);
    assert(alert@.rule_description == row@.description);
    assert(alert@.mitre_technique == row@.mitre_technique);
    assert(alert@.event_json == row@.event_json);
    assert(alert@.action_taken == row@.action_taken);
    assert(alert@.id == alert.id && alert@.timestamp == alert.timestamp);
    assert(alert@.pid == alert.pid && row@.pid == row.pid);
    assert(alert@.severity == alert.severity && row@.severity == row.severity@);
}

/// An alert that is stored and read again is the same, but for the number that the database gave
/// it, where the year of its time has four digits.
pub proof fn law_alerts_come_back(alert: &Alert, row: AlertRow, id: i64, now: Timestamp, read: Alert)
    requires
        call_ensures(alert_row, (alert,), row),
        call_ensures(alert_from_row_at, (row, id, now), read),
        alert.timestamp.reads_back(),
    ensures
        read@ == (AlertView { id: Some(id), ..alert@ }),
{
    assert(alert@.timestamp.reads_back());
}

/// The names of the members of the document of a stored event differ.
proof fn lemma_event_names()
    ensures
        ({
            let names = seq!["id"@, "event_type"@, "pid"@, "timestamp"@, "data"@];
            forall|i: int, j: int|
                0 <= i < 5 && 0 <= j < 5 && #[trigger] names[i] == #[trigger] names[j] ==> i == j
        }),
{
    reveal_strlit("id");
    reveal_strlit("event_type");
    reveal_strlit("pid");
    reveal_strlit("timestamp");
    reveal_strlit("data");
    let names = seq!["id"@, "event_type"@, "pid"@, "timestamp"@, "data"@];
    assert(names[0].len() == 2 && names[1].len() == 10 && names[2].len() == 3);
    assert(names[3].len() == 9 && names[4].len() == 4);
}

/// The document of a stored event holds each of its columns under its name.
pub proof fn law_document_of_event(
    id: i64,
    event_type: Seq<char>,
    pid: i64,
    timestamp: Seq<char>,
    data: Seq<char>,
)
    ensures
        ({
            let tree = event_tree(id, event_type, pid, timestamp, data);
            &&& tree is Object
            &&& tree->Object_0.contains_pair("id"@, JsonTree::Integer(id as int))
            &&& tree->Object_0.contains_pair("event_type"@, JsonTree::Text(event_type))
            &&& tree->Object_0.contains_pair("pid"@, JsonTree::Integer(pid as int))
            &&& tree->Object_0.contains_pair("timestamp"@, JsonTree::Text(timestamp))
            &&& tree->Object_0.contains_pair("data"@, JsonTree::Text(data))
        }),
{
    lemma_event_names();
    let names = seq!["id"@, "event_type"@, "pid"@, "timestamp"@, "data"@];
    assert(names[0] == "id"@ && names[1] == "event_type"@ && names[2] == "pid"@);
    assert(names[3] == "timestamp"@ && names[4] == "data"@);
}

/// A least severity asks for those that are at least as grave: the gravest is always among them,
/// each of the others if and only if the least is not above it, and they come in order. What is
/// no name of a severity asks for all of them.
pub proof fn law_severities_from(min: &str, labels: Vec<String>)
    requires
        call_ensures(severities_gte, (min,), labels),
        is_ascii_chars(min@),
    ensures
        small_letters(min@) == "critical"@ ==> texts(labels@) == seq!["CRITICAL"@],
        small_letters(min@) == "high"@ ==> texts(labels@) == seq!["HIGH"@, "CRITICAL"@],
        small_letters(min@) == "medium"@ ==> texts(labels@) == seq![
            "MEDIUM"@,
            "HIGH"@,
            "CRITICAL"@,
        ],
        small_letters(min@) != "critical"@ && small_letters(min@) != "high"@ && small_letters(min@)
            != "medium"@ ==> texts(labels@) == seq!["LOW"@, "MEDIUM"@, "HIGH"@, "CRITICAL"@],
{
    reveal_strlit("low");
    reveal_strlit("medium");
    reveal_strlit("high");
    reveal_strlit("critical");
    assert("low"@.len() == 3 && "medium"@.len() == 6);
    assert("high"@.len() == 4 && "critical"@.len() == 8);
    let all = severity_labels();
    assert(all.skip(0) =~= seq!["LOW"@, "MEDIUM"@, "HIGH"@, "CRITICAL"@]);
    assert(all.skip(1) =~= seq!["MEDIUM"@, "HIGH"@, "CRITICAL"@]);
    assert(all.skip(2) =~= seq!["HIGH"@, "CRITICAL"@]);
    assert(all.skip(3) =~= seq!["CRITICAL"@]);
}

/// A severity is asked for if and only if it is as grave as the least one, or graver.
pub proof fn law_asked_severities(small: &str, labels: Vec<String>, least: Severity, other: Severity)
    requires
        call_ensures(severities_from, (small,), labels),
        small@ == least.small_text(),
    ensures
        texts(labels@).contains(other.label_text()) <==> other.rank() >= least.rank(),
{
    reveal_strlit("low");
    reveal_strlit("medium");
    reveal_strlit("high");
    reveal_strlit("critical");
    assert("low"@.len() == 3 && "medium"@.len() == 6);
    assert("high"@.len() == 4 && "critical"@.len() == 8);
    law_severity_filter(small@, other);
}

/// The marks of parameters: one for each, numbered from one on.
pub proof fn law_marks(n: nat)
    ensures
        marks(0).len() == 0,
        marks(1) == "?1"@,
        n >= 1 ==> marks(n + 1) == marks(n) + ",?"@ + decimal(n + 1),
{
}

/// The question for alerts is put together from what is asked: a clause for the severities, with
/// one mark for each of them, where only some are asked for; a clause for the age, where there
/// is one; the newest first; and the limit, cut to what the database takes.
pub proof fn law_question(
    labels: Option<Vec<String>>,
    since_hours: Option<u64>,
    limit: usize,
    query: AlertQuery,
)
    requires
        call_ensures(alert_query_of, (labels, since_hours, limit), query),
    ensures
        ({
            let end = " ORDER BY id DESC LIMIT "@ + decimal(
                if limit <= 0x7fff_ffff_ffff_ffff {
                    limit as nat
                } else {
                    0x7fff_ffff_ffff_ffff
                },
            );
            let asked = " AND severity IN ("@ + marks(labels->0@.len()) + ")"@;
            let young = " AND datetime(timestamp) >= datetime('now', '-"@ + decimal(
                since_hours->0 as nat,
            ) + " hours')"@;
            &&& labels is None && since_hours is None ==> query.sql@ == SELECT_ALERTS@ + end
            &&& labels is Some && since_hours is None ==> query.sql@ == SELECT_ALERTS@ + asked
                + end
            &&& labels is None && since_hours is Some ==> query.sql@ == SELECT_ALERTS@ + young
                + end
            &&& labels is Some && since_hours is Some ==> query.sql@ == SELECT_ALERTS@ + asked
                + young + end
        }),
        labels matches Some(list) ==> texts(query.params@) == texts(list@),
        labels is None ==> query.params@.len() == 0,
{
    let end = " ORDER BY id DESC LIMIT "@ + decimal(
        if limit <= 0x7fff_ffff_ffff_ffff {
            limit as nat
        } else {
            0x7fff_ffff_ffff_ffff
        },
    );
    let none = Seq::<char>::empty();
    let asked = " AND severity IN ("@ + marks(labels->0@.len()) + ")"@;
    let young = " AND datetime(timestamp) >= datetime('now', '-"@ + decimal(
        since_hours->0 as nat,
    ) + " hours')"@;
    assert(SELECT_ALERTS@ + none =~= SELECT_ALERTS@);
    assert(SELECT_ALERTS@ + asked + none =~= SELECT_ALERTS@ + asked);
    let first = SELECT_ALERTS@ + (if labels is Some {
        asked
    } else {
        none
    }) + (if since_hours is Some {
        young
    } else {
        none
    });
    assert(query.sql@ =~= first + end);
    assert(texts(query.params@).len() == query.params@.len());
}

/// The question asks for the severities from the least one on, and only where one is named.
pub proof fn law_question_by_severity(
    min: &str,
    since_hours: Option<u64>,
    limit: usize,
    query: AlertQuery,
    whole: AlertQuery,
    severity: Severity,
)
    requires
        call_ensures(alert_query, (Some(min), since_hours, limit), query),
        call_ensures(alert_query, (None::<&str>, since_hours, limit), whole),
        is_ascii_chars(min@),
        small_letters(min@) == severity.small_text(),
    ensures
        forall|other: Severity|
            texts(query.params@).contains(#[trigger] other.label_text()) <==> other.rank()
                >= severity.rank(),
        query.params@.len() == 4 - severity.rank(),
        whole.params@.len() == 0,
{
    reveal_strlit("low");
    reveal_strlit("medium");
    reveal_strlit("high");
    reveal_strlit("critical");
    assert("low"@.len() == 3 && "medium"@.len() == 6);
    assert("high"@.len() == 4 && "critical"@.len() == 8);
    assert forall|other: Severity|
        texts(query.params@).contains(#[trigger] other.label_text()) <==> other.rank()
            >= severity.rank() by {
        law_severity_filter(severity.small_text(), other);
    }
    assert(texts(query.params@).len() == query.params@.len());
    assert(texts(whole.params@).len() == whole.params@.len());
    assert(labels_from(severity.small_text()).len() == 4 - severity.rank());
}

/// What is stored of an action: the alert, what was done and to what, whether it went well and
/// whether it was only said, and why.
pub proof fn law_stored_actions(
    alert_id: Option<i64>,
    action_type: &str,
    target: Option<&str>,
    success: bool,
    dry_run: bool,
    reason: Option<&str>,
    row: ActionRow,
)
    requires
        call_ensures(action_row, (alert_id, action_type, target, success, dry_run, reason), row),
    ensures
        row.alert_id == alert_id,
        row.action_type@ == action_type@,
        target matches Some(text) ==> opt_text(row.target) == Some(text@),
        target is None ==> row.target is None,
        reason matches Some(text) ==> opt_text(row.reason) == Some(text@),
        reason is None ==> row.reason is None,
        success <==> row.success == 1,
        !success <==> row.success == 0,
        dry_run <==> row.dry_run == 1,
        !dry_run <==> row.dry_run == 0,
{
}

/// Events are kept for as many days as are asked for.
pub proof fn law_rotation(days: u32, offset: String)
    requires
        call_ensures(rotation_offset, (days,), offset),
    ensures
        offset@ == "-"@ + decimal(days as nat) + " days"@,
{
}

} // verus!
