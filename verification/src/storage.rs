//! What is stored of events, alerts and actions, and how it is asked for.

use crate::common::{Alert, AlertView, EdrEvent, Severity};
use crate::json::{self, json_tree, JsonTree};
use crate::number::{decimal, to_decimal};
use crate::text::{lowercase, opt_text, small_letters, texts, to_lowercase};
use crate::time::{rfc3339_value, Timestamp};
use serde_json::Value;
use vstd::prelude::*;
use vstd::utf8::is_ascii_chars;

verus! {

/// How the database is tuned when it is opened.
pub const PRAGMAS: &'static str = "
    PRAGMA journal_mode = WAL;
    PRAGMA synchronous   = NORMAL;
    PRAGMA cache_size    = -32000;
    PRAGMA temp_store    = MEMORY;
    PRAGMA foreign_keys  = ON;
";

/// The tables and their indices.
pub const SCHEMA: &'static str = "
    CREATE TABLE IF NOT EXISTS events (
        id          INTEGER PRIMARY KEY AUTOINCREMENT,
        event_type  TEXT    NOT NULL,
        pid         INTEGER NOT NULL,
        timestamp   TEXT    NOT NULL,
        data_json   TEXT    NOT NULL,
        created_at  TEXT    NOT NULL DEFAULT (datetime('now'))
    );

    CREATE INDEX IF NOT EXISTS idx_events_pid       ON events(pid);
    CREATE INDEX IF NOT EXISTS idx_events_timestamp ON events(timestamp);
    CREATE INDEX IF NOT EXISTS idx_events_type      ON events(event_type);

    CREATE TABLE IF NOT EXISTS alerts (
        id               INTEGER PRIMARY KEY AUTOINCREMENT,
        rule_id          TEXT    NOT NULL,
        description      TEXT    NOT NULL,
        severity         TEXT    NOT NULL,
        pid              INTEGER NOT NULL,
        timestamp        TEXT    NOT NULL,
        mitre_technique  TEXT,
        event_json       TEXT    NOT NULL,
        action_taken     TEXT,
        created_at       TEXT    NOT NULL DEFAULT (datetime('now'))
    );

    CREATE INDEX IF NOT EXISTS idx_alerts_severity  ON alerts(severity);
    CREATE INDEX IF NOT EXISTS idx_alerts_timestamp ON alerts(timestamp);
    CREATE INDEX IF NOT EXISTS idx_alerts_rule_id   ON alerts(rule_id);

    CREATE TABLE IF NOT EXISTS actions (
        id          INTEGER PRIMARY KEY AUTOINCREMENT,
        alert_id    INTEGER REFERENCES alerts(id),
        action_type TEXT    NOT NULL,
        target      TEXT,
        success     INTEGER NOT NULL DEFAULT 0,
        dry_run     INTEGER NOT NULL DEFAULT 0,
        reason      TEXT,
        timestamp   TEXT    NOT NULL DEFAULT (datetime('now'))
    );

    CREATE TABLE IF NOT EXISTS rules_log (
        id          INTEGER PRIMARY KEY AUTOINCREMENT,
        event       TEXT NOT NULL,
        rule_count  INTEGER,
        path        TEXT,
        timestamp   TEXT NOT NULL DEFAULT (datetime('now'))
    );
";

/// Stores an event: kind, process, time and JSON.
pub const INSERT_EVENT: &'static str =
    "INSERT INTO events (event_type, pid, timestamp, data_json) VALUES (?1, ?2, ?3, ?4)";

/// The last events, from the newest on. The parameter is their greatest number.
pub const RECENT_EVENTS: &'static str =
    "SELECT id, event_type, pid, timestamp, data_json FROM events ORDER BY id DESC LIMIT ?1";

/// Stores an alert, in the order of the fields of [`AlertRow`].
pub const INSERT_ALERT: &'static str =
    "INSERT INTO alerts (rule_id, description, severity, pid, timestamp, mitre_technique, event_json, action_taken) VALUES (?1, ?2, ?3, ?4, ?5, ?6, ?7, ?8)";

/// Stores an action, in the order of the fields of [`ActionRow`].
pub const INSERT_ACTION: &'static str =
    "INSERT INTO actions (alert_id, action_type, target, success, dry_run, reason) VALUES (?1, ?2, ?3, ?4, ?5, ?6)";

/// The number of events.
pub const COUNT_EVENTS: &'static str = "SELECT COUNT(*) FROM events";

/// The number of alerts.
pub const COUNT_ALERTS: &'static str = "SELECT COUNT(*) FROM alerts";

/// The number of alerts of the gravest kind.
pub const COUNT_CRITICAL: &'static str =
    "SELECT COUNT(*) FROM alerts WHERE severity = 'CRITICAL'";

/// Deletes old events. The parameter is what [`rotation_offset`] gives.
pub const DELETE_OLD_EVENTS: &'static str =
    "DELETE FROM events WHERE created_at < datetime('now', ?1)";

/// The columns of an alert: first those of [`AlertRow`], then its number.
pub const SELECT_ALERTS: &'static str =
    "SELECT rule_id, description, severity, pid, timestamp, mitre_technique, event_json, action_taken, id FROM alerts WHERE 1=1";

/// How much the database holds.
#[derive(Debug, Clone, Copy, PartialEq, Eq, Structural)]
pub struct DbStats {
    pub event_count: i64,
    pub alert_count: i64,
    pub critical_count: i64,
}

/// What is stored of an event.
#[derive(Debug, Clone)]
pub struct EventRow {
    pub event_type: String,
    pub pid: u32,
    pub timestamp: String,
    pub data_json: String,
}

/// What is stored of an event. `json` is the event in JSON.
pub fn event_row(event: &EdrEvent, json: &str) -> (row: EventRow)
    ensures
        row.event_type@ == event.kind_text(),
        row.pid == event.pid_of(),
        row.timestamp@ == event.time_of().rfc3339(),
        row.data_json@ == json@,
{
    EventRow {
        event_type: event.event_type_str().to_owned(),
        pid: event.pid(),
        timestamp: event.timestamp().to_rfc3339(),
        data_json: json.to_owned(),
    }
}

/// The document of a stored event.
pub open spec fn event_tree(
    id: i64,
    event_type: Seq<char>,
    pid: i64,
    timestamp: Seq<char>,
    data: Seq<char>,
) -> JsonTree {
    JsonTree::Object(
        map![
            "id"@ => JsonTree::Integer(id as int),
            "event_type"@ => JsonTree::Text(event_type),
            "pid"@ => JsonTree::Integer(pid as int),
            "timestamp"@ => JsonTree::Text(timestamp),
            "data"@ => JsonTree::Text(data),
        ],
    )
}

/// The document of a stored event.
pub fn event_document(id: i64, event_type: &str, pid: i64, timestamp: &str, data: &str) -> (document:
    Value)
    ensures
        json_tree(document) == event_tree(id, event_type@, pid, timestamp@, data@),
{
    let mut document = json::object();
    json::insert(&mut document, "id", json::integer(id));
    json::insert(&mut document, "event_type", json::text(event_type));
    json::insert(&mut document, "pid", json::integer(pid));
    json::insert(&mut document, "timestamp", json::text(timestamp));
    json::insert(&mut document, "data", json::text(data));
    document
}

/// What is stored of an alert.
#[derive(Debug, Clone)]
pub struct AlertRow {
    pub rule_id: String,
    pub description: String,
    pub severity: String,
    pub pid: i64,
    pub timestamp: String,
    pub mitre_technique: Option<String>,
    pub event_json: String,
    pub action_taken: Option<String>,
}

/// What a stored alert holds.
#[verifier::ext_equal]
pub struct AlertRowView {
    pub rule_id: Seq<char>,
    pub description: Seq<char>,
    pub severity: Seq<char>,
    pub pid: i64,
    pub timestamp: Seq<char>,
    pub mitre_technique: Option<Seq<char>>,
    pub event_json: Seq<char>,
    pub action_taken: Option<Seq<char>>,
}

impl View for AlertRow {
    type V = AlertRowView;

    open spec fn view(&self) -> AlertRowView {
        AlertRowView {
            rule_id: self.rule_id@,
            description: self.description@,
            severity: self.severity@,
            pid: self.pid,
            timestamp: self.timestamp@,
            mitre_technique: opt_text(self.mitre_technique),
            event_json: self.event_json@,
            action_taken: opt_text(self.action_taken),
        }
    }
}

/// What is stored of an alert. Its number comes from the database.
pub open spec fn row_of(alert: AlertView) -> AlertRowView {
    AlertRowView {
        rule_id: alert.rule_id,
        description: alert.rule_description,
        severity: alert.severity.label_text(),
        pid: alert.pid as i64,
        timestamp: alert.timestamp.rfc3339(),
        mitre_technique: alert.mitre_technique,
        event_json: alert.event_json,
        action_taken: alert.action_taken,
    }
}

/// What is stored of an alert.
pub fn alert_row(alert: &Alert) -> (row: AlertRow)
    ensures
        row@ == row_of(alert@),
{
    AlertRow {
        rule_id: alert.rule_id.clone(),
        description: alert.rule_description.clone(),
        severity: alert.severity.label().to_owned(),
        pid: alert.pid as i64,
        timestamp: alert.timestamp.to_rfc3339(),
        mitre_technique: alert.mitre_technique.clone(),
        event_json: alert.event_json.clone(),
        action_taken: alert.action_taken.clone(),
    }
}

/// The time of a stored alert; `now` where it cannot be read.
pub open spec fn stored_time(text: Seq<char>, now: Timestamp, time: Timestamp) -> bool {
    match rfc3339_value(text) {
        Some((secs, nanos)) => time.secs_since_epoch() == secs && time.nanos_into_second() == nanos,
        None => time == now,
    }
}

/// The alert that is read from a stored row with the number `id` at the time `now`.
pub open spec fn reads_as(row: AlertRowView, id: i64, now: Timestamp, alert: AlertView) -> bool {
    &&& stored_time(row.timestamp, now, alert.timestamp)
    &&& alert == (AlertView {
        id: Some(id),
        rule_id: row.rule_id,
        rule_description: row.description,
        severity: Severity::of_text_or_medium(row.severity),
        timestamp: alert.timestamp,
        pid: row.pid as u32,
        mitre_technique: row.mitre_technique,
        event_json: row.event_json,
        action_taken: row.action_taken,
    })
}

/// What is read from a row is the alert that was written to it, but for the number, which comes
/// from the database, and where the year of its time has four digits.
pub open spec fn reads_back(row: AlertRowView, id: i64, alert: AlertView) -> bool {
    forall|written: AlertView|
        row == #[trigger] row_of(written) && written.timestamp.reads_back() ==> alert == (
        AlertView { id: Some(id), ..written })
}

/// The alert of a stored row with the number `id`, read at the time `now`. A severity that
/// cannot be read is medium, and a time that cannot be read is `now`. What [`alert_row`] gives
/// for an alert is read back as that alert, where the year of its time has four digits.
pub fn alert_from_row_at(row: AlertRow, id: i64, now: Timestamp) -> (alert: Alert)
    ensures
        reads_as(row@, id, now, alert@),
        reads_back(row@, id, alert@),
{
    let severity = Severity::from_str_or_medium(row.severity.as_str());
    let timestamp = match Timestamp::from_rfc3339(row.timestamp.as_str()) {
        Some(point) => point,
        None => now,
    };
    assert forall|written: AlertView|
        row@ == #[trigger] row_of(written) && written.timestamp.reads_back() implies severity
        == written.severity && timestamp == written.timestamp && row.pid as u32
        == written.pid by {
        assert(row.severity@ == written.severity.label_text());
        assert(row.timestamp@ == written.timestamp.rfc3339());
        let pid = written.pid;
        assert((pid as i64) as u32 == pid) by (bit_vector);
    }
    Alert {
        id: Some(id),
        rule_id: row.rule_id,
        rule_description: row.description,
        severity,
        timestamp,
        pid: row.pid as u32,
        mitre_technique: row.mitre_technique,
        event_json: row.event_json,
        action_taken: row.action_taken,
    }
}

/// The alerts of stored rows with their numbers, in their order, read at the time `now`.
pub fn alerts_from_rows_at(rows: Vec<(i64, AlertRow)>, now: Timestamp) -> (alerts: Vec<Alert>)
    ensures
        alerts@.len() == rows@.len(),
        forall|i: int|
            0 <= i < rows@.len() ==> reads_as(
                rows@[i].1@,
                rows@[i].0,
                now,
                (#[trigger] alerts@[i])@,
            ) && reads_back(rows@[i].1@, rows@[i].0, alerts@[i]@),
{
    let mut alerts: Vec<Alert> = Vec::new();
    for i in 0..rows.len()
        invariant
            alerts@.len() == i,
            forall|k: int|
                0 <= k < i ==> reads_as(rows@[k].1@, rows@[k].0, now, (#[trigger] alerts@[k])@)
                    && reads_back(rows@[k].1@, rows@[k].0, alerts@[k]@),
    {
        let row = copy_row(&rows[i].1);
        alerts.push(alert_from_row_at(row, rows[i].0, now));
    }
    alerts
}

/// The alerts of stored rows with their numbers, in their order, read at the current time.
pub fn alerts_from_rows(rows: Vec<(i64, AlertRow)>) -> (alerts: Vec<Alert>)
    ensures
        alerts@.len() == rows@.len(),
        exists|now: Timestamp| all_read_at(rows@, alerts@, now),
        forall|i: int|
            0 <= i < rows@.len() ==> reads_back(
                rows@[i].1@,
                rows@[i].0,
                (#[trigger] alerts@[i])@,
            ),
{
    let now = Timestamp::now();
    let alerts = alerts_from_rows_at(rows, now);
    assert(all_read_at(rows@, alerts@, now));
    alerts
}

/// The alerts are those of stored rows, read at the time `now`.
pub open spec fn all_read_at(rows: Seq<(i64, AlertRow)>, alerts: Seq<Alert>, now: Timestamp) -> bool {
    forall|i: int|
        0 <= i < rows.len() ==> reads_as(rows[i].1@, rows[i].0, now, (#[trigger] alerts[i])@)
}

/// A copy of a row.
fn copy_row(row: &AlertRow) -> (copy: AlertRow)
    ensures
        copy@ == row@,
{
    AlertRow {
        rule_id: row.rule_id.clone(),
        description: row.description.clone(),
        severity: row.severity.clone(),
        pid: row.pid,
        timestamp: row.timestamp.clone(),
        mitre_technique: row.mitre_technique.clone(),
        event_json: row.event_json.clone(),
        action_taken: row.action_taken.clone(),
    }
}

/// The names of the severities, from the least on.
pub open spec fn severity_labels() -> Seq<Seq<char>> {
    seq!["LOW"@, "MEDIUM"@, "HIGH"@, "CRITICAL"@]
}

/// The place of a severity, by its name in small letters; the least where there is none of that
/// name.
pub open spec fn floor_rank(small: Seq<char>) -> int {
    match Severity::of_small(small) {
        Some(severity) => severity.rank(),
        None => 0,
    }
}

/// The names of the severities that are at least as grave as the given one, by its name in
/// small letters.
pub open spec fn labels_from(small: Seq<char>) -> Seq<Seq<char>> {
    severity_labels().skip(floor_rank(small))
}

/// The names of all severities differ.
proof fn lemma_labels_differ()
    ensures
        severity_labels().no_duplicates(),
{
    reveal_strlit("LOW");
    reveal_strlit("MEDIUM");
    reveal_strlit("HIGH");
    reveal_strlit("CRITICAL");
    assert("LOW"@.len() == 3 && "MEDIUM"@.len() == 6 && "HIGH"@.len() == 4 && "CRITICAL"@.len()
        == 8);
}

/// An alert passes the filter by severity if and only if it is at least as grave as asked for.
pub proof fn law_severity_filter(small: Seq<char>, severity: Severity)
    ensures
        labels_from(small).contains(severity.label_text()) <==> severity.rank() >= floor_rank(
            small,
        ),
{
    lemma_labels_differ();
    let labels = severity_labels();
    let floor = floor_rank(small);
    let from = labels_from(small);
    assert(labels[severity.rank()] == severity.label_text());
    if severity.rank() >= floor {
        assert(from[severity.rank() - floor] == severity.label_text());
    }
    if from.contains(severity.label_text()) {
        let i = choose|i: int| 0 <= i < from.len() && from[i] == severity.label_text();
        assert(labels[floor + i] == labels[severity.rank()]);
    }
}

/// The names of the severities that are at least as grave as the given one, which is named in
/// small letters.
pub fn severities_from(small: &str) -> (labels: Vec<String>)
    ensures
        texts(labels@) == labels_from(small@),
{
    let floor: u8 = match Severity::from_small(small) {
        Some(Severity::Low) => 0,
        Some(Severity::Medium) => 1,
        Some(Severity::High) => 2,
        Some(Severity::Critical) => 3,
        None => 0,
    };
    let mut labels: Vec<String> = Vec::new();
    if floor <= 0 {
        labels.push("LOW".to_owned());
    }
    if floor <= 1 {
        labels.push("MEDIUM".to_owned());
    }
    if floor <= 2 {
        labels.push("HIGH".to_owned());
    }
    labels.push("CRITICAL".to_owned());
    assert(texts(labels@) =~= labels_from(small@));
    labels
}

/// The names of the severities that are at least as grave as the given one. A name in letters
/// of any case counts; one that stands for no severity is taken for the least.
pub fn severities_gte(min: &str) -> (labels: Vec<String>)
    ensures
        texts(labels@) == labels_from(lowercase(min@)),
        is_ascii_chars(min@) ==> lowercase(min@) == small_letters(min@),
{
    severities_from(to_lowercase(min).as_str())
}

/// The names of the severities that are asked for, if only some are.
pub open spec fn labels_asked(min_severity: Option<Seq<char>>) -> Option<Seq<Seq<char>>> {
    match min_severity {
        Some(min) => Some(labels_from(lowercase(min))),
        None => None,
    }
}

/// The marks of the first `n` parameters, with commas between them.
pub open spec fn marks(n: nat) -> Seq<char>
    decreases n,
{
    if n == 0 {
        Seq::empty()
    } else if n == 1 {
        "?1"@
    } else {
        marks((n - 1) as nat) + ",?"@ + decimal(n)
    }
}

/// The largest number that the database takes for a limit.
pub const MAX_LIMIT: u64 = 0x7fff_ffff_ffff_ffff;

/// The limit that the database is given.
pub open spec fn capped(limit: usize) -> nat {
    if limit <= MAX_LIMIT {
        limit as nat
    } else {
        MAX_LIMIT as nat
    }
}

/// The question for alerts. `severities` is how many severities are asked for, if only some
/// are, and `hours` how far back the alerts reach.
pub open spec fn alert_sql(severities: Option<nat>, hours: Option<u64>, limit: usize) -> Seq<char> {
    SELECT_ALERTS@ + (match severities {
        Some(n) => " AND severity IN ("@ + marks(n) + ")"@,
        None => Seq::empty(),
    }) + (match hours {
        Some(h) => " AND datetime(timestamp) >= datetime('now', '-"@ + decimal(h as nat)
            + " hours')"@,
        None => Seq::empty(),
    }) + " ORDER BY id DESC LIMIT "@ + decimal(capped(limit))
}

/// Writes the marks of the first `n` parameters.
fn write_marks(n: usize) -> (s: String)
    ensures
        s@ == marks(n as nat),
{
    let mut s = String::new();
    if n == 0 {
        return s;
    }
    s.push_str("?1");
    assert(s@ =~= "?1"@);
    for i in 1..n
        invariant
            1 <= n,
            s@ == marks(i as nat),
    {
        s.push_str(",?");
        s.push_str(to_decimal(i as u64 + 1).as_str());
    }
    s
}

/// A question for the database, with the texts that stand for its marks.
#[derive(Debug, Clone)]
pub struct AlertQuery {
    pub sql: String,
    pub params: Vec<String>,
}

/// The question for the alerts of the given severities, if only some are asked for.
pub fn alert_query_of(labels: Option<Vec<String>>, since_hours: Option<u64>, limit: usize) -> (query:
    AlertQuery)
    ensures
        query.sql@ == alert_sql(
            match labels {
                Some(list) => Some(list@.len()),
                None => None,
            },
            since_hours,
            limit,
        ),
        texts(query.params@) == match labels {
            Some(list) => texts(list@),
            None => Seq::empty(),
        },
{
    let mut sql = SELECT_ALERTS.to_owned();
    let params: Vec<String> = match labels {
        Some(list) => {
            sql.push_str(" AND severity IN (");
            sql.push_str(write_marks(list.len()).as_str());
            sql.push_str(")");
            list
        },
        None => {
            let none: Vec<String> = Vec::new();
            assert(texts(none@) =~= Seq::<Seq<char>>::empty());
            none
        },
    };
    let ghost before = sql@;
    if let Some(hours) = since_hours {
        sql.push_str(" AND datetime(timestamp) >= datetime('now', '-");
        sql.push_str(to_decimal(hours).as_str());
        sql.push_str(" hours')");
    }
    sql.push_str(" ORDER BY id DESC LIMIT ");
    let capped: u64 = if limit as u64 <= MAX_LIMIT {
        limit as u64
    } else {
        MAX_LIMIT
    };
    sql.push_str(to_decimal(capped).as_str());
    assert(sql@ =~= alert_sql(
        match labels {
            Some(list) => Some(list@.len()),
            None => None,
        },
        since_hours,
        limit,
    ));
    AlertQuery { sql, params }
}

/// The question for alerts that are at least as grave as `min_severity`, not older than
/// `since_hours`, the newest first, and at most `limit` of them.
pub fn alert_query(min_severity: Option<&str>, since_hours: Option<u64>, limit: usize) -> (query:
    AlertQuery)
    ensures
        ({
            let labels = labels_asked(
                match min_severity {
                    Some(min) => Some(min@),
                    None => None,
                },
            );
            &&& query.sql@ == alert_sql(
                match labels {
                    Some(list) => Some(list.len()),
                    None => None,
                },
                since_hours,
                limit,
            )
            &&& texts(query.params@) == match labels {
                Some(list) => list,
                None => Seq::empty(),
            }
        }),
        min_severity matches Some(min) ==> (is_ascii_chars(min@) ==> lowercase(min@)
            == small_letters(min@)),
{
    let labels: Option<Vec<String>> = match min_severity {
        Some(min) => {
            let list = severities_gte(min);
            assert(list@.len() == texts(list@).len());
            Some(list)
        },
        None => None,
    };
    alert_query_of(labels, since_hours, limit)
}

/// What is stored of an action.
#[derive(Debug, Clone)]
pub struct ActionRow {
    pub alert_id: Option<i64>,
    pub action_type: String,
    pub target: Option<String>,
    pub success: i32,
    pub dry_run: i32,
    pub reason: Option<String>,
}

/// What is stored of an action.
pub fn action_row(
    alert_id: Option<i64>,
    action_type: &str,
    target: Option<&str>,
    success: bool,
    dry_run: bool,
    reason: Option<&str>,
) -> (row: ActionRow)
    ensures
        row.alert_id == alert_id,
        row.action_type@ == action_type@,
        opt_text(row.target) == match target {
            Some(text) => Some(text@),
            None => None,
        },
        row.success == if success { 1int } else { 0 },
        row.dry_run == if dry_run { 1int } else { 0 },
        opt_text(row.reason) == match reason {
            Some(text) => Some(text@),
            None => None,
        },
{
    ActionRow {
        alert_id,
        action_type: action_type.to_owned(),
        target: match target {
            Some(text) => Some(text.to_owned()),
            None => None,
        },
        success: if success {
            1
        } else {
            0
        },
        dry_run: if dry_run {
            1
        } else {
            0
        },
        reason: match reason {
            Some(text) => Some(text.to_owned()),
            None => None,
        },
    }
}

/// How far back events are kept, as the database takes it.
pub fn rotation_offset(days: u32) -> (offset: String)
    ensures
        offset@ == "-"@ + decimal(days as nat) + " days"@,
{
    let mut offset = "-".to_owned();
    offset.push_str(to_decimal(days as u64).as_str());
    offset.push_str(" days");
    offset
}

} // verus!
