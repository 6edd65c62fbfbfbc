//! What the monitor stores.

use crate::monitor::events::{Alert, Event};
use vstd::prelude::*;

verus! {

/// How the database is tuned when it is opened.
pub const PRAGMAS: &'static str = "
    PRAGMA journal_mode = WAL;
    PRAGMA synchronous   = NORMAL;
";

/// The tables.
pub const SCHEMA: &'static str = "
    CREATE TABLE IF NOT EXISTS events (
        id         INTEGER PRIMARY KEY AUTOINCREMENT,
        kind       TEXT NOT NULL,
        summary    TEXT NOT NULL,
        data_json  TEXT NOT NULL,
        created_at TEXT NOT NULL DEFAULT (strftime('%Y-%m-%d %H:%M:%S', 'now', 'localtime'))
    );

    CREATE TABLE IF NOT EXISTS alerts (
        id         INTEGER PRIMARY KEY AUTOINCREMENT,
        rule       TEXT NOT NULL,
        severity   TEXT NOT NULL,
        message    TEXT NOT NULL,
        data_json  TEXT NOT NULL,
        created_at TEXT NOT NULL DEFAULT (strftime('%Y-%m-%d %H:%M:%S', 'now', 'localtime'))
    );
";

/// Stores an event, in the order of the fields of [`EventRow`].
pub const INSERT_EVENT: &'static str =
    "INSERT INTO events (kind, summary, data_json) VALUES (?1, ?2, ?3)";

/// Stores an alert, in the order of the fields of [`AlertRow`].
pub const INSERT_ALERT: &'static str =
    "INSERT INTO alerts (rule, severity, message, data_json) VALUES (?1, ?2, ?3, ?4)";

/// The last alerts, from the newest on. The parameter is their greatest number.
pub const RECENT_ALERTS: &'static str =
    "SELECT rule, severity, message, created_at FROM alerts ORDER BY id DESC LIMIT ?1";

/// The number of events.
pub const COUNT_EVENTS: &'static str = "SELECT COUNT(*) FROM events";

/// The number of alerts.
pub const COUNT_ALERTS: &'static str = "SELECT COUNT(*) FROM alerts";

/// What is stored of an event.
#[derive(Debug, Clone)]
pub struct EventRow {
    pub kind: String,
    pub summary: String,
    pub data_json: String,
}

/// What is stored of an event. `json` is the event in JSON.
pub fn event_row(event: &Event, json: &str) -> (row: EventRow)
    ensures
        row.kind@ == event.kind_text(),
        row.summary@ == event.summary_text(),
        row.data_json@ == json@,
{
    EventRow {
        kind: event.kind().to_owned(),
        summary: event.summary(),
        data_json: json.to_owned(),
    }
}

/// What is stored of an alert.
#[derive(Debug, Clone)]
pub struct AlertRow {
    pub rule: String,
    pub severity: String,
    pub message: String,
    pub data_json: String,
}

/// What is stored of an alert.
pub fn alert_row(alert: &Alert) -> (row: AlertRow)
    ensures
        row.rule@ == alert.rule@,
        row.severity@ == alert.severity.label_text(),
        row.message@ == alert.message@,
        row.data_json@ == alert.event_json@,
{
    AlertRow {
        rule: alert.rule.clone(),
        severity: alert.severity.label().to_owned(),
        message: alert.message.clone(),
        data_json: alert.event_json.clone(),
    }
}

} // verus!
