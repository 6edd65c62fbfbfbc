use edr::common::{Alert, EdrEvent, ExitEvent, ProcessEvent, Severity};
use edr::storage::{
    action_row, alert_from_row_at, alerts_from_rows, alerts_from_rows_at, alert_query, alert_query_of, alert_row,
    event_document, event_row, rotation_offset, severities_from, severities_gte, AlertRow, DbStats,
    COUNT_ALERTS, COUNT_CRITICAL, COUNT_EVENTS, DELETE_OLD_EVENTS, INSERT_ACTION, INSERT_ALERT,
    INSERT_EVENT, PRAGMAS, RECENT_EVENTS, SCHEMA, SELECT_ALERTS,
};
use edr::time::Timestamp;
use rusqlite::{params_from_iter, Connection};

struct Database {
    conn: Connection,
}

impl Database {
    fn insert_event(&self, event: &EdrEvent) -> i64 {
        let row = event_row(event, "{}");
        self.conn
            .execute(INSERT_EVENT, (row.event_type, row.pid, row.timestamp, row.data_json))
            .expect("Insert event");
        self.conn.last_insert_rowid()
    }

    fn insert_alert(&self, alert: &Alert) -> i64 {
        let row = alert_row(alert);
        self.conn
            .execute(
                INSERT_ALERT,
                (
                    row.rule_id,
                    row.description,
                    row.severity,
                    row.pid,
                    row.timestamp,
                    row.mitre_technique,
                    row.event_json,
                    row.action_taken,
                ),
            )
            .expect("Insert alert");
        self.conn.last_insert_rowid()
    }

    fn query_alerts(&self, min: Option<&str>, hours: Option<u64>, limit: usize) -> Vec<Alert> {
        let query = alert_query(min, hours, limit);
        let mut stmt = self.conn.prepare(&query.sql).expect("Query alerts");
        let rows = stmt
            .query_map(params_from_iter(query.params.iter()), |row| {
                Ok((
                    row.get::<_, i64>(8)?,
                    AlertRow {
                        rule_id: row.get(0)?,
                        description: row.get(1)?,
                        severity: row.get(2)?,
                        pid: row.get(3)?,
                        timestamp: row.get(4)?,
                        mitre_technique: row.get(5)?,
                        event_json: row.get(6)?,
                        action_taken: row.get(7)?,
                    },
                ))
            })
            .expect("Query alerts");
        alerts_from_rows(rows.map(|r| r.expect("Row")).collect())
    }

    fn stats(&self) -> DbStats {
        let count = |sql: &str| self.conn.query_row(sql, [], |r| r.get(0)).expect("Stats");
        DbStats {
            event_count: count(COUNT_EVENTS),
            alert_count: count(COUNT_ALERTS),
            critical_count: count(COUNT_CRITICAL),
        }
    }
}

fn make_test_db() -> Database {
    let conn = Connection::open(":memory:").expect("DB en mémoire");
    conn.execute_batch(PRAGMAS).expect("Réglages");
    conn.execute_batch(SCHEMA).expect("Migration");
    Database { conn }
}

fn make_alert(severity: Severity) -> Alert {
    Alert {
        id: None,
        rule_id: "TEST".into(),
        rule_description: "test".into(),
        severity,
        timestamp: Timestamp::now(),
        pid: 1,
        mitre_technique: None,
        event_json: "{}".into(),
        action_taken: None,
    }
}

#[test]
fn insert_and_query_event() {
    let db = make_test_db();
    let ev = EdrEvent::Process(ProcessEvent {
        pid: 42,
        ppid: 1,
        uid: 0,
        gid: 0,
        timestamp: Timestamp::now(),
        exe_path: "/usr/bin/test".into(),
        args: "".into(),
        cwd: "/".into(),
        username: "root".into(),
        sha256: None,
    });
    let id = db.insert_event(&ev);
    assert!(id > 0);

    let stats = db.stats();
    assert_eq!(stats.event_count, 1);
}

#[test]
fn insert_and_query_alert() {
    let db = make_test_db();
    let alert = Alert {
        id: None,
        rule_id: "R-001".into(),
        rule_description: "Test alert".into(),
        severity: Severity::High,
        timestamp: Timestamp::now(),
        pid: 1234,
        mitre_technique: Some("T1059".into()),
        event_json: "{}".into(),
        action_taken: Some("Alert".into()),
    };
    let id = db.insert_alert(&alert);
    assert!(id > 0);

    let alerts = db.query_alerts(Some("high"), None, 10);
    assert_eq!(alerts.len(), 1);
    assert_eq!(alerts[0].rule_id, "R-001");
}

#[test]
fn severity_filter_works() {
    let db = make_test_db();

    let insert = |sev: Severity| {
        db.insert_alert(&make_alert(sev));
    };

    insert(Severity::Low);
    insert(Severity::Medium);
    insert(Severity::High);
    insert(Severity::Critical);

    let high_plus = db.query_alerts(Some("high"), None, 100);
    assert_eq!(high_plus.len(), 2, "Devrait retourner HIGH et CRITICAL uniquement");

    let all = db.query_alerts(Some("low"), None, 100);
    assert_eq!(all.len(), 4);
}

#[test]
fn stored_alerts_are_read_back() {
    let db = make_test_db();
    let written = Alert {
        id: None,
        rule_id: "R, \"1\"".into(),
        rule_description: "é\n".into(),
        severity: Severity::Critical,
        timestamp: Timestamp::new(1_700_000_000, 123_456_789).unwrap(),
        pid: u32::MAX,
        mitre_technique: Some("T1".into()),
        event_json: "{\"a\":1}".into(),
        action_taken: Some("Kill".into()),
    };
    let id = db.insert_alert(&written);
    let read = db.query_alerts(None, None, usize::MAX);
    assert_eq!(read.len(), 1);
    assert_eq!(read[0].id, Some(id));
    assert_eq!(read[0].rule_id, written.rule_id);
    assert_eq!(read[0].rule_description, written.rule_description);
    assert_eq!(read[0].severity, written.severity);
    assert_eq!(read[0].timestamp, written.timestamp);
    assert_eq!(read[0].pid, written.pid);
    assert_eq!(read[0].mitre_technique, written.mitre_technique);
    assert_eq!(read[0].event_json, written.event_json);
    assert_eq!(read[0].action_taken, written.action_taken);
    assert_eq!(db.stats(), DbStats { event_count: 0, alert_count: 1, critical_count: 1 });
}

#[test]
fn unreadable_rows() {
    let row = AlertRow {
        rule_id: "R".into(),
        description: "d".into(),
        severity: "?".into(),
        pid: -1,
        timestamp: "yesterday".into(),
        mitre_technique: None,
        event_json: "".into(),
        action_taken: None,
    };
    let now = Timestamp::new(77, 0).unwrap();
    let list = alerts_from_rows_at(vec![(3, row.clone()), (2, row.clone())], now);
    assert_eq!(list.iter().map(|a| a.id).collect::<Vec<_>>(), vec![Some(3), Some(2)]);
    assert_eq!(list[1].timestamp, now);
    let a = alert_from_row_at(row, 3, now);
    assert_eq!(a.id, Some(3));
    assert_eq!(a.severity, Severity::Medium);
    assert_eq!(a.timestamp, now);
    assert_eq!(a.pid, u32::MAX);
}

#[test]
fn alerts_come_newest_first_and_limited() {
    let db = make_test_db();
    for _ in 0..5 {
        db.insert_alert(&make_alert(Severity::Low));
    }
    let ids: Vec<_> = db.query_alerts(None, None, 3).iter().map(|a| a.id.unwrap()).collect();
    assert_eq!(ids, vec![5, 4, 3]);
    assert!(db.query_alerts(None, None, 0).is_empty());
}

#[test]
fn grave_alerts_are_found_newest_first() {
    let db = make_test_db();
    let order = [Severity::Critical, Severity::Low, Severity::High, Severity::Medium];
    let mut stored: Vec<(i64, Severity)> = Vec::new();
    for n in 0..12 {
        let severity = order[n % 4];
        stored.push((db.insert_alert(&make_alert(severity)), severity));
    }
    let floors = [
        (None, 0),
        (Some("nonsense"), 0),
        (Some("LOW"), 0),
        (Some("Medium"), 1),
        (Some("hIgH"), 2),
        (Some("critical"), 3),
    ];
    let rank = |severity: Severity| match severity {
        Severity::Low => 0,
        Severity::Medium => 1,
        Severity::High => 2,
        Severity::Critical => 3,
    };
    for (min, floor) in floors {
        for limit in [0, 1, 4, 12, 100, usize::MAX] {
            let expected: Vec<(i64, Severity)> = stored
                .iter()
                .rev()
                .filter(|(_, severity)| rank(*severity) >= floor)
                .take(limit)
                .cloned()
                .collect();
            for _ in 0..2 {
                let found: Vec<(i64, Severity)> = db
                    .query_alerts(min, None, limit)
                    .iter()
                    .map(|a| (a.id.unwrap(), a.severity))
                    .collect();
                assert_eq!(found, expected);
            }
        }
    }
    assert_eq!(db.stats().alert_count, 12);
}

#[test]
fn old_alerts_are_left_out() {
    let db = make_test_db();
    let mut old = make_alert(Severity::Low);
    let hour = 3600;
    old.timestamp = Timestamp::new(Timestamp::now().secs() - 3 * hour, 0).unwrap();
    db.insert_alert(&old);
    db.insert_alert(&make_alert(Severity::Low));
    assert_eq!(db.query_alerts(None, Some(2), 10).len(), 1);
    assert_eq!(db.query_alerts(None, Some(4), 10).len(), 2);
    assert_eq!(db.query_alerts(Some("critical"), Some(4), 10).len(), 0);
}

#[test]
fn question_for_alerts() {
    let q = alert_query(None, None, 50);
    assert_eq!(q.sql, format!("{} ORDER BY id DESC LIMIT 50", SELECT_ALERTS));
    assert!(q.params.is_empty());
    let q = alert_query(Some("Medium"), Some(24), 7);
    assert_eq!(
        q.sql,
        format!(
            "{} AND severity IN (?1,?2,?3) AND datetime(timestamp) >= datetime('now', '-24 hours') \
             ORDER BY id DESC LIMIT 7",
            SELECT_ALERTS
        )
    );
    assert_eq!(q.params, vec!["MEDIUM", "HIGH", "CRITICAL"]);
    let q = alert_query_of(Some(vec![]), None, usize::MAX);
    assert_eq!(
        q.sql,
        format!("{} AND severity IN () ORDER BY id DESC LIMIT 9223372036854775807", SELECT_ALERTS)
    );
}

#[test]
fn severities_at_least() {
    assert_eq!(severities_gte("LOW"), vec!["LOW", "MEDIUM", "HIGH", "CRITICAL"]);
    assert_eq!(severities_gte("medium"), vec!["MEDIUM", "HIGH", "CRITICAL"]);
    assert_eq!(severities_gte("High"), vec!["HIGH", "CRITICAL"]);
    assert_eq!(severities_gte("cRiTiCaL"), vec!["CRITICAL"]);
    assert_eq!(severities_gte("other"), vec!["LOW", "MEDIUM", "HIGH", "CRITICAL"]);
    assert_eq!(severities_from("HIGH"), vec!["LOW", "MEDIUM", "HIGH", "CRITICAL"]);
}

#[test]
fn stored_events() {
    let db = make_test_db();
    let event = EdrEvent::Exit(ExitEvent {
        pid: 9,
        exit_code: 1,
        timestamp: Timestamp::new(0, 0).unwrap(),
        lifetime_ms: 0,
    });
    db.insert_event(&event);
    db.insert_event(&event);
    let documents: Vec<serde_json::Value> = db
        .conn
        .prepare(RECENT_EVENTS)
        .unwrap()
        .query_map([1i64], |row| {
            Ok(event_document(
                row.get(0)?,
                &row.get::<_, String>(1)?,
                row.get(2)?,
                &row.get::<_, String>(3)?,
                &row.get::<_, String>(4)?,
            ))
        })
        .unwrap()
        .map(|r| r.unwrap())
        .collect();
    assert_eq!(documents.len(), 1);
    assert_eq!(
        documents[0].to_string(),
        "{\"data\":\"{}\",\"event_type\":\"exit\",\"id\":2,\"pid\":9,\
         \"timestamp\":\"1970-01-01T00:00:00+00:00\"}"
    );
}

#[test]
fn old_events_are_deleted() {
    let db = make_test_db();
    let event = EdrEvent::Exit(ExitEvent {
        pid: 9,
        exit_code: 1,
        timestamp: Timestamp::now(),
        lifetime_ms: 0,
    });
    db.insert_event(&event);
    db.insert_event(&event);
    db.conn
        .execute("UPDATE events SET created_at = datetime('now', '-31 days') WHERE id = 1", [])
        .unwrap();
    assert_eq!(rotation_offset(30), "-30 days");
    db.insert_alert(&make_alert(Severity::Low));
    assert_eq!(db.conn.execute(DELETE_OLD_EVENTS, [rotation_offset(u32::MAX)]).unwrap(), 0);
    assert_eq!(db.conn.execute(DELETE_OLD_EVENTS, [rotation_offset(32)]).unwrap(), 0);
    assert_eq!(db.stats().event_count, 2);
    assert_eq!(db.conn.execute(DELETE_OLD_EVENTS, [rotation_offset(30)]).unwrap(), 1);
    assert_eq!(db.stats(), DbStats { event_count: 1, alert_count: 1, critical_count: 0 });
    let left: i64 = db.conn.query_row("SELECT id FROM events", [], |r| r.get(0)).unwrap();
    assert_eq!(left, 2);
    assert_eq!(db.conn.execute(DELETE_OLD_EVENTS, [rotation_offset(30)]).unwrap(), 0);
    assert_eq!(db.stats().event_count, 1);
}

#[test]
fn stored_actions() {
    let db = make_test_db();
    let id = db.insert_alert(&make_alert(Severity::High));
    let row = action_row(Some(id), "kill", Some("pid:7"), true, false, None);
    assert_eq!((row.success, row.dry_run), (1, 0));
    assert_eq!(row.target.as_deref(), Some("pid:7"));
    assert_eq!(row.reason, None);
    let n = db
        .conn
        .execute(
            INSERT_ACTION,
            (row.alert_id, row.action_type, row.target, row.success, row.dry_run, row.reason),
        )
        .unwrap();
    assert_eq!(n, 1);
    let row = action_row(None, "kill", None, false, true, Some("r"));
    assert_eq!((row.alert_id, row.success, row.dry_run), (None, 0, 1));
    assert_eq!(row.reason.as_deref(), Some("r"));
}
