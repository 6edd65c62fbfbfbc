use edr::common::{
    Alert, EdrEvent, ExitEvent, FileEvent, FileOperation, ForkEvent, NetworkEvent, NetworkProtocol,
    ProcessEvent, RawEvent, RawEventType, Severity,
};
use edr::config::Config;
use edr::interface::cli::{ecs_documents, export_json};
use edr::json::{find_text, read_text};
use edr::time::Timestamp;
use serde_json::Value;

fn alert() -> Alert {
    Alert {
        id: Some(7),
        rule_id: "R-001".into(),
        rule_description: "Une \"alerte\"".into(),
        severity: Severity::High,
        timestamp: Timestamp::new(1_700_000_000, 0).unwrap(),
        pid: 42,
        mitre_technique: Some("T1059".into()),
        event_json: "{}".into(),
        action_taken: None,
    }
}

#[test]
fn alert_in_the_common_schema() {
    assert_eq!(
        alert().to_ecs().to_string(),
        "{\"@timestamp\":\"2023-11-14T22:13:20+00:00\",\
         \"event\":{\"category\":[\"intrusion_detection\"],\"kind\":\"alert\",\"severity\":75,\
         \"type\":[\"indicator\"]},\
         \"labels\":{\"edr_action\":null},\
         \"message\":\"Une \\\"alerte\\\"\",\
         \"process\":{\"pid\":42},\
         \"rule\":{\"description\":\"Une \\\"alerte\\\"\",\"id\":\"R-001\"},\
         \"threat\":{\"technique\":{\"id\":\"T1059\"}}}"
    );
    for (severity, n) in [
        (Severity::Low, 25),
        (Severity::Medium, 50),
        (Severity::High, 75),
        (Severity::Critical, 100),
    ] {
        let mut a = alert();
        a.severity = severity;
        assert_eq!(a.to_ecs()["event"]["severity"], Value::from(n));
    }
}

#[test]
fn alerts_in_json() {
    assert_eq!(export_json(&[]), "[]");
    let alerts = [alert(), alert()];
    let documents = ecs_documents(&alerts);
    assert_eq!(documents.as_array().unwrap().len(), 2);
    assert_eq!(documents[1], alert().to_ecs());
    let text = export_json(&alerts);
    assert_eq!(text, serde_json::to_string_pretty(&documents).unwrap());
    assert!(text.starts_with("[\n  {\n    \"@timestamp\": \"2023-11-14T22:13:20+00:00\",\n"));
}

#[test]
fn texts_in_json() {
    let json = "{\"File\":{\"path\":\"/a\",\"pid\":3},\"x\":1}";
    assert_eq!(read_text(json, "File", "path").as_deref(), Some("/a"));
    assert_eq!(read_text(json, "File", "pid"), None);
    assert_eq!(read_text(json, "File", "name"), None);
    assert_eq!(read_text(json, "Network", "path"), None);
    assert_eq!(read_text(json, "x", "path"), None);
    assert_eq!(read_text("{", "File", "path"), None);
    assert_eq!(read_text("", "File", "path"), None);
    let mut inner = serde_json::Map::new();
    inner.insert("b".into(), Value::String("c".into()));
    let mut outer = serde_json::Map::new();
    outer.insert("a".into(), Value::Object(inner));
    assert_eq!(find_text(&Value::Object(outer), "a", "b").as_deref(), Some("c"));
    assert_eq!(find_text(&Value::Null, "a", "b"), None);
}

#[test]
fn severities() {
    for (severity, label) in [
        (Severity::Low, "LOW"),
        (Severity::Medium, "MEDIUM"),
        (Severity::High, "HIGH"),
        (Severity::Critical, "CRITICAL"),
    ] {
        assert_eq!(severity.label(), label);
        assert_eq!(Severity::from_str(label).unwrap(), severity);
        assert_eq!(Severity::from_str(&label.to_lowercase()).unwrap(), severity);
        assert_eq!(Severity::from_str_or_medium(label), severity);
    }
    assert_eq!(Severity::from_str("cRitical").unwrap(), Severity::Critical);
    let e = Severity::from_str("ÉLEVÉ").unwrap_err();
    assert_eq!(e.name, "élevé");
    assert_eq!(e.message(), "Sévérité inconnue: élevé");
    assert_eq!(Severity::from_str_or_medium("?"), Severity::Medium);
    assert_eq!(Severity::from_small("LOW"), None);
    assert!(Severity::Low < Severity::Medium && Severity::High < Severity::Critical);
}

#[test]
fn file_operations() {
    let names =
        ["Open", "Read", "Write", "Create", "Delete", "Rename", "Chmod"];
    for (i, name) in names.iter().enumerate() {
        assert_eq!(FileOperation::from(i as u32 + 1).name(), *name);
    }
    assert_eq!(FileOperation::from(0).name(), "Unknown(0)");
    assert_eq!(FileOperation::from(8), FileOperation::Unknown(8));
}

#[test]
fn raw_event_types() {
    let kinds = [
        RawEventType::Execve,
        RawEventType::Fork,
        RawEventType::Exit,
        RawEventType::FileOp,
        RawEventType::NetConn,
    ];
    for (code, kind) in kinds.into_iter().enumerate() {
        assert_eq!(RawEventType::try_from(code as u32), Ok(kind));
    }
    assert!(RawEventType::try_from(5).is_err());
}

#[test]
fn raw_texts() {
    assert_eq!(RawEvent::str_from_bytes(b"/bin/sh\0junk"), "/bin/sh");
    assert_eq!(RawEvent::str_from_bytes(b"no end"), "no end");
    assert_eq!(RawEvent::str_from_bytes(b""), "");
    assert_eq!(RawEvent::str_from_bytes("é\0".as_bytes()), "é");
    assert_eq!(RawEvent::str_from_bytes(&[0xff, 0xfe, 0]), "<invalid utf8>");
}

#[test]
fn events() {
    let t = |n| Timestamp::new(n, 0).unwrap();
    let list = [
        EdrEvent::Process(ProcessEvent {
            pid: 1,
            ppid: 0,
            uid: 0,
            gid: 0,
            timestamp: t(1),
            exe_path: "".into(),
            args: "".into(),
            cwd: "".into(),
            username: "".into(),
            sha256: None,
        }),
        EdrEvent::Fork(ForkEvent { parent_pid: 2, child_pid: 9, timestamp: t(2) }),
        EdrEvent::Exit(ExitEvent { pid: 3, exit_code: 0, timestamp: t(3), lifetime_ms: 0 }),
        EdrEvent::File(FileEvent {
            pid: 4,
            timestamp: t(4),
            path: "".into(),
            operation: FileOperation::Open,
            sha256: None,
        }),
        EdrEvent::Network(NetworkEvent {
            pid: 5,
            timestamp: t(5),
            src_ip: "".into(),
            src_port: 0,
            dst_ip: "".into(),
            dst_port: 0,
            protocol: NetworkProtocol::Udp,
        }),
    ];
    let names = ["process", "fork", "exit", "file", "network"];
    for (i, event) in list.iter().enumerate() {
        assert_eq!(event.pid(), i as u32 + 1);
        assert_eq!(event.timestamp(), t(i as i64 + 1));
        assert_eq!(event.event_type_str(), names[i]);
    }
}

#[test]
fn default_settings() {
    let c = Config::default();
    assert_eq!(c.agent.pid_file, "/run/edr.pid");
    assert_eq!(c.agent.quarantine_dir, "/var/edr/quarantine");
    assert_eq!(c.agent.log_dir, "/var/log/edr");
    assert_eq!(c.storage.db_path, "/var/lib/edr/events.db");
    assert_eq!(c.storage.retention_days, 30);
    assert_eq!(c.storage.memory_buffer_size, 10_000);
    assert_eq!(
        c.collector.watched_paths,
        vec!["/etc/", "/root/.ssh/", "/home/", "/var/spool/cron/"]
    );
    assert_eq!(c.collector.ring_buffer_size, 4 * 1024 * 1024);
    assert!(c.collector.network_monitoring);
    assert_eq!(c.collector.ip_reputation_file, None);
    assert_eq!(c.collector.network_scan_threshold, 50);
    assert!(!c.response.active_mode);
    assert!(c.response.log_actions);
    assert_eq!(c.export.webhook_url, None);
    assert_eq!(c.export.alert_log_file.as_deref(), Some("/var/log/edr/alerts.jsonl"));
}
