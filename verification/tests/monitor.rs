use edr::collector::network_proc::ProcDir;
use edr::common::Severity;
use edr::interface::tui::Colour;
use edr::monitor::detector::{
    evaluate, evaluate_at, findings, rule_crontab_write, rule_exec_from_tmp, rule_shadow_access,
    rule_ssh_key_write, rule_suspicious_shell,
};
use edr::monitor::ebpf::{decode, process_event, process_event_at, ExecEvent, EXEC_EVENT_SIZE};
use edr::monitor::events::{Event, FileEvent, NetworkEvent, ProcessEvent};
use edr::monitor::files::{file_event, file_event_at, mask_to_str, Mask, WATCHED};
use edr::monitor::network::{
    connection_event, connection_event_at, new_connections, parse_addr, parse_tcp,
};
use edr::monitor::storage::{
    alert_row, event_row, COUNT_ALERTS, COUNT_EVENTS, INSERT_ALERT, INSERT_EVENT, PRAGMAS,
    RECENT_ALERTS, SCHEMA,
};
use edr::monitor::tui::{alert_spans, closes, header, title, Key};
use edr::time::Timestamp;
use rusqlite::Connection;

fn stamp() -> Timestamp {
    Timestamp::new(1_700_000_000, 0).unwrap()
}

fn exec(exe: &str, uid: u32) -> Event {
    Event::Process(ProcessEvent { pid: 7, uid, exe: exe.into(), timestamp: stamp() })
}

fn file(path: &str, operation: &str) -> Event {
    Event::File(FileEvent { path: path.into(), operation: operation.into(), timestamp: stamp() })
}

fn connection() -> Event {
    Event::Network(NetworkEvent {
        pid: 7,
        dst_ip: "1.2.3.4".into(),
        dst_port: 443,
        timestamp: stamp(),
    })
}

fn rules(event: &Event) -> Vec<String> {
    findings(event).into_iter().map(|f| f.rule).collect()
}

#[test]
fn rules_of_the_monitor() {
    assert_eq!(rules(&exec("/tmp/x", 0)), vec!["R-001"]);
    assert_eq!(rules(&exec("/dev/shm/x", 0)), vec!["R-001"]);
    assert_eq!(rules(&exec("/tmp/bash", 5)), vec!["R-001", "R-004"]);
    for shell in ["/bin/bash", "/bin/sh", "/usr/bin/zsh", "/bin/dash"] {
        assert_eq!(rules(&exec(shell, 1)), vec!["R-004"]);
        assert!(rules(&exec(shell, 0)).is_empty());
    }
    assert!(rules(&exec("/usr/bin/fish", 1)).is_empty());
    assert!(rules(&exec("/tmpx", 1)).is_empty());
    assert_eq!(rules(&file("/etc/shadow", "OPEN")), vec!["R-002"]);
    assert!(rules(&file("/home/u/shadow_notes.txt", "MODIFY")).is_empty());
    assert!(rules(&file("/etc/shadow-", "MODIFY")).is_empty());
    for path in [
        "/etc/crontab",
        "/etc/cron.d/job",
        "/etc/crontabs/root",
        "/etc/anacrontab",
        "/var/spool/cron",
        "/var/spool/cron/crontabs/root",
        "/var/spool/anacron/cron.daily",
    ] {
        assert_eq!(rules(&file(path, "MODIFY")), vec!["R-003"]);
        assert_eq!(rules(&file(path, "CREATE")), vec!["R-003"]);
        assert!(rules(&file(path, "DELETE")).is_empty());
    }
    assert!(rules(&file("/tmp/micron.log", "MODIFY")).is_empty());
    assert_eq!(rules(&file("/root/.ssh/id", "CREATE")), vec!["R-005"]);
    assert!(rules(&file("/root/.ssh/id", "OPEN")).is_empty());
    assert_eq!(rules(&file("/home/u/.ssh/authorized_keys", "MODIFY")), vec!["R-005"]);
    assert!(rules(&file("/tmp/a.sshd.log", "MODIFY")).is_empty());
    assert_eq!(rules(&file("/etc/cron.d/.ssh/x", "MODIFY")), vec!["R-003", "R-005"]);
    assert!(rules(&connection()).is_empty());
}

#[test]
fn messages_of_the_monitor() {
    let f = rule_exec_from_tmp(&exec("/tmp/x", 0)).unwrap();
    assert_eq!(f.severity, Severity::High);
    assert_eq!(f.message, "Exécution depuis répertoire temporaire : /tmp/x (pid=7)");
    let f = rule_shadow_access(&file("/etc/shadow", "OPEN")).unwrap();
    assert_eq!(f.severity, Severity::Critical);
    assert_eq!(f.message, "Accès à /etc/shadow : /etc/shadow (OPEN)");
    let f = rule_crontab_write(&file("/etc/crontab", "MODIFY")).unwrap();
    assert_eq!(
        (f.severity, f.message.as_str()),
        (Severity::High, "Modification crontab : /etc/crontab")
    );
    let f = rule_suspicious_shell(&exec("/bin/sh", 5)).unwrap();
    assert_eq!(f.severity, Severity::Medium);
    assert_eq!(f.message, "Shell interactif lancé : /bin/sh (uid=5, pid=7)");
    let f = rule_ssh_key_write(&file("/root/.ssh/id", "CREATE")).unwrap();
    assert_eq!(
        (f.severity, f.message.as_str()),
        (Severity::High, "Modification clé SSH : /root/.ssh/id")
    );
    assert!(rule_shadow_access(&connection()).is_none());
}

#[test]
fn alerts_of_the_monitor() {
    let alerts = evaluate_at(&exec("/tmp/sh", 5), "json", stamp());
    assert_eq!(alerts.len(), 2);
    assert_eq!(alerts[1].rule, "R-004");
    assert_eq!(alerts[1].timestamp, stamp());
    assert_eq!(alerts[1].event_json, "json");
    let now = evaluate(&exec("/tmp/sh", 5), "json");
    assert_eq!(now.len(), 2);
    assert_eq!(now[0].rule, "R-001");
    assert!(now[0].timestamp.secs() > stamp().secs());
}

#[test]
fn events_of_the_monitor() {
    assert_eq!(exec("/x", 5).summary(), "EXEC  pid=7 uid=5 /x");
    assert_eq!(file("/x", "OPEN").summary(), "FILE  [OPEN] /x");
    assert_eq!(connection().summary(), "NET   pid=7 → 1.2.3.4:443");
    assert_eq!(exec("/x", 5).kind(), "process");
    assert_eq!(file("/x", "OPEN").kind(), "file");
    assert_eq!(connection().kind(), "network");
    assert_eq!(connection().timestamp(), stamp());
}

#[test]
fn reports_of_programs() {
    let mut bytes = vec![0u8; EXEC_EVENT_SIZE];
    bytes[0] = 7;
    bytes[5] = 1;
    bytes[8..14].copy_from_slice(b"/bin/x");
    let report = decode(&bytes).unwrap();
    assert_eq!((report.pid, report.uid), (7, 256));
    match process_event_at(&report, stamp()) {
        Event::Process(e) => assert_eq!((e.pid, e.uid, e.exe.as_str()), (7, 256, "/bin/x")),
        other => panic!("{:?}", other),
    }
    bytes[8] = 0xff;
    match process_event(&decode(&bytes).unwrap()) {
        Event::Process(e) => assert_eq!(e.exe, "\u{fffd}bin/x"),
        other => panic!("{:?}", other),
    }
    assert!(decode(&bytes[1..]).is_none());
    let report = ExecEvent::of_ids(0x5_0000_0006, 0x7_0000_0008);
    assert_eq!((report.pid, report.uid), (6, 8));
    assert_eq!(report.filename, [0u8; 256]);
}

#[test]
fn touched_files() {
    let none = Mask { create: false, modify: false, delete: false, open: false };
    assert_eq!(mask_to_str(none), "OTHER");
    assert_eq!(mask_to_str(Mask { open: true, ..none }), "OPEN");
    assert_eq!(mask_to_str(Mask { open: true, delete: true, ..none }), "DELETE");
    assert_eq!(mask_to_str(Mask { delete: true, modify: true, ..none }), "MODIFY");
    assert_eq!(mask_to_str(Mask { create: true, modify: true, ..none }), "CREATE");
    match file_event_at("/etc/shadow", None, none, stamp()) {
        Event::File(e) => {
            assert_eq!((e.path.as_str(), e.operation.as_str()), ("/etc/shadow", "OTHER"));
            assert_eq!(e.timestamp, stamp());
        }
        other => panic!("{:?}", other),
    }
    assert_eq!(file_event("/tmp", Some("x".into()), none).summary(), "FILE  [OTHER] /tmp/x");
    let open = Mask { open: true, ..none };
    let create = Mask { create: true, ..none };
    let modify = Mask { modify: true, ..none };
    assert_eq!(rules(&file_event("/etc/shadow", None, open)), vec!["R-002"]);
    assert_eq!(rules(&file_event("/var/spool/cron", Some("root".into()), create)), vec!["R-003"]);
    assert_eq!(rules(&file_event("/root/.ssh", Some("id".into()), modify)), vec!["R-005"]);
    assert_eq!(WATCHED.len(), 6);
    assert_eq!(WATCHED[1], "/etc/shadow");
}

#[test]
fn connections_of_the_monitor() {
    let content = "heading
   0: 0100007F:0050 0200A8C0:01BB 01 0:0 0:0 0 1000 0 42 1 0 20 4 30 10 -1
   1: 0100007F:0050 0200A8C0:01BB 0A 0:0 0:0 0 1000 0 42 1 0 20 4 30 10 -1
   2: nonsense 0200A8C0:01BC 01 0:0 0:0 0 1000 0 43 1 0 20 4 30 10 -1
";
    let dirs = vec![ProcDir { name: "9".into(), links: vec!["socket:[42]".into()] }];
    let keys = parse_tcp(content, &dirs);
    assert_eq!(keys, vec!["9|192.168.0.2|443", "0|192.168.0.2|444"]);
    assert_eq!(new_connections(&vec![], &keys), keys);
    assert_eq!(new_connections(&vec![keys[0].clone()], &keys), vec![keys[1].clone()]);
    let twice = vec![keys[0].clone(), keys[0].clone()];
    assert_eq!(new_connections(&vec![], &twice), twice);
    match connection_event_at(&keys[0], stamp()) {
        Some(Event::Network(e)) => {
            assert_eq!((e.pid, e.dst_ip.as_str(), e.dst_port), (9, "192.168.0.2", 443));
        }
        other => panic!("{:?}", other),
    }
    assert!(connection_event("1|2").is_none());
    match connection_event("x|y|z") {
        Some(Event::Network(e)) => assert_eq!((e.pid, e.dst_ip.as_str(), e.dst_port), (0, "y", 0)),
        other => panic!("{:?}", other),
    }
    assert_eq!(parse_addr("0100007F:0050"), Some(("127.0.0.1".into(), 80)));
    assert_eq!(parse_addr("0100007F"), None);
}

#[test]
fn database_of_the_monitor() {
    let conn = Connection::open(":memory:").unwrap();
    conn.execute_batch(PRAGMAS).unwrap();
    conn.execute_batch(SCHEMA).unwrap();
    let event = exec("/tmp/x", 0);
    let row = event_row(&event, "json");
    conn.execute(INSERT_EVENT, (row.kind, row.summary, row.data_json)).unwrap();
    for alert in evaluate_at(&event, "json", stamp()) {
        let row = alert_row(&alert);
        conn.execute(INSERT_ALERT, (row.rule, row.severity, row.message, row.data_json)).unwrap();
    }
    let events: i64 = conn.query_row(COUNT_EVENTS, [], |r| r.get(0)).unwrap();
    let alerts: i64 = conn.query_row(COUNT_ALERTS, [], |r| r.get(0)).unwrap();
    assert_eq!((events, alerts), (1, 1));
    let (rule, severity): (String, String) =
        conn.query_row(RECENT_ALERTS, [30i64], |r| Ok((r.get(0)?, r.get(1)?))).unwrap();
    assert_eq!((rule.as_str(), severity.as_str()), ("R-001", "HIGH"));
    let summary: String = conn.query_row("SELECT summary FROM events", [], |r| r.get(0)).unwrap();
    assert_eq!(summary, "EXEC  pid=7 uid=0 /tmp/x");
}

#[test]
fn dashboard_of_the_monitor() {
    assert_eq!(
        header(3, 2),
        "  EDR Linux  │  Événements : 3  │  Alertes : 2  │  rafraîchissement : 300ms"
    );
    assert_eq!(title(2), " Alertes (2) — les plus récentes en haut ");
    let spans = alert_spans("R-001", "HIGH", "message", "now");
    assert_eq!(spans.colour, Colour::Yellow);
    assert_eq!(spans.severity, " HIGH     ");
    assert_eq!(spans.rule, "R-001    ");
    assert_eq!(spans.time, "[now] ");
    assert_eq!(spans.message, "message");
    assert_eq!(alert_spans("", "CRITICAL", "", "").colour, Colour::Red);
    assert_eq!(alert_spans("", "MEDIUM", "", "").colour, Colour::Blue);
    assert_eq!(alert_spans("", "LOW", "", "").colour, Colour::Gray);
    assert!(closes(Key::Char('q')) && closes(Key::Esc));
    assert!(!closes(Key::Char('Q')) && !closes(Key::Other));
}
