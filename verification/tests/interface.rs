use edr::common::{Alert, Severity};
use edr::config::Config;
use edr::interface::cli::{
    daemon_pid, daemon_state, export_alerts, export_csv, list_alerts, process_directory,
    status_report, DaemonState, DbReport,
};
use edr::interface::tui::{
    alert_spans, badge, critical_percentage, gauge_colour, gauge_text, key_action, refresh_is_due,
    Colour, Dashboard, KeyAction,
};
use edr::storage::DbStats;
use edr::time::Timestamp;

fn alert(severity: Severity) -> Alert {
    Alert {
        id: Some(3),
        rule_id: "R-001".into(),
        rule_description: "Une, description".into(),
        severity,
        timestamp: Timestamp::new(1_700_000_000, 0).unwrap(),
        pid: 42,
        mitre_technique: Some("T1059".into()),
        event_json: "{}".into(),
        action_taken: None,
    }
}

#[test]
fn listed_alerts() {
    assert_eq!(list_alerts(&[]), "Aucune alerte trouvée.\n");
    let mut second = alert(Severity::Critical);
    second.id = None;
    second.mitre_technique = None;
    second.rule_description = "x".repeat(51);
    let alerts = [alert(Severity::High), second];
    let expected = format!(
        "\n{:<10} {:<12} {:<10} {:<25} {:<14} {}\n{}\n\
         {:<10} {:<12} \x1b[33m{:<10}\x1b[0m {:<25} {:<14} {}\n\
         {}\x1b[36mMITRE ATT&CK: T1059\x1b[0m\n\
         {:<10} {:<12} \x1b[31m{:<10}\x1b[0m {:<25} {:<14} {}\n\
         \n  2 alerte(s) affichée(s)\n\n",
        "ID", "Règle", "Sévérité", "Timestamp", "PID", "Description", "─".repeat(100),
        3, "R-001", "HIGH", "2023-11-14 22:13:20", 42, "Une, description",
        " ".repeat(11),
        0, "R-001", "CRITICAL", "2023-11-14 22:13:20", 42, format!("{}…", "x".repeat(49)),
    );
    assert_eq!(list_alerts(&alerts), expected);
    assert!(list_alerts(&[alert(Severity::Medium)]).contains("\x1b[34mMEDIUM    \x1b[0m"));
    assert!(list_alerts(&[alert(Severity::Low)]).contains("\x1b[37mLOW       \x1b[0m"));
    let mut odd = alert(Severity::Low);
    odd.rule_description = format!("{}éé", "x".repeat(48));
    assert!(list_alerts(&[odd]).contains(&format!("{}…", "x".repeat(48))));
    let mut odd = alert(Severity::Low);
    odd.rule_description = format!("{}éé", "x".repeat(38));
    assert_eq!(alert_spans(&odd).description, format!("{}…", "x".repeat(38)));
}

#[test]
fn exported_alerts() {
    let alerts = [alert(Severity::High)];
    let table = "id,rule_id,severity,pid,timestamp,mitre_technique,description,action_taken\n\
                 3,R-001,HIGH,42,2023-11-14T22:13:20+00:00,T1059,\"Une, description\",\n";
    assert_eq!(export_csv(&alerts), table);
    assert_eq!(export_alerts(&alerts, "csv").unwrap(), table);
    assert_eq!(export_alerts(&alerts, "CSV").unwrap(), table);
    let json = export_alerts(&alerts, "json").unwrap();
    assert_eq!(json, export_alerts(&alerts, "JSON").unwrap());
    assert!(json.contains("\"id\": \"R-001\""));
    let e = export_alerts(&alerts, "Json").unwrap_err();
    assert_eq!(e.message(), "Format non supporté : Json (utiliser json ou csv)");
}

#[test]
fn reports() {
    let config = Config::default();
    let stats = DbStats { event_count: 12, alert_count: 3, critical_count: 1 };
    let title = "\n╔══════════════════════════════════════╗\n\
                 ║       EDR Linux — Status             ║\n\
                 ╚══════════════════════════════════════╝\n\n";
    let settings = "\n  ── Configuration ────────────────────\n  \
                    Quarantaine  : /var/edr/quarantine\n  \
                    Rétention    : 30 jours\n  \
                    Réseau       : true\n\n";
    assert_eq!(
        status_report(&DaemonState::Running("17".into()), &DbReport::Counted(stats), &config),
        format!(
            "{}  Daemon  : \x1b[32m● En cours\x1b[0m  (PID 17)\n\
             \n  ── Base de données ──────────────────\n  \
             Événements   : {:>10}\n  Alertes      : {:>10}\n  Critiques    : {:>10}\n  \
             DB           : /var/lib/edr/events.db\n{}",
            title, 12, 3, 1, settings
        )
    );
    assert_eq!(
        status_report(&DaemonState::Dead, &DbReport::Unreadable("why".into()), &config),
        format!(
            "{}  Daemon  : \x1b[31m● Arrêté\x1b[0m  (PID file présent mais processus mort)\n  \
             Erreur lecture DB : why\n{}",
            title, settings
        )
    );
    assert_eq!(
        status_report(&DaemonState::Unknown, &DbReport::Unreachable("why".into()), &config),
        format!(
            "{}  Daemon  : \x1b[33m● Inconnu\x1b[0m  (PID file absent)\n\
             \n  Base de données inaccessible : why\n{}",
            title, settings
        )
    );
}

#[test]
fn daemon() {
    assert_eq!(process_directory(" 17\n"), "/proc/17");
    assert!(matches!(daemon_state(Some("17\n".into()), true), DaemonState::Running(p) if p == "17"));
    assert!(matches!(daemon_state(Some("17".into()), false), DaemonState::Dead));
    assert!(matches!(daemon_state(None, true), DaemonState::Unknown));
    assert_eq!(daemon_pid(" 17\n"), Ok(17));
    assert_eq!(daemon_pid("-3"), Ok(-3));
    for bad in ["", "x", "1 2", "2147483648"] {
        assert_eq!(daemon_pid(bad), Err("PID invalide dans /run/edr.pid".into()));
    }
}

#[test]
fn dashboard_keeps_the_last_minute() {
    let mut d = Dashboard::new();
    assert_eq!(d.events_per_sec, vec![0; 60]);
    d.refresh(Some(DbStats { event_count: 5000, alert_count: 9, critical_count: 1 }), None);
    assert_eq!(d.events_per_sec, vec![0; 60]);
    assert_eq!((d.total_events, d.last_event_count), (5000, Some(5000)));
    let mut d = Dashboard::new();
    for n in 1..=70i64 {
        let stats = DbStats { event_count: n * n, alert_count: n, critical_count: 1 };
        d.refresh(Some(stats), None);
    }
    assert_eq!(d.events_per_sec.len(), 60);
    assert_eq!(d.events_per_sec[59], 139);
    assert_eq!(d.events_per_sec[0], 21);
    assert_eq!((d.total_events, d.total_alerts, d.critical_alerts, d.tick), (4900, 70, 1, 70));
    // Fewer events than before count as none.
    d.refresh(
        Some(DbStats { event_count: 0, alert_count: 0, critical_count: 0 }),
        Some(vec![alert(Severity::Low)]),
    );
    assert_eq!(d.events_per_sec[59], 0);
    assert_eq!(d.recent_alerts.len(), 1);
    d.refresh(None, None);
    assert_eq!(d.recent_alerts.len(), 1);
    assert_eq!(d.tick, 72);
    assert_eq!(
        d.header(),
        " EDR Linux  ─  Événements: 0  │  Alertes: 0  │  Critiques: 0  │  Refresh #72 "
    );
}

#[test]
fn dashboard_keys_and_colours() {
    assert_eq!(key_action('q', false), KeyAction::Quit);
    assert_eq!(key_action('c', true), KeyAction::Quit);
    assert_eq!(key_action('c', false), KeyAction::Nothing);
    assert_eq!(key_action('r', true), KeyAction::Refresh);
    assert_eq!(key_action('x', false), KeyAction::Nothing);
    assert!(refresh_is_due(1_000_000_000));
    assert!(!refresh_is_due(999_999_999));
    assert_eq!(badge(Severity::Critical), (Colour::Red, "CRIT"));
    assert_eq!(badge(Severity::High), (Colour::Yellow, "HIGH"));
    assert_eq!(badge(Severity::Medium), (Colour::Blue, " MED"));
    assert_eq!(badge(Severity::Low), (Colour::Gray, " LOW"));
    assert_eq!(critical_percentage(0, 0), 0);
    assert_eq!(critical_percentage(5, 0), 0);
    assert_eq!(critical_percentage(1, 3), 33);
    assert_eq!(critical_percentage(3, 3), 100);
    assert_eq!(gauge_colour(20), Colour::Green);
    assert_eq!(gauge_colour(21), Colour::Yellow);
    assert_eq!(gauge_colour(50), Colour::Yellow);
    assert_eq!(gauge_colour(51), Colour::Red);
    assert_eq!(gauge_text(33), " Criticité : 33%");
}

#[test]
fn dashboard_lines() {
    let mut a = alert(Severity::Medium);
    a.rule_description = "y".repeat(41);
    let spans = alert_spans(&a);
    assert_eq!(spans.colour, Colour::Blue);
    assert_eq!(spans.label, "  MED ");
    assert_eq!(spans.rule, "R-001  ");
    assert_eq!(spans.pid, "PID:42      ");
    assert_eq!(spans.time, "22:13:20");
    assert_eq!(spans.description, format!("{}…", "y".repeat(39)));
}
