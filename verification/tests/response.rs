use edr::analyzer::RuleAction;
use edr::common::{Alert, Severity};
use edr::response::{
    drop_arguments, extract_file_path, extract_ip, kill_target, quarantine_metadata,
    requested_action, write_metadata, ResponseEngine, Step, CHAINS,
};
use edr::time::Timestamp;

fn alert(action: Option<&str>, json: &str) -> Alert {
    Alert {
        id: None,
        rule_id: "R-001".into(),
        rule_description: "d".into(),
        severity: Severity::High,
        timestamp: Timestamp::new(0, 0).unwrap(),
        pid: 42,
        mitre_technique: None,
        event_json: json.into(),
        action_taken: action.map(String::from),
    }
}

const FILE: &str = "{\"File\":{\"path\":\"/tmp/x\"}}";
const NETWORK: &str = "{\"Network\":{\"dst_ip\":\"1.2.3.4\"}}";

#[test]
fn actions_are_carried_out() {
    let engine = ResponseEngine::new(false);
    assert!(!engine.is_dry_run());
    assert!(matches!(engine.plan(&alert(Some("Kill"), "")), Step::Kill(42)));
    assert!(
        matches!(engine.plan(&alert(Some("Quarantine"), FILE)), Step::Quarantine(p) if p == "/tmp/x")
    );
    assert!(matches!(engine.plan(&alert(Some("BlockIp"), NETWORK)), Step::BlockIp(i) if i == "1.2.3.4"));
    assert!(matches!(engine.plan(&alert(Some("Alert"), FILE)), Step::Nothing));
    assert!(matches!(engine.plan(&alert(Some("other"), FILE)), Step::Nothing));
    assert!(matches!(engine.plan(&alert(None, FILE)), Step::Nothing));
}

#[test]
fn events_without_a_target() {
    let engine = ResponseEngine::new(false);
    for json in ["", "{", NETWORK, "{\"File\":{\"path\":1}}"] {
        assert!(matches!(engine.plan(&alert(Some("Quarantine"), json)), Step::Warn(w)
            if w == "Quarantaine : chemin introuvable dans l'événement"));
    }
    assert!(matches!(engine.plan(&alert(Some("BlockIp"), FILE)), Step::Warn(w)
        if w == "BlockIp : IP introuvable dans l'événement"));
    assert_eq!(extract_file_path(FILE).as_deref(), Some("/tmp/x"));
    assert_eq!(extract_ip(FILE), None);
    assert_eq!(extract_ip(NETWORK).as_deref(), Some("1.2.3.4"));
}

#[test]
fn dry_runs_only_announce() {
    let engine = ResponseEngine::new(true);
    assert!(engine.is_dry_run());
    assert!(matches!(engine.plan(&alert(Some("Kill"), "")), Step::Announce(s)
        if s == "[DRY-RUN] SIGKILL → PID 42"));
    assert!(matches!(engine.plan(&alert(Some("Quarantine"), FILE)), Step::Announce(s)
        if s == "[DRY-RUN] Quarantaine → /tmp/x"));
    assert!(matches!(engine.plan(&alert(Some("BlockIp"), NETWORK)), Step::Announce(s)
        if s == "[DRY-RUN] iptables DROP → 1.2.3.4"));
    assert!(matches!(engine.step(RuleAction::BlockIp, 1, None, None), Step::Warn(_)));
}

#[test]
fn only_one_process_is_killed() {
    for pid in [0, i32::MAX as u32 + 1, u32::MAX] {
        let step = ResponseEngine::new(false).step(RuleAction::Kill, pid, None, None);
        assert!(matches!(step, Step::Warn(w) if w == format!("Kill : PID invalide : {}", pid)));
        let step = ResponseEngine::new(true).step(RuleAction::Kill, pid, None, None);
        assert!(matches!(step, Step::Announce(s) if s == format!("[DRY-RUN] SIGKILL → PID {}", pid)));
    }
    let engine = ResponseEngine::new(false);
    assert!(matches!(
        engine.step(RuleAction::Kill, i32::MAX as u32, None, None),
        Step::Kill(i32::MAX)
    ));
}

#[test]
fn active_mode_has_to_be_set() {
    assert!(!ResponseEngine::in_mode(false, true).is_dry_run());
    assert!(ResponseEngine::in_mode(false, false).is_dry_run());
    assert!(ResponseEngine::in_mode(true, true).is_dry_run());
    assert!(ResponseEngine::in_mode(true, false).is_dry_run());
}

#[test]
fn requested_actions() {
    for action in
        [RuleAction::Alert, RuleAction::Kill, RuleAction::Quarantine, RuleAction::BlockIp]
    {
        assert_eq!(requested_action(&Some(action.name().into())), action);
    }
    assert_eq!(requested_action(&None), RuleAction::Alert);
    assert_eq!(requested_action(&Some("kill".into())), RuleAction::Alert);
}

#[test]
fn quarantine() {
    let engine = ResponseEngine::new(false);
    let stamp = Timestamp::new(1_700_000_000, 5_000_000).unwrap();
    let paths = engine.quarantine_paths(&alert(None, ""), "/tmp/evil.so", stamp);
    assert_eq!(paths.dir, "/var/edr/quarantine/20231114_221320.005_R-001");
    assert_eq!(paths.file, "/var/edr/quarantine/20231114_221320.005_R-001/evil.so");
    assert_eq!(paths.metadata, "/var/edr/quarantine/20231114_221320.005_R-001/metadata.json");
    let paths = engine.quarantine_paths(&alert(None, ""), "/", stamp);
    assert!(paths.file.ends_with("/unknown"));
    let paths = engine.quarantine_paths(&alert(None, ""), "/tmp/metadata.json", stamp);
    assert!(paths.file.ends_with("/metadata.json"));
    assert!(paths.metadata.ends_with("/edr-metadata.json"));
    assert_ne!(paths.file, paths.metadata);
    let document = quarantine_metadata(&alert(None, ""), "/tmp/evil.so", "/q/evil.so", stamp);
    assert_eq!(
        document.to_string(),
        "{\"original_path\":\"/tmp/evil.so\",\"pid\":42,\"quarantine_path\":\"/q/evil.so\",\
         \"rule_id\":\"R-001\",\"severity\":\"HIGH\",\
         \"timestamp\":\"2023-11-14T22:13:20.005+00:00\"}"
    );
    assert_eq!(
        write_metadata(&alert(None, ""), "/tmp/evil.so", "/q/evil.so", stamp),
        serde_json::to_string_pretty(&document).unwrap()
    );
}

#[test]
fn packet_filter() {
    assert_eq!(CHAINS, ["INPUT", "OUTPUT"]);
    assert_eq!(drop_arguments("INPUT", "1.2.3.4"), vec!["-A", "INPUT", "-s", "1.2.3.4", "-j", "DROP"]);
    assert_eq!(drop_arguments("OUTPUT", "1.2.3.4"), vec!["-A", "OUTPUT", "-d", "1.2.3.4", "-j", "DROP"]);
    assert_eq!(kill_target(42), "pid:42");
}
