use edr::analyzer::scoring::ScoringEngine;
use edr::analyzer::sequence::SequenceEngine;
use edr::common::{
    Alert, EdrEvent, ExitEvent, FileEvent, FileOperation, NetworkEvent, NetworkProtocol,
    ProcessEvent, Severity,
};
use edr::time::Timestamp;

const SECOND: u128 = 1_000_000_000;

fn stamp() -> Timestamp {
    Timestamp::new(1_700_000_000, 0).unwrap()
}

fn alert(severity: Severity) -> Alert {
    Alert {
        id: None,
        rule_id: "R".into(),
        rule_description: "d".into(),
        severity,
        timestamp: stamp(),
        pid: 1,
        mitre_technique: None,
        event_json: "".into(),
        action_taken: None,
    }
}

fn exec(pid: u32, path: &str) -> EdrEvent {
    EdrEvent::Process(ProcessEvent {
        pid,
        ppid: 1,
        uid: 0,
        gid: 0,
        timestamp: stamp(),
        exe_path: path.into(),
        args: "".into(),
        cwd: "".into(),
        username: "".into(),
        sha256: None,
    })
}

fn file(pid: u32, path: &str, operation: FileOperation) -> EdrEvent {
    EdrEvent::File(FileEvent { pid, timestamp: stamp(), path: path.into(), operation, sha256: None })
}

fn connection(pid: u32) -> EdrEvent {
    EdrEvent::Network(NetworkEvent {
        pid,
        timestamp: stamp(),
        src_ip: "".into(),
        src_port: 0,
        dst_ip: "".into(),
        dst_port: 0,
        protocol: NetworkProtocol::Tcp,
    })
}

#[test]
fn score_of_each_severity() {
    for (severity, score) in [
        (Severity::Low, 5),
        (Severity::Medium, 15),
        (Severity::High, 25),
        (Severity::Critical, 50),
    ] {
        let mut at = ScoringEngine::new(score);
        assert!(at.check_at(1, &[alert(severity)], stamp(), 0).is_empty());
        let mut below = ScoringEngine::new(score - 1);
        assert_eq!(below.check_at(1, &[alert(severity)], stamp(), 0).len(), 1);
    }
}

#[test]
fn small_scores_add_up() {
    let mut engine = ScoringEngine::new(19);
    for i in 0..3 {
        assert!(engine.check_at(1, &[alert(Severity::Low)], stamp(), i * 100 * SECOND).is_empty());
    }
    let raised = engine.check_at(1, &[alert(Severity::Low)], stamp(), 300 * SECOND);
    assert_eq!(raised.len(), 1);
    assert_eq!(raised[0].rule_id, "SCORE-COMPOSITE");
    assert_eq!(raised[0].rule_description, "Score composite élevé pour PID 1 (seuil 19 dépassé)");
    assert_eq!(raised[0].timestamp, stamp());
}

#[test]
fn scores_expire_after_five_minutes() {
    let mut engine = ScoringEngine::new(9);
    assert!(engine.check_at(1, &[alert(Severity::Low)], stamp(), 0).is_empty());
    assert!(engine
        .check_at(1, &[alert(Severity::Low)], stamp(), 300 * SECOND + 1)
        .is_empty());
    assert_eq!(engine.check_at(1, &[alert(Severity::Low)], stamp(), 600 * SECOND + 1).len(), 1);
}

#[test]
fn only_the_last_five_minutes_count() {
    let mut engine = ScoringEngine::new(60);
    for i in 0..3 {
        assert!(engine.check_at(1, &[alert(Severity::High)], stamp(), i * 200 * SECOND).is_empty());
    }
    assert_eq!(engine.check_at(1, &[alert(Severity::High)], stamp(), 401 * SECOND).len(), 1);
}

#[test]
fn the_threshold_has_to_be_passed() {
    let mut engine = ScoringEngine::new(100);
    let two = [alert(Severity::Critical), alert(Severity::Critical)];
    assert!(engine.check_at(1, &two, stamp(), 0).is_empty());
    assert_eq!(engine.check_at(1, &[alert(Severity::Low)], stamp(), 1).len(), 1);
    assert!(engine.check_at(1, &[alert(Severity::Low)], stamp(), 2).is_empty());
    assert!(engine.score_at(1, &[u32::MAX, u32::MAX], stamp(), 3).len() == 1);
}

#[test]
fn no_alerts_no_score() {
    let mut engine = ScoringEngine::new(0);
    assert!(engine.check_at(1, &[], stamp(), 0).is_empty());
}

#[test]
fn processes_score_apart() {
    let mut engine = ScoringEngine::new(9);
    assert!(engine.check(1, &[alert(Severity::Low)], &connection(1)).is_empty());
    assert!(engine.check(2, &[alert(Severity::Low)], &connection(2)).is_empty());
    assert!(engine.check(1, &[], &connection(1)).is_empty());
    assert_eq!(engine.check(1, &[alert(Severity::Low)], &connection(1)).len(), 1);
    assert!(engine.now() < engine.now() + 1);
}

#[test]
fn connection_shortly_after_a_program() {
    let mut engine = SequenceEngine::new();
    assert_eq!(engine.process_at(&exec(1, "/a"), 0), None);
    assert_eq!(engine.process_at(&file(1, "/b", FileOperation::Create), SECOND), None);
    assert_eq!(engine.completed_at(&connection(1), 2 * SECOND - 1), Some("R-007"));
    assert_eq!(engine.completed_at(&connection(2), 2 * SECOND - 1), None);
    assert_eq!(engine.process_at(&connection(1), 2 * SECOND - 1), Some("R-007"));
    assert_eq!(engine.process_at(&connection(1), 2 * SECOND), None);
    assert_eq!(engine.process_at(&connection(2), SECOND), None);
}

#[test]
fn program_shortly_after_its_mode_changed() {
    let mut engine = SequenceEngine::new();
    assert_eq!(engine.process_at(&file(1, "/a", FileOperation::Chmod), 0), None);
    assert_eq!(engine.process_at(&exec(1, "/b"), SECOND), None);
    assert_eq!(engine.process_at(&exec(2, "/a"), SECOND), None);
    assert_eq!(engine.process_at(&exec(1, "/a"), 5 * SECOND - 1), Some("R-008"));
    assert_eq!(engine.process_at(&exec(1, "/a"), 5 * SECOND), None);
}

#[test]
fn other_events_make_no_sequence() {
    let mut engine = SequenceEngine::new();
    let exit = EdrEvent::Exit(ExitEvent {
        pid: 1,
        exit_code: 0,
        timestamp: stamp(),
        lifetime_ms: 0,
    });
    assert_eq!(engine.process(&exit), None);
    assert_eq!(engine.process(&file(1, "/a", FileOperation::Write)), None);
    assert_eq!(engine.process(&connection(1)), None);
    assert_eq!(engine.process(&exec(1, "/a")), None);
    assert_eq!(engine.process(&connection(1)), Some("R-007"));
}
