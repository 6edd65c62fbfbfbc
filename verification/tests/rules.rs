use edr::analyzer::rule::{
    apply_operator, compare_whole, compile_condition, default_score, evaluate_condition, evaluate_rule,
    event_matches_type, extract_field,
};
use edr::analyzer::{
    build_alert_at, Condition, EventType, LogicOp, NumericOrder, Operator, Rule, RuleAction,
    RuleEngine, Signals, SCORE_THRESHOLD,
};
use edr::common::{
    Alert, EdrEvent, ExitEvent, FileEvent, FileOperation, ForkEvent, NetworkEvent, NetworkProtocol,
    ProcessEvent, Severity,
};
use edr::time::Timestamp;

fn make_process(exe: &str, uid: u32, args: &str) -> EdrEvent {
    EdrEvent::Process(ProcessEvent {
        pid: 1234,
        ppid: 1,
        uid,
        gid: uid,
        timestamp: Timestamp::now(),
        exe_path: exe.into(),
        args: args.into(),
        cwd: "/".into(),
        username: "test".into(),
        sha256: None,
    })
}

fn make_file(path: &str, op: FileOperation) -> EdrEvent {
    EdrEvent::File(FileEvent {
        pid: 999,
        timestamp: Timestamp::now(),
        path: path.into(),
        operation: op,
        sha256: None,
    })
}

fn make_network(dst_ip: &str, dst_port: u16) -> EdrEvent {
    EdrEvent::Network(NetworkEvent {
        pid: 5678,
        timestamp: Timestamp::now(),
        src_ip: "192.168.1.10".into(),
        src_port: 54321,
        dst_ip: dst_ip.into(),
        dst_port,
        protocol: NetworkProtocol::Tcp,
    })
}

fn engine() -> RuleEngine {
    RuleEngine::with_defaults()
}

fn compare(text: &str, value: &str) -> NumericOrder {
    let lhs: f64 = text.parse().unwrap_or(0.0);
    let rhs: f64 = value.parse().unwrap_or(0.0);
    if lhs < rhs {
        NumericOrder::Less
    } else if lhs > rhs {
        NumericOrder::Greater
    } else if lhs == rhs {
        NumericOrder::Equal
    } else {
        NumericOrder::Unordered
    }
}

const SECOND: u128 = 1_000_000_000;

const NOTHING: Signals = Signals { connections: 0, sequence: None, ld_preload: false };

fn orders(engine: &RuleEngine, event: &EdrEvent) -> Vec<Vec<NumericOrder>> {
    engine
        .operands(event)
        .iter()
        .map(|row| row.iter().map(|(text, value)| compare(text, value)).collect())
        .collect()
}

fn evaluate(engine: &mut RuleEngine, event: &EdrEvent) -> Vec<Alert> {
    let orders = orders(engine, event);
    engine.evaluate(event, false, "{}", &orders)
}

fn ids_at(engine: &mut RuleEngine, event: &EdrEvent, now: u128) -> Vec<String> {
    let orders = orders(engine, event);
    let stamp = Timestamp::new(1_700_000_000, 0).unwrap();
    engine.evaluate_at(event, false, "", &orders, stamp, now).into_iter().map(|a| a.rule_id).collect()
}

fn fires(event: &EdrEvent, rule: &str) -> bool {
    evaluate(&mut engine(), event).iter().any(|a| a.rule_id == rule)
}

#[test]
fn r001_execution_from_tmp_triggers() {
    let ev = make_process("/tmp/evil_binary", 0, "");
    assert!(fires(&ev, "R-001"), "R-001 devrait être déclenchée pour /tmp/evil_binary");
}

#[test]
fn r001_execution_from_usr_bin_no_trigger() {
    let ev = make_process("/usr/bin/ls", 0, "-la");
    assert!(!fires(&ev, "R-001"), "R-001 ne devrait pas être déclenchée pour /usr/bin/ls");
}

#[test]
fn r001_execution_from_dev_shm_triggers() {
    let ev = make_process("/dev/shm/payload", 1000, "");
    assert!(fires(&ev, "R-001"));
}

#[test]
fn r002_bash_by_nonroot_triggers() {
    let ev = make_process("/bin/bash", 1000, "-i");
    assert!(fires(&ev, "R-002"), "R-002 devrait être déclenchée pour bash par uid>0");
}

#[test]
fn r002_bash_by_root_no_trigger() {
    let ev = make_process("/bin/bash", 0, "-i");
    assert!(!fires(&ev, "R-002"), "R-002 ne devrait pas se déclencher pour root");
}

#[test]
fn r003_write_passwd_triggers() {
    let ev = make_file("/etc/passwd", FileOperation::Write);
    assert!(fires(&ev, "R-003"), "R-003 devrait être déclenchée pour écriture dans /etc/passwd");
}

#[test]
fn r003_write_shadow_triggers() {
    let ev = make_file("/etc/shadow", FileOperation::Write);
    assert!(fires(&ev, "R-003"));
}

#[test]
fn r003_read_passwd_no_trigger() {
    let ev = make_file("/etc/passwd", FileOperation::Read);
    assert!(!fires(&ev, "R-003"));
}

#[test]
fn r004_crontab_write_triggers() {
    let ev = make_file("/var/spool/cron/crontabs/root", FileOperation::Write);
    assert!(fires(&ev, "R-004"));
}

#[test]
fn r005_ld_preload_in_args_triggers() {
    let ev = make_process("/usr/bin/env", 0, "LD_PRELOAD=/tmp/hook.so ./app");
    assert!(fires(&ev, "R-005"));
}

#[test]
fn r009_read_shadow_triggers() {
    let ev = make_file("/etc/shadow", FileOperation::Open);
    assert!(fires(&ev, "R-009"), "R-009 devrait être déclenchée pour ouverture de /etc/shadow");
}

#[test]
fn r010_so_in_tmp_triggers() {
    let ev = make_file("/tmp/libhook.so", FileOperation::Create);
    assert!(fires(&ev, "R-010"));
}

#[test]
fn r010_so_in_usr_lib_no_trigger() {
    let ev = make_file("/usr/lib/liblegit.so", FileOperation::Create);
    assert!(!fires(&ev, "R-010"));
}

#[test]
fn benign_event_no_alert() {
    let ev = make_process("/usr/bin/python3", 1000, "script.py");
    let alerts = evaluate(&mut engine(), &ev);
    assert!(!alerts.iter().any(|a| a.rule_id == "R-002"));
    assert!(!alerts.iter().any(|a| a.rule_id == "R-001"));
}

#[test]
fn rule_engine_has_ten_default_rules() {
    assert_eq!(engine().rule_count(), 10);
}

#[test]
fn other_default_rules() {
    assert!(fires(&make_file("/etc/cron.d/job", FileOperation::Write), "R-004"));
    assert!(fires(&make_file("/etc/systemd/x.timer", FileOperation::Create), "R-004"));
    assert!(!fires(&make_file("/etc/cron.d/backup", FileOperation::Open), "R-004"));
    assert!(!fires(&make_file("/etc/crontabs", FileOperation::Write), "R-004"));
    assert!(fires(&make_file("/var/tmp/a.so.1.2", FileOperation::Create), "R-010"));
    assert!(fires(&make_file("/dev/shm/x/y.so", FileOperation::Create), "R-010"));
    assert!(!fires(&make_file("/tmpfoo/a.so", FileOperation::Create), "R-010"));
    assert!(!fires(&make_file("/tmp.so", FileOperation::Create), "R-010"));
    assert!(!fires(&make_file("/tmp/a.so.", FileOperation::Create), "R-010"));
    assert!(!fires(&make_file("/tmp/a.so.1.", FileOperation::Create), "R-010"));
    assert!(!fires(&make_file("/tmp/a.so.x", FileOperation::Create), "R-010"));
    assert!(!fires(&make_file("/tmp/a.sox", FileOperation::Create), "R-010"));
    assert!(!fires(&make_file("/tmp/libhook.so", FileOperation::Write), "R-010"));
    assert!(!fires(&make_file("/etc/shadow-", FileOperation::Open), "R-009"));
}

#[test]
fn one_connection_is_quiet() {
    assert!(evaluate(&mut engine(), &make_network("10.0.0.1", 443)).is_empty());
}

#[test]
fn many_connections_are_a_scan() {
    let mut e = engine();
    let event = make_network("10.0.0.1", 443);
    for _ in 0..50 {
        assert!(ids_at(&mut e, &event, SECOND).is_empty());
    }
    let mut other = event.clone();
    if let EdrEvent::Network(n) = &mut other {
        n.pid = 1;
    }
    assert!(ids_at(&mut e, &other, SECOND).is_empty());
    assert_eq!(ids_at(&mut e, &event, 11 * SECOND), vec!["R-006"]);
    // The fifty lie more than ten seconds back now.
    assert!(ids_at(&mut e, &event, 11 * SECOND + 1).is_empty());
}

#[test]
fn connection_after_a_program_is_reported() {
    let mut e = engine();
    let mut event = make_network("10.0.0.1", 443);
    if let EdrEvent::Network(n) = &mut event {
        n.pid = 1234;
    }
    assert!(ids_at(&mut e, &make_process("/usr/bin/curl", 0, ""), 0).is_empty());
    assert!(ids_at(&mut e, &make_network("10.0.0.1", 443), SECOND).is_empty());
    assert_eq!(ids_at(&mut e, &event, 2 * SECOND - 1), vec!["R-007"]);
    assert!(ids_at(&mut e, &event, 2 * SECOND).is_empty());
}

#[test]
fn program_after_a_change_of_its_mode_is_reported() {
    let mut e = engine();
    let mut change = make_file("/opt/x", FileOperation::Chmod);
    if let EdrEvent::File(f) = &mut change {
        f.pid = 1234;
    }
    assert!(ids_at(&mut e, &change, 0).is_empty());
    assert!(ids_at(&mut e, &make_process("/opt/y", 0, ""), SECOND).is_empty());
    assert_eq!(ids_at(&mut e, &make_process("/opt/x", 0, ""), 5 * SECOND - 1), vec!["R-008"]);
    assert!(ids_at(&mut e, &make_process("/opt/x", 0, ""), 5 * SECOND).is_empty());
}

#[test]
fn preloaded_library_in_the_environment_is_reported() {
    let mut e = engine();
    let event = make_process("/usr/bin/env", 0, "");
    let rows = orders(&e, &event);
    let alerts = e.evaluate(&event, true, "{}", &rows);
    assert_eq!(alerts.len(), 1);
    assert_eq!(alerts[0].rule_id, "R-005");
    assert!(e.evaluate(&event, false, "{}", &rows).is_empty());
}

#[test]
fn events_of_no_rule_are_quiet() {
    let mut e = engine();
    let fork =
        EdrEvent::Fork(ForkEvent { parent_pid: 1, child_pid: 2, timestamp: Timestamp::now() });
    let exit = EdrEvent::Exit(ExitEvent {
        pid: 1,
        exit_code: 0,
        timestamp: Timestamp::now(),
        lifetime_ms: 0,
    });
    assert!(evaluate(&mut e, &fork).is_empty());
    assert!(evaluate(&mut e, &exit).is_empty());
}

#[test]
fn alerts_carry_the_event() {
    let mut e = engine();
    let event = make_file("/etc/shadow", FileOperation::Write);
    let stamp = Timestamp::new(1_700_000_000, 5).unwrap();
    let rows = orders(&e, &event);
    let alerts = e.evaluate_at(&event, false, "{\"File\":{}}", &rows, stamp, 0);
    assert_eq!(alerts.len(), 1);
    let a = &alerts[0];
    assert_eq!(a.id, None);
    assert_eq!(a.rule_id, "R-003");
    assert_eq!(a.rule_description, "Modification de /etc/passwd ou /etc/shadow");
    assert_eq!(a.severity, Severity::Critical);
    assert_eq!(a.timestamp, stamp);
    assert_eq!(a.pid, 999);
    assert_eq!(a.mitre_technique.as_deref(), Some("T1098"));
    assert_eq!(a.event_json, "{\"File\":{}}");
    assert_eq!(a.action_taken.as_deref(), Some("Alert"));
}

#[test]
fn scores_of_rules_add_up_to_a_composite_alert() {
    let mut e = engine();
    let event = make_process("/bin/bash", 1000, "-i");
    // Each counts forty: eighty do not pass the threshold.
    assert_eq!(ids_at(&mut e, &event, 0), vec!["R-002"]);
    assert_eq!(ids_at(&mut e, &event, 299 * SECOND), vec!["R-002"]);
    // The first still counts at the end of five minutes.
    let rows = orders(&e, &event);
    let stamp = Timestamp::new(1_700_000_000, 0).unwrap();
    let third = e.evaluate_at(&event, false, "", &rows, stamp, 300 * SECOND);
    assert_eq!(third.len(), 2);
    assert_eq!(third[1].rule_id, "SCORE-COMPOSITE");
    assert_eq!(third[1].rule_description, "Score composite élevé pour PID 1234 (seuil 100 dépassé)");
    assert_eq!(third[1].severity, Severity::High);
    assert_eq!(third[1].pid, 1234);
    assert_eq!(third[1].event_json, "");
    assert_eq!(third[1].mitre_technique, None);
    assert_eq!(third[1].action_taken.as_deref(), Some("Alert"));
    // The score started over.
    assert_eq!(ids_at(&mut e, &event, 300 * SECOND + 1), vec!["R-002"]);
    assert_eq!(ids_at(&mut e, &event, 300 * SECOND + 2), vec!["R-002"]);
    // What lies longer back than five minutes does not count.
    assert_eq!(ids_at(&mut e, &event, 600 * SECOND + 3), vec!["R-002"]);
    assert_eq!(SCORE_THRESHOLD, 100);
}

#[test]
fn one_rule_can_pass_the_threshold() {
    for (score, ids) in [(100, vec!["X-1"]), (101, vec!["X-1", "SCORE-COMPOSITE"]), (u32::MAX, vec!["X-1", "SCORE-COMPOSITE"])] {
        let mut r = rule(vec![condition("uid", Operator::Equals, "7")], LogicOp::And);
        r.score = score;
        let mut e = RuleEngine::from_rules(vec![r]);
        assert_eq!(ids_at(&mut e, &make_process("/bin/x", 7, ""), 0), ids);
    }
}

fn condition(field: &str, operator: Operator, value: &str) -> Condition {
    Condition { field: field.into(), operator, value: value.into(), compiled_regex: None }
}

fn rule(conditions: Vec<Condition>, logic: LogicOp) -> Rule {
    Rule {
        id: "X-1".into(),
        description: "test".into(),
        severity: "nonsense".into(),
        event_type: EventType::Any,
        conditions,
        logic,
        action: RuleAction::BlockIp,
        mitre_technique: None,
        score: default_score(),
    }
}

#[test]
fn operators() {
    let u = NumericOrder::Unordered;
    assert!(apply_operator(Operator::StartsWith, "abc", "ab", false, u, &NOTHING));
    assert!(!apply_operator(Operator::StartsWith, "abc", "bc", false, u, &NOTHING));
    assert!(apply_operator(Operator::Contains, "abc", "bc", false, u, &NOTHING));
    assert!(apply_operator(Operator::Contains, "abc", "", false, u, &NOTHING));
    assert!(!apply_operator(Operator::Contains, "abc", "ac", false, u, &NOTHING));
    assert!(apply_operator(Operator::Equals, "abc", "abc", false, u, &NOTHING));
    assert!(!apply_operator(Operator::Equals, "abc", "abd", false, u, &NOTHING));
    assert!(apply_operator(Operator::NotEquals, "abc", "abd", false, u, &NOTHING));
    assert!(apply_operator(Operator::Regex, "abc", "x", true, u, &NOTHING));
    assert!(!apply_operator(Operator::Regex, "abc", "abc", false, u, &NOTHING));
    for order in [NumericOrder::Less, NumericOrder::Equal, NumericOrder::Greater, u] {
        assert_eq!(
            apply_operator(Operator::Gt, "", "", true, order, &NOTHING),
            order == NumericOrder::Greater
        );
        assert_eq!(apply_operator(Operator::Lt, "", "", true, order, &NOTHING), order == NumericOrder::Less);
    }
}

#[test]
fn operators_beyond_the_fields() {
    let u = NumericOrder::Unordered;
    let known = Signals { connections: 51, sequence: Some("R-007"), ld_preload: true };
    assert!(apply_operator(Operator::MoreConnections(50), "", "", false, u, &known));
    assert!(!apply_operator(Operator::MoreConnections(51), "", "", false, u, &known));
    assert!(apply_operator(Operator::Completes, "", "R-007", false, u, &known));
    assert!(!apply_operator(Operator::Completes, "", "R-008", false, u, &known));
    assert!(!apply_operator(Operator::Completes, "", "", false, u, &NOTHING));
    assert!(apply_operator(Operator::Preloaded, "", "", false, u, &known));
    assert!(!apply_operator(Operator::Preloaded, "", "", false, u, &NOTHING));
}

#[test]
fn unknown_fields_are_empty() {
    for field in ["connections", "sequence", "ld_preload"] {
        let r = rule(vec![condition(field, Operator::Equals, "")], LogicOp::And);
        let mut e = RuleEngine::from_rules(vec![r]);
        let event = make_process("/bin/x", 0, "");
        let rows = orders(&e, &event);
        assert_eq!(e.evaluate(&event, true, "", &rows).len(), 1);
        assert_eq!(evaluate(&mut e, &make_network("10.0.0.1", 1)).len(), 1);
    }
}

#[test]
fn fields_of_events() {
    let p = make_process("/bin/x", 7, "a b");
    assert_eq!(extract_field(&p, "exe_path"), "/bin/x");
    assert_eq!(extract_field(&p, "args"), "a b");
    assert_eq!(extract_field(&p, "cwd"), "/");
    assert_eq!(extract_field(&p, "username"), "test");
    assert_eq!(extract_field(&p, "pid"), "1234");
    assert_eq!(extract_field(&p, "uid"), "7");
    assert_eq!(extract_field(&p, "path"), "");
    let f = make_file("/a", FileOperation::Unknown(9));
    assert_eq!(extract_field(&f, "path"), "/a");
    assert_eq!(extract_field(&f, "operation"), "Unknown(9)");
    assert_eq!(extract_field(&f, "pid"), "999");
    assert_eq!(extract_field(&f, "uid"), "");
    let n = make_network("1.2.3.4", 80);
    assert_eq!(extract_field(&n, "dst_ip"), "1.2.3.4");
    assert_eq!(extract_field(&n, "src_ip"), "192.168.1.10");
    assert_eq!(extract_field(&n, "dst_port"), "80");
    assert_eq!(extract_field(&n, "pid"), "5678");
    assert_eq!(extract_field(&n, "src_port"), "");
    let x = EdrEvent::Fork(ForkEvent { parent_pid: 1, child_pid: 2, timestamp: Timestamp::now() });
    assert_eq!(extract_field(&x, "pid"), "");
    for event in [&p, &f, &n] {
        for field in ["connections", "sequence", "ld_preload", "nonsense"] {
            assert_eq!(extract_field(event, field), "");
        }
    }
}

#[test]
fn kinds_of_events() {
    let p = make_process("/bin/x", 7, "");
    let f = make_file("/a", FileOperation::Open);
    let n = make_network("1.2.3.4", 80);
    for (event, kind) in
        [(&p, EventType::Process), (&f, EventType::File), (&n, EventType::Network)]
    {
        for other in [EventType::Process, EventType::File, EventType::Network] {
            assert_eq!(event_matches_type(event, &other), other == kind);
        }
        assert!(event_matches_type(event, &EventType::Any));
    }
}

#[test]
fn patterns_are_compiled_when_needed() {
    let event = make_process("/opt/tool-42", 0, "");
    let hit = condition("exe_path", Operator::Regex, r"-\d+$");
    assert!(evaluate_condition(&hit, &event, &NOTHING, NumericOrder::Unordered));
    let mut ahead = hit.clone();
    compile_condition(&mut ahead);
    assert!(ahead.compiled_regex.is_some());
    ahead.value = "nothing".into();
    assert!(evaluate_condition(&ahead, &event, &NOTHING, NumericOrder::Unordered));
    let miss = condition("exe_path", Operator::Regex, r"^\d");
    assert!(!evaluate_condition(&miss, &event, &NOTHING, NumericOrder::Unordered));
    let mut broken = condition("exe_path", Operator::Regex, "(");
    compile_condition(&mut broken);
    assert!(broken.compiled_regex.is_none());
    assert!(!evaluate_condition(&broken, &event, &NOTHING, NumericOrder::Unordered));
    let mut plain = condition("exe_path", Operator::Equals, "a");
    compile_condition(&mut plain);
    assert!(plain.compiled_regex.is_none());
}

#[test]
fn logic_of_conditions() {
    let event = make_process("/bin/x", 7, "");
    let yes = || condition("uid", Operator::Equals, "7");
    let no = || condition("uid", Operator::Equals, "8");
    let two = vec![NumericOrder::Equal, NumericOrder::Equal];
    assert!(!evaluate_rule(&rule(vec![], LogicOp::And), &event, &NOTHING, &vec![]));
    assert!(!evaluate_rule(&rule(vec![], LogicOp::Or), &event, &NOTHING, &vec![]));
    assert!(evaluate_rule(&rule(vec![yes(), yes()], LogicOp::And), &event, &NOTHING, &two));
    assert!(!evaluate_rule(&rule(vec![yes(), no()], LogicOp::And), &event, &NOTHING, &two));
    assert!(evaluate_rule(&rule(vec![no(), yes()], LogicOp::Or), &event, &NOTHING, &two));
    assert!(!evaluate_rule(&rule(vec![no(), no()], LogicOp::Or), &event, &NOTHING, &two));
    assert_eq!(LogicOp::default(), LogicOp::And);
    assert_eq!(default_score(), 10);
}

#[test]
fn given_rules() {
    let mut e = RuleEngine::from_rules(vec![rule(
        vec![
            condition("uid", Operator::Lt, "10"),
            condition("exe_path", Operator::Regex, "^/bin/"),
        ],
        LogicOp::And,
    )]);
    assert_eq!(e.rule_count(), 1);
    let event = make_process("/bin/x", 7, "");
    assert_eq!(
        e.operands(&event),
        vec![vec![("7".into(), "10".into()), ("/bin/x".into(), "^/bin/".into())]]
    );
    let alerts = evaluate(&mut e, &event);
    assert_eq!(alerts.len(), 1);
    assert_eq!(alerts[0].severity, Severity::Medium);
    assert_eq!(alerts[0].action_taken.as_deref(), Some("BlockIp"));
    assert!(evaluate(&mut e, &make_process("/bin/x", 10, "")).is_empty());
    assert!(evaluate(&mut e, &make_process("/sbin/x", 7, "")).is_empty());
}

#[test]
fn alert_of_a_rule() {
    let stamp = Timestamp::new(0, 0).unwrap();
    let mut r = rule(vec![], LogicOp::And);
    r.severity = "CRITICAL".into();
    r.action = RuleAction::Kill;
    r.mitre_technique = Some("T1".into());
    let a = build_alert_at(&r, &make_network("1.2.3.4", 80), "json", stamp);
    assert_eq!(a.severity, Severity::Critical);
    assert_eq!(a.action_taken.as_deref(), Some("Kill"));
    assert_eq!(a.mitre_technique.as_deref(), Some("T1"));
    assert_eq!(a.pid, 5678);
    assert_eq!(a.event_json, "json");
    assert_eq!(RuleAction::Quarantine.name(), "Quarantine");
}

#[test]
fn whole_numbers_compare_like_floating_point() {
    let texts = [
        "", "0", "7", "007", "+7", "10", "4294967295", "9007199254740991", "9007199254740992",
    ];
    for a in texts {
        for b in texts {
            assert_eq!(compare_whole(a, b), Some(compare(a, b)), "{} {}", a, b);
        }
        for b in ["9007199254740993", "1.5", "-1", "x", "+", "nan", "1e3", " 1"] {
            assert_eq!(compare_whole(a, b), None);
            assert_eq!(compare_whole(b, a), None);
        }
    }
}

#[test]
fn other_numbers_are_compared_outside() {
    let event = make_process("/bin/x", 7, "");
    let c = condition("uid", Operator::Gt, "6.5");
    assert!(evaluate_condition(&c, &event, &NOTHING, compare("7", "6.5")));
    assert!(!evaluate_condition(&c, &event, &NOTHING, NumericOrder::Less));
    assert!(!evaluate_condition(&condition("uid", Operator::Lt, "nan"), &event, &NOTHING, compare("7", "nan")));
    // Whole numbers are compared as such, whatever is said of them.
    let c = condition("uid", Operator::Gt, "6");
    assert!(evaluate_condition(&c, &event, &NOTHING, NumericOrder::Less));
}

#[test]
fn simple_patterns() {
    let hit = |pattern: &str, text: &str| {
        let c = condition("exe_path", Operator::Regex, pattern);
        evaluate_condition(&c, &make_process(text, 0, ""), &NOTHING, NumericOrder::Unordered)
    };
    for text in ["", "a", "b", "ab", "xa", "ax", "xab.c/", "b\n", "\na", "/a.c", "/a_c", "A"] {
        assert_eq!(hit("a", text), text.contains('a'));
        assert_eq!(hit("a|b", text), text.contains('a') || text.contains('b'));
        assert_eq!(hit("a$|b", text), text.ends_with('a') || text.contains('b'));
        assert_eq!(hit("^(a|b)", text), text.starts_with('a') || text.starts_with('b'));
        assert_eq!(hit("(a|b)$", text), text.ends_with('a') || text.ends_with('b'));
        assert_eq!(hit("^(a|ab)$", text), text == "a" || text == "ab");
        assert_eq!(hit("^x(a|b)b\\.", text), text.starts_with("xab.") || text.starts_with("xbb."));
        assert_eq!(hit("/(a\\.c|b)", text), text.contains("/a.c") || text.contains("/b"));
        assert_eq!(hit("(|a)", text), true);
    }
}

#[test]
fn edges_of_the_default_rules() {
    assert!(!fires(&make_process("/tmp", 0, ""), "R-001"));
    assert!(!fires(&make_process("x/tmp/a", 0, ""), "R-001"));
    assert!(fires(&make_process("/tmp/", 0, ""), "R-001"));
    assert!(fires(&make_process("/usr/bin/fish", 1, ""), "R-002"));
    assert!(!fires(&make_process("bash", 1, ""), "R-002"));
    assert!(!fires(&make_process("/bin/bash\n", 1, ""), "R-002"));
    assert!(!fires(&make_file("/etc/passwd-", FileOperation::Write), "R-003"));
    assert!(fires(&make_file("/etc/passwd", FileOperation::Create), "R-003"));
    assert!(!fires(&make_file("/etc/passwd", FileOperation::Rename), "R-003"));
    assert!(fires(&make_file("/etc/shadow", FileOperation::Read), "R-009"));
    assert!(!fires(&make_file("/etc/shadow", FileOperation::Unknown(2)), "R-009"));
    assert!(fires(&make_file("x.timer", FileOperation::Write), "R-004"));
    assert!(!fires(&make_file("x.timers", FileOperation::Write), "R-004"));
    assert!(!fires(&make_file("xtimer", FileOperation::Write), "R-004"));
}
