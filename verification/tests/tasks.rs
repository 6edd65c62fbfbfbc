use edr::tasks::{steps, Step, BUILD_DONE};

#[test]
fn steps_of_tasks() {
    let build = vec![Step::BuildProbe, Step::BuildAgent, Step::ReportBuild];
    assert_eq!(steps(None).unwrap(), build);
    assert_eq!(steps(Some("build")).unwrap(), build);
    assert_eq!(steps(Some("run")).unwrap(), vec![Step::BuildProbe, Step::RunAgent]);
    let e = steps(Some("test")).unwrap_err();
    assert_eq!(e.message(), "Tâche inconnue : 'test'. Utiliser 'build' ou 'run'.");
}

#[test]
fn calls_of_steps() {
    assert_eq!(
        Step::BuildProbe.arguments().join(" "),
        "build --package edr-ebpf --release --target bpfel-unknown-none -Z build-std=core"
    );
    assert_eq!(Step::BuildAgent.arguments().join(" "), "build --package edr --release");
    assert!(Step::RunAgent.arguments().is_empty());
    assert_eq!(Step::RunAgent.announcement(), "── Lancement de l'agent (sudo requis)…");
    assert_eq!(Step::ReportBuild.announcement(), BUILD_DONE);
    assert_eq!(Step::BuildAgent.not_started(), "Impossible de lancer cargo pour edr");
    assert_eq!(Step::BuildProbe.ensure_success(true), Ok(()));
    assert_eq!(Step::BuildProbe.ensure_success(false), Err("Compilation eBPF échouée".into()));
    assert_eq!(
        Step::RunAgent.ensure_success(false),
        Err("L'agent s'est arrêté avec une erreur".into())
    );
}
