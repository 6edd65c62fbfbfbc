//! The build tasks: what each of them runs.

use crate::text::{same_text, texts};
use vstd::prelude::*;

verus! {

/// The task that is run where none is named.
pub const DEFAULT_TASK: &'static str = "build";

/// What the task that builds everything says at its end.
pub const BUILD_DONE: &'static str =
    "\n✓ Build complet. Lancer avec : sudo ./target/release/edr";

/// The agent, below the root of the workspace.
pub const AGENT_BINARY: &'static str = "target/release/edr";

/// A step of a task.
#[derive(Debug, Clone, Copy, PartialEq, Eq, Structural)]
pub enum Step {
    /// Build the program of the kernel side.
    BuildProbe,
    /// Build the agent.
    BuildAgent,
    /// Run the agent.
    RunAgent,
    /// Say that everything is built.
    ReportBuild,
}

/// A name that stands for no task.
#[derive(Debug, Clone)]
pub struct UnknownTask {
    pub name: String,
}

impl UnknownTask {
    /// The message for the user.
    pub fn message(&self) -> (s: String)
        ensures
            s@ == "Tâche inconnue : '"@ + self.name@ + "'. Utiliser 'build' ou 'run'."@,
    {
        let mut s = "Tâche inconnue : '".to_owned();
        s.push_str(self.name.as_str());
        s.push_str("'. Utiliser 'build' ou 'run'.");
        s
    }
}

/// The name of a task; the default one where none is given.
pub open spec fn task_name(task: Option<&str>) -> Seq<char> {
    match task {
        Some(name) => name@,
        None => DEFAULT_TASK@,
    }
}

/// The steps of a task.
pub open spec fn task_steps(name: Seq<char>) -> Option<Seq<Step>> {
    if name == "build"@ {
        Some(seq![Step::BuildProbe, Step::BuildAgent, Step::ReportBuild])
    } else if name == "run"@ {
        Some(seq![Step::BuildProbe, Step::RunAgent])
    } else {
        None
    }
}

/// The steps of a task, in their order.
pub fn steps(task: Option<&str>) -> (list: Result<Vec<Step>, UnknownTask>)
    ensures
        match list {
            Ok(steps) => task_steps(task_name(task)) == Some(steps@),
            Err(e) => task_steps(task_name(task)) is None && e.name@ == task_name(task),
        },
{
    let name = match task {
        Some(name) => name,
        None => DEFAULT_TASK,
    };
    let mut list: Vec<Step> = Vec::new();
    if same_text(name, "build") {
        list.push(Step::BuildProbe);
        list.push(Step::BuildAgent);
        list.push(Step::ReportBuild);
        assert(list@ =~= seq![Step::BuildProbe, Step::BuildAgent, Step::ReportBuild]);
        Ok(list)
    } else if same_text(name, "run") {
        list.push(Step::BuildProbe);
        list.push(Step::RunAgent);
        assert(list@ =~= seq![Step::BuildProbe, Step::RunAgent]);
        Ok(list)
    } else {
        Err(UnknownTask { name: name.to_owned() })
    }
}

/// Every task that runs or builds the agent builds the program of the kernel side first.
pub proof fn law_probe_comes_first(name: Seq<char>)
    ensures
        task_steps(name) matches Some(steps) ==> steps.len() > 1 && steps[0] == Step::BuildProbe,
{
}

impl Step {
    /// The arguments with which the step calls the build tool; none where it does not.
    pub open spec fn arguments_text(self) -> Seq<Seq<char>> {
        match self {
            Step::BuildProbe => seq![
                "build"@,
                "--package"@,
                "edr-ebpf"@,
                "--release"@,
                "--target"@,
                "bpfel-unknown-none"@,
                "-Z"@,
                "build-std=core"@,
            ],
            Step::BuildAgent => seq!["build"@, "--package"@, "edr"@, "--release"@],
            _ => Seq::empty(),
        }
    }

    /// The arguments with which the step calls the build tool; none where it does not.
    pub fn arguments(&self) -> (list: Vec<String>)
        ensures
            texts(list@) == self.arguments_text(),
    {
        let mut list: Vec<String> = Vec::new();
        match self {
            Step::BuildProbe => {
                list.push("build".to_owned());
                list.push("--package".to_owned());
                list.push("edr-ebpf".to_owned());
                list.push("--release".to_owned());
                list.push("--target".to_owned());
                list.push("bpfel-unknown-none".to_owned());
                list.push("-Z".to_owned());
                list.push("build-std=core".to_owned());
            },
            Step::BuildAgent => {
                list.push("build".to_owned());
                list.push("--package".to_owned());
                list.push("edr".to_owned());
                list.push("--release".to_owned());
            },
            _ => {},
        }
        assert(texts(list@) =~= self.arguments_text());
        list
    }

    /// What the step says at its start.
    pub fn announcement(&self) -> (s: &'static str)
        ensures
            s@ == match self {
                Step::BuildProbe => "── Compilation du bytecode eBPF…"@,
                Step::BuildAgent => "── Compilation de l'agent…"@,
                Step::RunAgent => "── Lancement de l'agent (sudo requis)…"@,
                Step::ReportBuild => BUILD_DONE@,
            },
    {
        match self {
            Step::BuildProbe => "── Compilation du bytecode eBPF…",
            Step::BuildAgent => "── Compilation de l'agent…",
            Step::RunAgent => "── Lancement de l'agent (sudo requis)…",
            Step::ReportBuild => BUILD_DONE,
        }
    }

    /// What is said where the program of the step cannot be started.
    pub fn not_started(&self) -> (s: &'static str)
        ensures
            s@ == match self {
                Step::BuildProbe => "Impossible de lancer cargo pour edr-ebpf"@,
                Step::BuildAgent => "Impossible de lancer cargo pour edr"@,
                Step::RunAgent => "Impossible de lancer l'agent"@,
                Step::ReportBuild => ""@,
            },
    {
        match self {
            Step::BuildProbe => "Impossible de lancer cargo pour edr-ebpf",
            Step::BuildAgent => "Impossible de lancer cargo pour edr",
            Step::RunAgent => "Impossible de lancer l'agent",
            Step::ReportBuild => "",
        }
    }

    /// What is said where the program of the step fails; nothing where it ends well.
    pub fn ensure_success(&self, success: bool) -> (result: Result<(), String>)
        ensures
            match result {
                Ok(_) => success,
                Err(message) => !success && message@ == match self {
                    Step::BuildProbe => "Compilation eBPF échouée"@,
                    Step::BuildAgent => "Compilation agent échouée"@,
                    Step::RunAgent => "L'agent s'est arrêté avec une erreur"@,
                    Step::ReportBuild => ""@,
                },
            },
    {
        if success {
            return Ok(());
        }
        Err(
            match self {
                Step::BuildProbe => "Compilation eBPF échouée".to_owned(),
                Step::BuildAgent => "Compilation agent échouée".to_owned(),
                Step::RunAgent => "L'agent s'est arrêté avec une erreur".to_owned(),
                Step::ReportBuild => "".to_owned(),
            },
        )
    }
}

/// There are two tasks: one builds the program of the kernel side and the agent and says so, the
/// other builds the program of the kernel side and runs the agent. The first is run where none
/// is named, and no other name stands for a task.
pub proof fn law_two_tasks(task: Option<&str>, list: Result<Vec<Step>, UnknownTask>)
    requires
        call_ensures(steps, (task,), list),
    ensures
        task is None ==> (list matches Ok(steps) && steps@.len() == 3 && steps@[0]
            == Step::BuildProbe && steps@[1] == Step::BuildAgent && steps@[2]
            == Step::ReportBuild),
        task matches Some(name) ==> (list is Ok <==> name@ == "build"@ || name@ == "run"@),
        task matches Some(name) ==> (name@ == "build"@ ==> (list matches Ok(steps) && steps@.len()
            == 3 && steps@[0] == Step::BuildProbe && steps@[1] == Step::BuildAgent && steps@[2]
            == Step::ReportBuild)),
        task matches Some(name) ==> (name@ == "run"@ ==> (list matches Ok(steps) && steps@.len()
            == 2 && steps@[0] == Step::BuildProbe && steps@[1] == Step::RunAgent)),
        task matches Some(name) ==> (list matches Err(e) ==> e.name@ == name@),
{
    reveal_strlit("build");
    reveal_strlit("run");
    assert("build"@.len() == 5 && "run"@.len() == 3);
}

/// A step goes well if and only if its program does; else it says which step failed, and no two
/// steps that run a program say the same.
pub proof fn law_failures_are_told(
    step: &Step,
    other: &Step,
    success: bool,
    result: Result<(), String>,
    second: Result<(), String>,
)
    requires
        call_ensures(Step::ensure_success, (step, success), result),
        call_ensures(Step::ensure_success, (other, success), second),
    ensures
        result is Ok <==> success,
        result matches Err(a) ==> (second matches Err(b) ==> (a@ == b@ ==> *step == *other)),
{
    reveal_strlit("Compilation eBPF échouée");
    reveal_strlit("Compilation agent échouée");
    reveal_strlit("L'agent s'est arrêté avec une erreur");
    reveal_strlit("");
    assert("Compilation eBPF échouée"@.len() == 24);
    assert("Compilation agent échouée"@.len() == 25);
    assert("L'agent s'est arrêté avec une erreur"@.len() == 36);
    assert(""@.len() == 0);
}

/// The steps that build something call the build tool for one package each, as a release; that of
/// the kernel side for its own target. The other steps do not call it.
pub proof fn law_what_is_built(step: &Step, list: Vec<String>)
    requires
        call_ensures(Step::arguments, (step,), list),
    ensures
        *step == Step::RunAgent || *step == Step::ReportBuild ==> list@.len() == 0,
        *step == Step::BuildAgent ==> texts(list@) == seq![
            "build"@,
            "--package"@,
            "edr"@,
            "--release"@,
        ],
        *step == Step::BuildProbe ==> texts(list@) == seq![
            "build"@,
            "--package"@,
            "edr-ebpf"@,
            "--release"@,
            "--target"@,
            "bpfel-unknown-none"@,
            "-Z"@,
            "build-std=core"@,
        ],
{
    assert(texts(list@).len() == list@.len());
}

/// A name that stands for no task is told in the message.
pub proof fn law_unknown_task_is_told(refused: &UnknownTask, message: String)
    requires
        call_ensures(UnknownTask::message, (refused,), message),
    ensures
        message@ == "Tâche inconnue : '"@ + refused.name@ + "'. Utiliser 'build' ou 'run'."@,
{
}

} // verus!
