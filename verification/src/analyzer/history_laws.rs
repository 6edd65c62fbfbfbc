//! What is remembered of a process, and what follows from it.

use super::defaults::default_table;
use super::rule::{RuleAction, RuleView};
use super::scoring::{
    alert_scores, composite_alert, composite_alerts, in_window, lot_points, scored, total, Points,
    SCORE_WINDOW,
};
use super::sequence::{
    completes, kept, notes_after, recent_chmod, recent_execve, SeqEventKind, SeqView, CHMOD_WINDOW,
    CONNECT_WINDOW, RETENTION,
};
use super::{history_after, rule_scores, signals_of, History};
use crate::collector::network_proc::{counted, lemma_filter_keeps_all, logged};
use crate::common::{AlertView, EdrEvent, FileOperation, Severity};
use crate::monitor::network::lemma_filter_contains;
use crate::number::decimal;
use crate::time::{span, Timestamp};
use vstd::prelude::*;

verus! {

/// Points add up: those of a list are those of its first item and those of the rest.
pub proof fn law_points_add_up(first: Points, rest: Seq<Points>)
    ensures
        total(Seq::empty()) == 0,
        total(seq![first] + rest) == first.score + total(rest),
    decreases rest.len(),
{
    let whole = seq![first] + rest;
    if rest.len() == 0 {
        assert(whole.drop_last() =~= Seq::<Points>::empty());
        assert(whole.last() == first);
    } else {
        law_points_add_up(first, rest.drop_last());
        assert(whole.drop_last() =~= seq![first] + rest.drop_last());
    }
}

/// How alerts score: five, fifteen, twenty-five and fifty points, from the least grave to the
/// gravest, one score for each alert of a lot.
pub proof fn law_graver_alerts_score_more(alerts: Seq<AlertView>, i: int, j: int)
    requires
        0 <= i < alerts.len(),
        0 <= j < alerts.len(),
    ensures
        alert_scores(alerts).len() == alerts.len(),
        alerts[i].severity.rank() < alerts[j].severity.rank() <==> alert_scores(alerts)[i]
            < alert_scores(alerts)[j],
        alerts[i].severity == Severity::Low ==> alert_scores(alerts)[i] == 5,
        alerts[i].severity == Severity::Medium ==> alert_scores(alerts)[i] == 15,
        alerts[i].severity == Severity::High ==> alert_scores(alerts)[i] == 25,
        alerts[i].severity == Severity::Critical ==> alert_scores(alerts)[i] == 50,
{
}

/// Where all that a process scored lies no more than five minutes back, one more lot raises the
/// alert if and only if old and new points together come to more than the threshold. The points
/// then start over; else the new ones are added to the old.
pub proof fn law_lot_of_alerts(
    log: Seq<Points>,
    pid: u32,
    scores: Seq<u32>,
    stamp: Timestamp,
    now: u128,
    threshold: u32,
)
    requires
        scores.len() > 0,
        forall|i: int|
            0 <= i < log.len() ==> (#[trigger] log[i]).at <= now && now - log[i].at
                <= 300_000_000_000,
    ensures
        ({
            let added = Seq::new(scores.len(), |i: int| Points { at: now, score: scores[i] });
            let raised = composite_alerts(log, pid, scores, stamp, now, threshold);
            let after = scored(log, scores, now, threshold).0;
            &&& raised.len() == 1 <==> total(log + added) > threshold
            &&& raised.len() == 0 <==> total(log + added) <= threshold
            &&& total(log + added) > threshold ==> after.len() == 0
            &&& total(log + added) <= threshold ==> after == log + added
        }),
{
    let added = Seq::new(scores.len(), |i: int| Points { at: now, score: scores[i] });
    let test = |p: Points| span(p.at, now) <= SCORE_WINDOW;
    lemma_filter_keeps_all(log, test);
    assert(lot_points(scores, now) =~= added);
}

/// What a process scored more than five minutes ago has no influence, wherever it stands among
/// its points, and a lot without alerts changes nothing and raises nothing.
pub proof fn law_old_points_are_gone(
    before: Seq<Points>,
    old: Points,
    behind: Seq<Points>,
    scores: Seq<u32>,
    now: u128,
    threshold: u32,
)
    requires
        old.at < now,
        now - old.at > 300_000_000_000,
    ensures
        scores.len() > 0 ==> scored(before + seq![old] + behind, scores, now, threshold) == scored(
            before + behind,
            scores,
            now,
            threshold,
        ),
        scores.len() == 0 ==> scored(before + behind, scores, now, threshold) == (
            before + behind,
            false,
        ),
{
    let test = |p: Points| span(p.at, now) <= SCORE_WINDOW;
    Seq::filter_distributes_over_add(before + seq![old], behind, test);
    Seq::filter_distributes_over_add(before, seq![old], test);
    Seq::filter_distributes_over_add(before, behind, test);
    assert(seq![old].filter(test) =~= Seq::<Points>::empty()) by {
        reveal_with_fuel(Seq::filter, 2);
        assert(!test(seq![old].last()));
        assert(seq![old].drop_last() =~= Seq::<Points>::empty());
    }
    assert(in_window(before + seq![old] + behind, now) =~= in_window(before + behind, now));
}

/// What the alert of the score says: of which process, above which threshold, how grave it is
/// and when it was raised. It belongs to no single event.
pub proof fn law_alert_of_the_score(pid: u32, threshold: u32, stamp: Timestamp)
    ensures
        ({
            let alert = composite_alert(pid, threshold, stamp);
            &&& alert.rule_id == "SCORE-COMPOSITE"@
            &&& alert.severity == Severity::High
            &&& alert.pid == pid
            &&& alert.timestamp == stamp
            &&& alert.id is None
            &&& alert.mitre_technique is None
            &&& alert.event_json.len() == 0
            &&& alert.action_taken == Some("Alert"@)
            &&& alert.rule_description == "Score composite élevé pour PID "@ + decimal(pid as nat)
                + " (seuil "@ + decimal(threshold as nat) + " dépassé)"@
        }),
{
}

/// No note lies after the given time.
pub open spec fn noted_by(log: Seq<SeqView>, now: u128) -> bool {
    forall|i: int| 0 <= i < log.len() ==> (#[trigger] log[i]).timestamp <= now
}

/// A program was noted less than two seconds before the given time.
pub open spec fn program_before(log: Seq<SeqView>, now: u128) -> bool {
    exists|i: int|
        0 <= i < log.len() && (#[trigger] log[i]).kind == SeqEventKind::Execve && now
            - log[i].timestamp < 2_000_000_000
}

/// A change of the mode of a file was noted less than five seconds before the given time.
pub open spec fn change_before(log: Seq<SeqView>, path: Seq<char>, now: u128) -> bool {
    exists|i: int|
        0 <= i < log.len() && (#[trigger] log[i]).kind == SeqEventKind::Chmod && log[i].path
            == Some(path) && now - log[i].timestamp < 5_000_000_000
}

/// Which events complete which sequence: a connection less than two seconds after a program of
/// the same process the one, a program less than five seconds after a change of the mode of its
/// own file the other, and nothing else any.
pub proof fn law_what_completes_sequences(log: Seq<SeqView>, event: EdrEvent, now: u128)
    requires
        noted_by(log, now),
    ensures
        event is Network ==> completes(log, event, now) == if program_before(log, now) {
            Some("R-007"@)
        } else {
            None
        },
        event matches EdrEvent::Process(e) ==> completes(log, event, now) == if change_before(
            log,
            e.exe_path@,
            now,
        ) {
            Some("R-008"@)
        } else {
            None
        },
        !(event is Network) && !(event is Process) ==> completes(log, event, now) is None,
{
    let fresh = |e: SeqView| span(e.timestamp, now) <= RETENTION;
    let before = kept(log, now);
    assert forall|i: int| 0 <= i < before.len() implies log.contains(#[trigger] before[i]) by {
        assert(before.contains(before[i]));
        lemma_filter_contains(log, fresh, before[i]);
    }
    assert forall|i: int|
        0 <= i < log.len() && now - (#[trigger] log[i]).timestamp
            < 5_000_000_000 implies before.contains(log[i]) by {
        assert(log.contains(log[i]));
        lemma_filter_contains(log, fresh, log[i]);
    }
    if recent_execve(before, now) {
        let i = choose|i: int|
            0 <= i < before.len() && (#[trigger] before[i]).kind == SeqEventKind::Execve && span(
                before[i].timestamp,
                now,
            ) < CONNECT_WINDOW;
        let j = choose|j: int| 0 <= j < log.len() && log[j] == before[i];
        assert(log[j].kind == SeqEventKind::Execve);
    }
    if program_before(log, now) {
        let i = choose|i: int|
            0 <= i < log.len() && (#[trigger] log[i]).kind == SeqEventKind::Execve && now
                - log[i].timestamp < 2_000_000_000;
        let j = choose|j: int| 0 <= j < before.len() && before[j] == log[i];
        assert(before[j].kind == SeqEventKind::Execve);
    }
    if let EdrEvent::Process(e) = event {
        let path = e.exe_path@;
        if recent_chmod(before, Some(path), now) {
            let i = choose|i: int|
                0 <= i < before.len() && (#[trigger] before[i]).kind == SeqEventKind::Chmod && span(
                    before[i].timestamp,
                    now,
                ) < CHMOD_WINDOW && before[i].path == Some(path);
            let j = choose|j: int| 0 <= j < log.len() && log[j] == before[i];
            assert(log[j].kind == SeqEventKind::Chmod);
        }
        if change_before(log, path, now) {
            let i = choose|i: int|
                0 <= i < log.len() && (#[trigger] log[i]).kind == SeqEventKind::Chmod && log[i].path
                    == Some(path) && now - log[i].timestamp < 5_000_000_000;
            let j = choose|j: int| 0 <= j < before.len() && before[j] == log[i];
            assert(before[j].kind == SeqEventKind::Chmod);
        }
    }
}

/// What is noted of an event: a program and a change of mode with their paths, a connection
/// without one, and of a file besides only that it was created. The other events leave the notes
/// as they are; with the others, those that are no more than thirty seconds old stay.
pub proof fn law_what_is_noted(log: Seq<SeqView>, event: EdrEvent, now: u128, old: SeqView)
    requires
        old.timestamp <= now,
    ensures
        ({
            let after = notes_after(log, event, now);
            let operation = event->File_0.operation;
            &&& event matches EdrEvent::Process(e) ==> after.last() == (SeqView {
                kind: SeqEventKind::Execve,
                timestamp: now,
                path: Some(e.exe_path@),
            })
            &&& event is Network ==> after.last() == (SeqView {
                kind: SeqEventKind::NetConn,
                timestamp: now,
                path: None,
            })
            &&& event is File && operation == FileOperation::Chmod ==> after.last() == (SeqView {
                kind: SeqEventKind::Chmod,
                timestamp: now,
                path: Some(event->File_0.path@),
            })
            &&& event is File && operation == FileOperation::Create ==> after.last() == (SeqView {
                kind: SeqEventKind::FileCreate,
                timestamp: now,
                path: Some(event->File_0.path@),
            })
            &&& (event is Fork || event is Exit || (event is File && operation
                != FileOperation::Chmod && operation != FileOperation::Create)) ==> after == log
            &&& after == log || (after.drop_last().contains(old) <==> log.contains(old) && now
                - old.timestamp <= 30_000_000_000)
        }),
{
    let fresh = |e: SeqView| span(e.timestamp, now) <= RETENTION;
    lemma_filter_contains(log, fresh, old);
    let after = notes_after(log, event, now);
    if after != log {
        assert(after.drop_last() =~= kept(log, now));
    }
}

/// What is known of an event beyond what it holds: how many connections its process has, where
/// it is one, counting this one; the sequence that it completes; and what its environment says.
pub proof fn law_what_is_known(history: History, event: EdrEvent, ld_preload: bool, now: u128)
    ensures
        ({
            let signals = signals_of(history, event, ld_preload, now);
            &&& signals.ld_preload == ld_preload
            &&& signals.sequence == completes(history.notes, event, now)
            &&& !(event is Network) ==> signals.connections == 0
            &&& event is Network ==> signals.connections == counted(
                logged(history.connections, now),
            )
        }),
{
}

/// Where all connections of a process lie no more than ten seconds back, a further one counts
/// one more.
pub proof fn law_one_more_connection(log: Seq<u128>, now: u128)
    requires
        forall|i: int|
            0 <= i < log.len() ==> (#[trigger] log[i]) <= now && now - log[i] <= 10_000_000_000,
        log.len() < 0xffff_ffff,
    ensures
        logged(log, now) == log.push(now),
        counted(logged(log, now)) == log.len() + 1,
{
    let grown = log.push(now);
    if log.len() > 0 {
        assert(log[0] <= now);
        assert(grown[0] == log[0]);
    }
}

/// A connection of more than ten seconds ago, at the front of the log, does not count any more.
pub proof fn law_old_connections_are_gone(old: u128, log: Seq<u128>, now: u128)
    requires
        old < now,
        now - old > 10_000_000_000,
    ensures
        logged(seq![old] + log, now) == logged(log, now),
{
    let grown = (seq![old] + log).push(now);
    assert(grown.drop_first() =~= log.push(now));
    assert(grown[0] == old);
}

/// What is remembered after an event, whichever rules fired: what they scored, the note of the
/// event, and its time where it is a connection. Other events leave the log of connections as it
/// is.
pub proof fn law_what_is_remembered(
    rules: Seq<RuleView>,
    places: Seq<int>,
    history: History,
    event: EdrEvent,
    now: u128,
    threshold: u32,
)
    ensures
        ({
            let after = history_after(rules, places, history, event, now, threshold);
            &&& !(event is Network) ==> after.connections == history.connections
            &&& event is Network ==> after.connections == logged(history.connections, now)
            &&& after.notes == notes_after(history.notes, event, now)
            &&& places.len() == 0 ==> after.scores == history.scores
            &&& after.scores == scored(
                history.scores,
                Seq::new(places.len(), |k: int| rules[places[k]].score),
                now,
                threshold,
            ).0
        }),
{
    assert(rule_scores(rules, places) =~= Seq::new(
        places.len(),
        |k: int| rules[places[k]].score,
    ));
}

/// What the built-in rules score, and under which technique they stand. All of them only raise
/// an alert.
pub proof fn law_default_scores(i: int)
    requires
        0 <= i < 10,
    ensures
        default_table().len() == 10,
        default_table()[i].action == RuleAction::Alert,
        default_table()[i].score == seq![25u32, 40, 50, 30, 35, 15, 30, 30, 50, 40][i],
        default_table()[i].id == seq![
            "R-001"@,
            "R-002"@,
            "R-003"@,
            "R-004"@,
            "R-005"@,
            "R-006"@,
            "R-007"@,
            "R-008"@,
            "R-009"@,
            "R-010"@,
        ][i],
        default_table()[i].mitre_technique == Some(
            seq![
                "T1059"@,
                "T1059.004"@,
                "T1098"@,
                "T1053.003"@,
                "T1574.006"@,
                "T1046"@,
                "T1071"@,
                "T1222"@,
                "T1003.008"@,
                "T1574.001"@,
            ][i],
        ),
{
}

/// How the built-in rules describe what they found.
pub proof fn law_default_descriptions(i: int)
    requires
        0 <= i < 10,
    ensures
        default_table()[i].description == seq![
            "Exécution d'un binaire depuis /tmp ou /dev/shm"@,
            "Shell interactif (bash/sh/zsh) spawné par un service non-interactif"@,
            "Modification de /etc/passwd ou /etc/shadow"@,
            "Création ou modification d'une crontab ou timer systemd"@,
            "Variable d'environnement LD_PRELOAD définie"@,
            "Processus effectuant > 50 connexions réseau en 10 secondes"@,
            "Connexion réseau établie immédiatement après execve (< 2s)"@,
            "Chmod +x sur un fichier suivi de son exécution (< 5s)"@,
            "Lecture de /etc/shadow par un processus non autorisé"@,
            "Création d'un fichier .so dans un répertoire world-writable"@,
        ][i],
{
}

} // verus!
