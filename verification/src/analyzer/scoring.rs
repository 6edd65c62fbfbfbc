//! Scores: several alerts of one process within a window of time make one grave alert.

use crate::collector::network_proc::{lemma_filter_keeps_all, lemma_filter_twice};
use crate::common::{alert_views, Alert, AlertView, EdrEvent, Severity};
use crate::number::{decimal, to_decimal};
use crate::time::{elapsed, span, Clock, Timestamp};
use std::collections::HashMap;
use vstd::prelude::*;

verus! {

broadcast use vstd::std_specs::hash::group_hash_axioms;

/// How long a score counts, in nanoseconds: five minutes.
pub const SCORE_WINDOW: u128 = 300_000_000_000;

/// What a process scored with one alert, and when.
#[derive(Debug, Clone, Copy, PartialEq, Eq, Structural)]
pub struct Points {
    pub at: u128,
    pub score: u32,
}

/// What an alert scores by its severity.
pub open spec fn severity_score(severity: Severity) -> u32 {
    match severity {
        Severity::Low => 5,
        Severity::Medium => 15,
        Severity::High => 25,
        Severity::Critical => 50,
    }
}

/// What the alerts of a list score by their severity.
pub open spec fn alert_scores(alerts: Seq<AlertView>) -> Seq<u32> {
    alerts.map_values(|a: AlertView| severity_score(a.severity))
}

/// What the points of a list come to.
pub open spec fn total(log: Seq<Points>) -> nat
    decreases log.len(),
{
    if log.len() == 0 {
        0
    } else {
        total(log.drop_last()) + log.last().score as nat
    }
}

/// The points that count at the given time.
pub open spec fn in_window(log: Seq<Points>, now: u128) -> Seq<Points> {
    log.filter(|p: Points| span(p.at, now) <= SCORE_WINDOW)
}

/// The points that a lot of alerts scores.
pub open spec fn lot_points(scores: Seq<u32>, now: u128) -> Seq<Points> {
    scores.map_values(|score: u32| Points { at: now, score })
}

/// The points of a process after one more lot of alerts, and whether those within the window
/// come to more than the threshold. A score that did starts over. A lot without alerts changes
/// nothing.
pub open spec fn scored(log: Seq<Points>, scores: Seq<u32>, now: u128, threshold: u32) -> (
    Seq<Points>,
    bool,
) {
    let all = in_window(log, now) + lot_points(scores, now);
    if scores.len() == 0 {
        (log, false)
    } else if total(all) > threshold {
        (Seq::empty(), true)
    } else {
        (all, false)
    }
}

/// The alert that tells that the score of a process passed the threshold.
pub open spec fn composite_alert(pid: u32, threshold: u32, stamp: Timestamp) -> AlertView {
    AlertView {
        id: None,
        rule_id: "SCORE-COMPOSITE"@,
        rule_description: "Score composite élevé pour PID "@ + decimal(pid as nat) + " (seuil "@
            + decimal(threshold as nat) + " dépassé)"@,
        severity: Severity::High,
        timestamp: stamp,
        pid,
        mitre_technique: None,
        event_json: Seq::empty(),
        action_taken: Some("Alert"@),
    }
}

/// The alerts that follow from one more lot of alerts.
pub open spec fn composite_alerts(
    log: Seq<Points>,
    pid: u32,
    scores: Seq<u32>,
    stamp: Timestamp,
    now: u128,
    threshold: u32,
) -> Seq<AlertView> {
    if scored(log, scores, now, threshold).1 {
        seq![composite_alert(pid, threshold, stamp)]
    } else {
        Seq::empty()
    }
}

/// A lot of alerts of one process: what each scores, and when they came.
pub struct Lot {
    pub scores: Seq<u32>,
    pub at: u128,
}

/// The points that a series of lots scores together.
pub open spec fn series_points(lots: Seq<Lot>) -> Seq<Points>
    decreases lots.len(),
{
    if lots.len() == 0 {
        Seq::empty()
    } else {
        series_points(lots.drop_last()) + lot_points(lots.last().scores, lots.last().at)
    }
}

/// The points of a process after a series of lots, from nothing on, and whether the last lot
/// passed the threshold.
pub open spec fn after_series(lots: Seq<Lot>, threshold: u32) -> (Seq<Points>, bool)
    decreases lots.len(),
{
    if lots.len() == 0 {
        (Seq::empty(), false)
    } else {
        let before = after_series(lots.drop_last(), threshold).0;
        scored(before, lots.last().scores, lots.last().at, threshold)
    }
}

/// The times of a series only go up, and none lies after `now`.
pub open spec fn up_to(lots: Seq<Lot>, now: u128) -> bool {
    &&& forall|i: int, j: int| 0 <= i <= j < lots.len() ==> (#[trigger] lots[i]).at <= (
    #[trigger] lots[j]).at
    &&& forall|i: int| 0 <= i < lots.len() ==> (#[trigger] lots[i]).at <= now
}

/// No lot of a series passed the threshold.
pub open spec fn none_raised(lots: Seq<Lot>, threshold: u32) -> bool {
    forall|n: int| 0 < n <= lots.len() ==> !(#[trigger] after_series(lots.take(n), threshold)).1
}

/// Alerts add up: where no lot of a series raised the alert yet, the next lot does so if and only
/// if all that was scored within the last five minutes comes to more than the threshold, however
/// small each score is.
pub proof fn law_scores_add_up(lots: Seq<Lot>, threshold: u32)
    requires
        lots.len() > 0,
        lots.last().scores.len() > 0,
        up_to(lots, lots.last().at),
        none_raised(lots.drop_last(), threshold),
    ensures
        after_series(lots, threshold).1 <==> total(in_window(series_points(lots), lots.last().at))
            > threshold,
{
    let front = lots.drop_last();
    let last = lots[lots.len() - 1];
    let test = |p: Points| span(p.at, last.at) <= SCORE_WINDOW;
    lemma_series_in_window(front, threshold, last.at);
    let added = lot_points(last.scores, last.at);
    Seq::filter_distributes_over_add(series_points(front), added, test);
    lemma_filter_keeps_all(added, test);
}

/// As long as a series raised no alert, the points that count at a later time are those of the
/// whole series that do.
proof fn lemma_series_in_window(lots: Seq<Lot>, threshold: u32, now: u128)
    requires
        up_to(lots, now),
        none_raised(lots, threshold),
    ensures
        in_window(after_series(lots, threshold).0, now) == in_window(series_points(lots), now),
    decreases lots.len(),
{
    if lots.len() > 0 {
        let front = lots.drop_last();
        let last = lots[lots.len() - 1];
        assert(none_raised(front, threshold)) by {
            assert forall|n: int| 0 < n <= front.len() implies !(#[trigger] after_series(
                front.take(n),
                threshold,
            )).1 by {
                assert(front.take(n) =~= lots.take(n));
            }
        }
        assert(lots.take(lots.len() as int) =~= lots);
        lemma_series_in_window(front, threshold, now);
        let before = after_series(front, threshold).0;
        let added = lot_points(last.scores, last.at);
        let first = |p: Points| span(p.at, last.at) <= SCORE_WINDOW;
        let second = |p: Points| span(p.at, now) <= SCORE_WINDOW;
        Seq::filter_distributes_over_add(series_points(front), added, second);
        if last.scores.len() > 0 {
            lemma_filter_twice(before, first, second);
            Seq::filter_distributes_over_add(before.filter(first), added, second);
        } else {
            assert(added =~= Seq::<Points>::empty());
            assert(added.filter(second) =~= Seq::<Points>::empty()) by {
                reveal(Seq::filter);
            }
        }
    }
}

/// What was scored longer ago than the window is forgotten.
pub proof fn law_scores_expire(log: Seq<Points>, scores: Seq<u32>, now: u128, threshold: u32)
    requires
        scores.len() > 0,
        forall|i: int| 0 <= i < log.len() ==> span((#[trigger] log[i]).at, now) > SCORE_WINDOW,
    ensures
        scored(log, scores, now, threshold) == scored(Seq::empty(), scores, now, threshold),
{
    let test = |p: Points| span(p.at, now) <= SCORE_WINDOW;
    let none = Seq::<Points>::empty();
    lemma_filter_keeps_none(log, test);
    lemma_filter_keeps_none(none, test);
}

/// A list of which no item passes a test is left empty.
proof fn lemma_filter_keeps_none(log: Seq<Points>, test: spec_fn(Points) -> bool)
    requires
        forall|i: int| 0 <= i < log.len() ==> !test(#[trigger] log[i]),
    ensures
        log.filter(test) == Seq::<Points>::empty(),
    decreases log.len(),
{
    reveal(Seq::filter);
    if log.len() > 0 {
        assert forall|i: int| 0 <= i < log.drop_last().len() implies !test(
            #[trigger] log.drop_last()[i],
        ) by {
            assert(!test(log[i]));
        }
        lemma_filter_keeps_none(log.drop_last(), test);
        assert(!test(log[log.len() - 1]));
    }
}

/// A lot of alerts that is scored: of which process, what each scores, and when they came.
pub struct Call {
    pub pid: u32,
    pub scores: Seq<u32>,
    pub at: u128,
}

/// The points of a process after a series of lots of any processes.
pub open spec fn log_after(start: ScoringEngine, calls: Seq<Call>, pid: u32) -> Seq<Points>
    decreases calls.len(),
{
    if calls.len() == 0 {
        start.log(pid)
    } else {
        let before = log_after(start, calls.drop_last(), pid);
        let last = calls.last();
        if last.pid == pid {
            scored(before, last.scores, last.at, start.limit()).0
        } else {
            before
        }
    }
}

/// The lots with alerts of one process.
pub open spec fn own_calls(calls: Seq<Call>, pid: u32) -> Seq<Call> {
    calls.filter(|c: Call| c.pid == pid && c.scores.len() > 0)
}

/// Processes score apart: lots of other processes, and lots without alerts, have no influence on
/// what a later lot of a process leads to.
pub proof fn law_processes_score_apart(
    start: ScoringEngine,
    calls: Seq<Call>,
    pid: u32,
    scores: Seq<u32>,
    stamp: Timestamp,
    now: u128,
)
    ensures
        log_after(start, calls, pid) == log_after(start, own_calls(calls, pid), pid),
        composite_alerts(log_after(start, calls, pid), pid, scores, stamp, now, start.limit())
            == composite_alerts(
            log_after(start, own_calls(calls, pid), pid),
            pid,
            scores,
            stamp,
            now,
            start.limit(),
        ),
    decreases calls.len(),
{
    reveal(Seq::filter);
    if calls.len() > 0 {
        let front = calls.drop_last();
        law_processes_score_apart(start, front, pid, scores, stamp, now);
        let own = own_calls(front, pid);
        let last = calls.last();
        if last.pid == pid && last.scores.len() > 0 {
            assert(own.push(last).drop_last() =~= own);
        }
    }
}

/// What the points of a list come to.
fn sum(log: &Vec<Points>) -> (points: u128)
    ensures
        points == total(log@),
{
    let mut points: u128 = 0;
    for i in 0..log.len()
        invariant
            points == total(log@.take(i as int)),
            points <= i * 0xffff_ffff,
    {
        assert(log@.take(i + 1).drop_last() =~= log@.take(i as int));
        points = points + log[i].score as u128;
    }
    assert(log@.take(log@.len() as int) =~= log@);
    points
}

/// The points that count at the given time.
fn windowed(log: &Vec<Points>, now: u128) -> (left: Vec<Points>)
    ensures
        left@ == in_window(log@, now),
{
    let ghost test = |p: Points| span(p.at, now) <= SCORE_WINDOW;
    let mut left: Vec<Points> = Vec::new();
    assert(left@ =~= log@.take(0).filter(test)) by {
        reveal(Seq::filter);
    }
    for i in 0..log.len()
        invariant
            test == (|p: Points| span(p.at, now) <= SCORE_WINDOW),
            left@ == log@.take(i as int).filter(test),
    {
        proof {
            reveal(Seq::filter);
            assert(log@.take(i + 1).drop_last() =~= log@.take(i as int));
            assert(log@.take(i + 1).last() == log@[i as int]);
        }
        if elapsed(log[i].at, now) <= SCORE_WINDOW {
            left.push(log[i]);
        }
    }
    assert(log@.take(log@.len() as int) =~= log@);
    left
}

/// Adds up what the processes score.
pub struct ScoringEngine {
    threshold: u32,
    logs: HashMap<u32, Vec<Points>>,
    clock: Clock,
}

impl ScoringEngine {
    /// The score above which an alert is raised.
    pub closed spec fn limit(self) -> u32 {
        self.threshold
    }

    /// The points of a process since its last alert of this kind.
    pub closed spec fn log(self, pid: u32) -> Seq<Points> {
        if self.logs@.contains_key(pid) {
            self.logs@[pid]@
        } else {
            Seq::empty()
        }
    }

    /// The number is a time on the clock of the engine, counted from when the engine was made.
    pub closed spec fn clock_shows(self, nanos: u128) -> bool {
        self.clock.shows(nanos)
    }

    /// Nothing has been scored yet.
    pub fn new(threshold: u32) -> (engine: ScoringEngine)
        ensures
            engine.limit() == threshold,
            forall|pid: u32| #[trigger] engine.log(pid) == Seq::<Points>::empty(),
    {
        ScoringEngine { threshold, logs: HashMap::new(), clock: Clock::start() }
    }

    /// Adds what each alert of a lot scores, at the given time, and gives the alert of a score
    /// that passed the threshold.
    pub fn score_at(&mut self, pid: u32, scores: &[u32], stamp: Timestamp, now: u128) -> (raised:
        Vec<Alert>)
        ensures
            alert_views(raised@) == composite_alerts(
                old(self).log(pid),
                pid,
                scores@,
                stamp,
                now,
                old(self).limit(),
            ),
            final(self).log(pid) == scored(
                old(self).log(pid),
                scores@,
                now,
                old(self).limit(),
            ).0,
            forall|other: u32|
                other != pid ==> #[trigger] final(self).log(other) == old(self).log(other),
            final(self).limit() == old(self).limit(),
            forall|n: u128| #[trigger] final(self).clock_shows(n) == old(self).clock_shows(n),
    {
        let mut raised: Vec<Alert> = Vec::new();
        if scores.len() == 0 {
            assert(alert_views(raised@) =~= Seq::<AlertView>::empty());
            return raised;
        }
        let mut log: Vec<Points> = match self.logs.get(&pid) {
            Some(log) => windowed(log, now),
            None => {
                let none: Vec<Points> = Vec::new();
                assert(none@ =~= in_window(Seq::empty(), now)) by {
                    reveal(Seq::filter);
                }
                none
            },
        };
        let ghost kept = log@;
        let ghost added = lot_points(scores@, now);
        for i in 0..scores.len()
            invariant
                added == lot_points(scores@, now),
                log@ == kept + added.take(i as int),
        {
            log.push(Points { at: now, score: scores[i] });
            assert(log@ =~= kept + added.take(i + 1));
        }
        assert(added.take(added.len() as int) =~= added);
        if sum(&log) > self.threshold as u128 {
            self.logs.insert(pid, Vec::new());
            let mut description = "Score composite élevé pour PID ".to_owned();
            description.push_str(to_decimal(pid as u64).as_str());
            description.push_str(" (seuil ");
            description.push_str(to_decimal(self.threshold as u64).as_str());
            description.push_str(" dépassé)");
            raised.push(
                Alert {
                    id: None,
                    rule_id: "SCORE-COMPOSITE".to_owned(),
                    rule_description: description,
                    severity: Severity::High,
                    timestamp: stamp,
                    pid,
                    mitre_technique: None,
                    event_json: String::new(),
                    action_taken: Some("Alert".to_owned()),
                },
            );
            assert(alert_views(raised@) =~= seq![composite_alert(pid, self.threshold, stamp)]);
            assert(self.log(pid) =~= Seq::<Points>::empty());
        } else {
            self.logs.insert(pid, log);
            assert(alert_views(raised@) =~= Seq::<AlertView>::empty());
        }
        raised
    }

    /// Adds what alerts of a process score by their severity, at the given time, and gives the
    /// alert of a score that passed the threshold.
    pub fn check_at(&mut self, pid: u32, new_alerts: &[Alert], stamp: Timestamp, now: u128) -> (raised:
        Vec<Alert>)
        ensures
            alert_views(raised@) == composite_alerts(
                old(self).log(pid),
                pid,
                alert_scores(alert_views(new_alerts@)),
                stamp,
                now,
                old(self).limit(),
            ),
            final(self).log(pid) == scored(
                old(self).log(pid),
                alert_scores(alert_views(new_alerts@)),
                now,
                old(self).limit(),
            ).0,
            forall|other: u32|
                other != pid ==> #[trigger] final(self).log(other) == old(self).log(other),
            final(self).limit() == old(self).limit(),
            forall|n: u128| #[trigger] final(self).clock_shows(n) == old(self).clock_shows(n),
    {
        let ghost wanted = alert_scores(alert_views(new_alerts@));
        let mut scores: Vec<u32> = Vec::new();
        for i in 0..new_alerts.len()
            invariant
                wanted == alert_scores(alert_views(new_alerts@)),
                scores@ == wanted.take(i as int),
        {
            scores.push(
                match new_alerts[i].severity {
                    Severity::Low => 5,
                    Severity::Medium => 15,
                    Severity::High => 25,
                    Severity::Critical => 50,
                },
            );
            assert(scores@ =~= wanted.take(i + 1));
        }
        assert(scores@ =~= wanted);
        self.score_at(pid, scores.as_slice(), stamp, now)
    }

    /// Adds what alerts of a process score by their severity, at the current time, and gives the
    /// alert of a score that passed the threshold.
    pub fn check(&mut self, pid: u32, new_alerts: &[Alert], _event: &EdrEvent) -> (raised: Vec<Alert>)
        ensures
            exists|stamp: Timestamp, now: u128|
                {
                    &&& old(self).clock_shows(now)
                    &&& alert_views(raised@) == #[trigger] composite_alerts(
                        old(self).log(pid),
                        pid,
                        alert_scores(alert_views(new_alerts@)),
                        stamp,
                        now,
                        old(self).limit(),
                    )
                    &&& final(self).log(pid) == scored(
                        old(self).log(pid),
                        alert_scores(alert_views(new_alerts@)),
                        now,
                        old(self).limit(),
                    ).0
                },
            forall|other: u32|
                other != pid ==> #[trigger] final(self).log(other) == old(self).log(other),
            final(self).limit() == old(self).limit(),
            forall|n: u128| #[trigger] final(self).clock_shows(n) == old(self).clock_shows(n),
    {
        let now = self.clock.nanos();
        self.check_at(pid, new_alerts, Timestamp::now(), now)
    }

    /// The time on the clock of the engine.
    pub fn now(&self) -> (now: u128)
        ensures
            self.clock_shows(now),
    {
        self.clock.nanos()
    }
}

} // verus!
