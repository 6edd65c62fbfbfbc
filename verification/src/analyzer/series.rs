//! What holds of the detection over a series of events.

use super::defaults::default_table;
use super::laws::{law_what_came_before_is_reported, lemma_default_names, reported};
use super::rule::{NumericOrder, RuleView};
use super::sequence::{
    completes, kept, kind_of, law_sequence_has_a_cause, lemma_kept_keeps, path_of, recent_chmod,
    recent_execve, SeqEventKind, SeqView, CHMOD_RULE, CHMOD_WINDOW, CONNECT_RULE, CONNECT_WINDOW,
    RETENTION,
};
use super::scoring::{
    after_series, in_window, law_scores_add_up, none_raised, series_points, total, up_to, Lot,
};
use super::{
    all_alerts, firing, history_after, law_every_rule_is_tried, rule_scores, signals_of, History,
};
use crate::collector::network_proc::{
    ascending, law_log_counts_window, logged, logged_series, within_window,
};
use crate::common::{AlertView, EdrEvent, FileOperation};
use crate::time::{span, Timestamp};
use vstd::prelude::*;

verus! {

/// An event, and what it is evaluated with: whether its process has `LD_PRELOAD` in its
/// environment, how the operands of the conditions compare, and the time on the clock.
pub struct Evaluation {
    pub event: EdrEvent,
    pub ld_preload: bool,
    pub orders: Seq<Seq<NumericOrder>>,
    pub now: u128,
}

impl Evaluation {
    /// The places of the rules that fire, where the process has the given history.
    pub open spec fn places(self, rules: Seq<RuleView>, history: History) -> Seq<int> {
        firing(
            rules,
            self.event,
            signals_of(history, self.event, self.ld_preload, self.now),
            self.orders,
        )
    }

    /// The alerts of an engine with the built-in rules, where the process has the given history.
    /// `stamps` and `stamp` are the times at which they are raised.
    pub open spec fn alerts(
        self,
        history: History,
        threshold: u32,
        event_json: Seq<char>,
        stamps: Seq<Timestamp>,
        stamp: Timestamp,
    ) -> Seq<AlertView> {
        all_alerts(
            default_table(),
            self.places(default_table(), history),
            history.scores,
            self.event,
            event_json,
            stamps,
            stamp,
            self.now,
            threshold,
        )
    }

    /// What is noted of the event for sequences.
    pub open spec fn note(self) -> Option<SeqView> {
        match kind_of(self.event) {
            Some(kind) => Some(SeqView { kind, timestamp: self.now, path: path_of(self.event) }),
            None => None,
        }
    }
}

/// What is remembered of a process after a series of events, from nothing on.
pub open spec fn history_along(
    rules: Seq<RuleView>,
    threshold: u32,
    series: Seq<Evaluation>,
    pid: u32,
) -> History
    decreases series.len(),
{
    if series.len() == 0 {
        History::none()
    } else {
        let before = history_along(rules, threshold, series.drop_last(), pid);
        let last = series.last();
        if last.event.pid_of() == pid {
            history_after(
                rules,
                last.places(rules, before),
                before,
                last.event,
                last.now,
                threshold,
            )
        } else {
            before
        }
    }
}

/// The events of one process.
pub open spec fn own_events(series: Seq<Evaluation>, pid: u32) -> Seq<Evaluation> {
    series.filter(|e: Evaluation| e.event.pid_of() == pid)
}

/// The times only go up.
pub open spec fn in_order(series: Seq<Evaluation>) -> bool {
    forall|i: int, j: int|
        0 <= i <= j < series.len() ==> (#[trigger] series[i]).now <= (#[trigger] series[j]).now
}

/// The times of the connections of a process.
pub open spec fn connection_times(series: Seq<Evaluation>, pid: u32) -> Seq<u128>
    decreases series.len(),
{
    if series.len() == 0 {
        Seq::empty()
    } else {
        let before = connection_times(series.drop_last(), pid);
        let last = series.last();
        if last.event.pid_of() == pid && last.event is Network {
            before.push(last.now)
        } else {
            before
        }
    }
}

/// Processes are told apart: the events of others have no influence on what is remembered of a
/// process, and so none on its alerts.
pub proof fn law_processes_are_told_apart(
    rules: Seq<RuleView>,
    threshold: u32,
    series: Seq<Evaluation>,
    pid: u32,
)
    ensures
        history_along(rules, threshold, series, pid) == history_along(
            rules,
            threshold,
            own_events(series, pid),
            pid,
        ),
    decreases series.len(),
{
    reveal(Seq::filter);
    if series.len() > 0 {
        let front = series.drop_last();
        law_processes_are_told_apart(rules, threshold, front, pid);
        let own = own_events(front, pid);
        let last = series.last();
        if last.event.pid_of() == pid {
            assert(own.push(last).drop_last() =~= own);
        }
    }
}

/// The log of connections holds those of the series.
proof fn lemma_connections_along(
    rules: Seq<RuleView>,
    threshold: u32,
    series: Seq<Evaluation>,
    pid: u32,
)
    ensures
        history_along(rules, threshold, series, pid).connections == logged_series(
            connection_times(series, pid),
        ),
    decreases series.len(),
{
    if series.len() > 0 {
        let front = series.drop_last();
        lemma_connections_along(rules, threshold, front, pid);
        let before = connection_times(front, pid);
        let last = series.last();
        assert(before.push(last.now).drop_last() =~= before);
    }
}

/// Where the times of a series only go up, those of the connections do.
proof fn lemma_times_ascend(series: Seq<Evaluation>, pid: u32)
    requires
        in_order(series),
    ensures
        ascending(connection_times(series, pid)),
        forall|i: int|
            0 <= i < connection_times(series, pid).len() ==> #[trigger] connection_times(
                series,
                pid,
            )[i] <= series.last().now,
    decreases series.len(),
{
    if series.len() > 0 {
        let front = series.drop_last();
        assert(in_order(front)) by {
            assert forall|i: int, j: int| 0 <= i <= j < front.len() implies (
            #[trigger] front[i]).now <= (#[trigger] front[j]).now by {
                assert(series[i].now <= series[j].now);
            }
        }
        lemma_times_ascend(front, pid);
        if front.len() > 0 {
            assert(series[series.len() - 2].now <= series[series.len() - 1].now);
        }
    }
}

/// With the built-in rules, a connection is reported as part of a scan if and only if its process
/// has made more than fifty within the last ten seconds, this one among them, in whatever series
/// of events it stands.
pub proof fn law_scan_is_reported(
    threshold: u32,
    series: Seq<Evaluation>,
    next: Evaluation,
    event_json: Seq<char>,
    stamps: Seq<Timestamp>,
    stamp: Timestamp,
)
    requires
        in_order(series.push(next)),
    ensures
        ({
            let pid = next.event.pid_of();
            let history = history_along(default_table(), threshold, series, pid);
            reported(next.alerts(history, threshold, event_json, stamps, stamp), "R-006"@) <==> (
            next.event is Network && within_window(
                connection_times(series.push(next), pid),
                next.now,
            ).len() > 50)
        }),
{
    let pid = next.event.pid_of();
    let all = series.push(next);
    let history = history_along(default_table(), threshold, series, pid);
    law_what_came_before_is_reported(
        history,
        next.event,
        next.ld_preload,
        event_json,
        next.orders,
        stamps,
        stamp,
        next.now,
        threshold,
    );
    if next.event is Network {
        assert(all.drop_last() =~= series);
        assert(all.last() == next);
        let times = connection_times(series, pid);
        assert(connection_times(all, pid) == times.push(next.now));
        assert(times.push(next.now).drop_last() =~= times);
        assert(times.push(next.now).last() == next.now);
        lemma_connections_along(default_table(), threshold, series, pid);
        assert(logged_series(times.push(next.now)) == logged(history.connections, next.now));
        lemma_times_ascend(all, pid);
        law_log_counts_window(times.push(next.now));
    }
}

/// Every note of a process stems from one of its events.
proof fn lemma_notes_stem_from_events(
    rules: Seq<RuleView>,
    threshold: u32,
    series: Seq<Evaluation>,
    pid: u32,
    note: SeqView,
)
    requires
        history_along(rules, threshold, series, pid).notes.contains(note),
    ensures
        exists|i: int|
            0 <= i < series.len() && (#[trigger] series[i]).event.pid_of() == pid
                && series[i].note() == Some(note),
    decreases series.len(),
{
    if series.len() > 0 {
        let front = series.drop_last();
        let last = series[series.len() - 1];
        let before = history_along(rules, threshold, front, pid).notes;
        if last.event.pid_of() == pid && last.note() is Some {
            if note == last.note()->0 {
                assert(series[series.len() - 1].note() == Some(note));
            } else {
                let now = kept(before, last.now);
                let after = now.push(last.note()->0);
                let k = choose|k: int| 0 <= k < after.len() && after[k] == note;
                assert(now[k] == note);
                before.lemma_filter_contains_rev(
                    |e: SeqView| span(e.timestamp, last.now) <= RETENTION,
                    note,
                );
                lemma_notes_stem_from_events(rules, threshold, front, pid, note);
                let i = choose|i: int|
                    0 <= i < front.len() && (#[trigger] front[i]).event.pid_of() == pid
                        && front[i].note() == Some(note);
                assert(series[i] == front[i]);
            }
        } else {
            lemma_notes_stem_from_events(rules, threshold, front, pid, note);
            let i = choose|i: int|
                0 <= i < front.len() && (#[trigger] front[i]).event.pid_of() == pid
                    && front[i].note() == Some(note);
            assert(series[i] == front[i]);
        }
    }
}

/// A note that is young enough at a time after a series is still there.
proof fn lemma_note_is_there(
    rules: Seq<RuleView>,
    threshold: u32,
    series: Seq<Evaluation>,
    pid: u32,
    i: int,
    now: u128,
)
    requires
        0 <= i < series.len(),
        series[i].event.pid_of() == pid,
        series[i].note() is Some,
        span(series[i].now, now) <= RETENTION,
        forall|k: int| 0 <= k < series.len() ==> (#[trigger] series[k]).now <= now,
    ensures
        history_along(rules, threshold, series, pid).notes.contains(series[i].note()->0),
    decreases series.len(),
{
    let front = series.drop_last();
    let last = series[series.len() - 1];
    let note = series[i].note()->0;
    let before = history_along(rules, threshold, front, pid).notes;
    let after = history_along(rules, threshold, series, pid).notes;
    if i == series.len() - 1 {
        assert(after[after.len() - 1] == note);
    } else {
        assert forall|k: int| 0 <= k < front.len() implies (#[trigger] front[k]).now <= now by {
            assert(series[k].now <= now);
        }
        lemma_note_is_there(rules, threshold, front, pid, i, now);
        if last.event.pid_of() == pid && last.note() is Some {
            let k = choose|k: int| 0 <= k < before.len() && before[k] == note;
            assert(last.now <= now);
            lemma_kept_keeps(before, last.now, k);
            let left = kept(before, last.now);
            let n = choose|n: int| 0 <= n < left.len() && left[n] == note;
            assert(after[n] == note);
        }
    }
}

/// With the built-in rules, a connection is reported as following a program if and only if the
/// same process executed one less than two seconds before, and a program as following a change
/// of its mode if and only if the same process changed the mode of its file less than five
/// seconds before, in whatever series of events they stand.
pub proof fn law_sequences_are_reported(
    threshold: u32,
    series: Seq<Evaluation>,
    next: Evaluation,
    event_json: Seq<char>,
    stamps: Seq<Timestamp>,
    stamp: Timestamp,
)
    requires
        in_order(series.push(next)),
    ensures
        ({
            let pid = next.event.pid_of();
            let history = history_along(default_table(), threshold, series, pid);
            let alerts = next.alerts(history, threshold, event_json, stamps, stamp);
            &&& reported(alerts, CONNECT_RULE@) <==> (next.event is Network && exists|i: int|
                0 <= i < series.len() && executed_before(#[trigger] series[i], next))
            &&& reported(alerts, CHMOD_RULE@) <==> (next.event is Process && exists|i: int|
                0 <= i < series.len() && changed_before(#[trigger] series[i], next))
        }),
{
    let pid = next.event.pid_of();
    let rules = default_table();
    let history = history_along(rules, threshold, series, pid);
    let notes = history.notes;
    law_what_came_before_is_reported(
        history,
        next.event,
        next.ld_preload,
        event_json,
        next.orders,
        stamps,
        stamp,
        next.now,
        threshold,
    );
    let all = series.push(next);
    assert forall|k: int| 0 <= k < series.len() implies (#[trigger] series[k]).now <= next.now by {
        assert(all[k] == series[k] && all[series.len() as int] == next);
    }
    if let Some(note) = next.note() {
        law_sequence_has_a_cause(notes, note);
        if completes(notes, next.event, next.now) == Some(CONNECT_RULE@) {
            let k = choose|k: int|
                0 <= k < notes.len() && (#[trigger] notes[k]).kind == SeqEventKind::Execve && span(
                    notes[k].timestamp,
                    next.now,
                ) < CONNECT_WINDOW;
            lemma_notes_stem_from_events(rules, threshold, series, pid, notes[k]);
            let i = choose|i: int|
                0 <= i < series.len() && (#[trigger] series[i]).event.pid_of() == pid
                    && series[i].note() == Some(notes[k]);
            assert(executed_before(series[i], next));
        }
        if completes(notes, next.event, next.now) == Some(CHMOD_RULE@) {
            let k = choose|k: int|
                0 <= k < notes.len() && (#[trigger] notes[k]).kind == SeqEventKind::Chmod && span(
                    notes[k].timestamp,
                    next.now,
                ) < CHMOD_WINDOW && notes[k].path == note.path;
            lemma_notes_stem_from_events(rules, threshold, series, pid, notes[k]);
            let i = choose|i: int|
                0 <= i < series.len() && (#[trigger] series[i]).event.pid_of() == pid
                    && series[i].note() == Some(notes[k]);
            assert(changed_before(series[i], next));
        }
    }
    if next.event is Network && exists|i: int|
        0 <= i < series.len() && executed_before(#[trigger] series[i], next) {
        let i = choose|i: int| 0 <= i < series.len() && executed_before(#[trigger] series[i], next);
        lemma_young_note(rules, threshold, series, pid, i, next.now);
        assert(recent_execve(kept(notes, next.now), next.now));
    }
    if next.event is Process && exists|i: int|
        0 <= i < series.len() && changed_before(#[trigger] series[i], next) {
        let i = choose|i: int| 0 <= i < series.len() && changed_before(#[trigger] series[i], next);
        lemma_young_note(rules, threshold, series, pid, i, next.now);
        assert(recent_chmod(kept(notes, next.now), path_of(next.event), next.now));
    }
}

/// The process of `next` executed a program less than two seconds before.
pub open spec fn executed_before(earlier: Evaluation, next: Evaluation) -> bool {
    &&& earlier.event.pid_of() == next.event.pid_of()
    &&& earlier.event is Process
    &&& span(earlier.now, next.now) < CONNECT_WINDOW
}

/// The process of `next`, which executes a program, changed the mode of its file less than five
/// seconds before.
pub open spec fn changed_before(earlier: Evaluation, next: Evaluation) -> bool {
    &&& earlier.event.pid_of() == next.event.pid_of()
    &&& earlier.event matches EdrEvent::File(f)
    &&& f.operation == FileOperation::Chmod
    &&& next.event matches EdrEvent::Process(p)
    &&& f.path@ == p.exe_path@
    &&& span(earlier.now, next.now) < CHMOD_WINDOW
}

/// A note that is young enough is among those that are kept.
proof fn lemma_young_note(
    rules: Seq<RuleView>,
    threshold: u32,
    series: Seq<Evaluation>,
    pid: u32,
    i: int,
    now: u128,
)
    requires
        0 <= i < series.len(),
        series[i].event.pid_of() == pid,
        series[i].note() is Some,
        span(series[i].now, now) <= RETENTION,
        forall|k: int| 0 <= k < series.len() ==> (#[trigger] series[k]).now <= now,
    ensures
        ({
            let left = kept(history_along(rules, threshold, series, pid).notes, now);
            exists|n: int| 0 <= n < left.len() && #[trigger] left[n] == series[i].note()->0
        }),
{
    lemma_note_is_there(rules, threshold, series, pid, i, now);
    let notes = history_along(rules, threshold, series, pid).notes;
    let k = choose|k: int| 0 <= k < notes.len() && notes[k] == series[i].note()->0;
    lemma_kept_keeps(notes, now, k);
}

/// The lots of alerts of a process in a series of events: what the rules that fire score, event
/// by event.
pub open spec fn lots_along(
    rules: Seq<RuleView>,
    threshold: u32,
    series: Seq<Evaluation>,
    pid: u32,
) -> Seq<Lot>
    decreases series.len(),
{
    if series.len() == 0 {
        Seq::empty()
    } else {
        let front = series.drop_last();
        let before = lots_along(rules, threshold, front, pid);
        let last = series.last();
        if last.event.pid_of() == pid {
            let places = last.places(rules, history_along(rules, threshold, front, pid));
            before.push(Lot { scores: rule_scores(rules, places), at: last.now })
        } else {
            before
        }
    }
}

/// The points of a process are those of its lots, and these stand in order.
proof fn lemma_scores_along(
    rules: Seq<RuleView>,
    threshold: u32,
    series: Seq<Evaluation>,
    pid: u32,
    now: u128,
)
    requires
        in_order(series),
        forall|k: int| 0 <= k < series.len() ==> (#[trigger] series[k]).now <= now,
    ensures
        history_along(rules, threshold, series, pid).scores == after_series(
            lots_along(rules, threshold, series, pid),
            threshold,
        ).0,
        up_to(lots_along(rules, threshold, series, pid), now),
    decreases series.len(),
{
    if series.len() > 0 {
        let front = series.drop_last();
        let last = series[series.len() - 1];
        assert forall|i: int, j: int| 0 <= i <= j < front.len() implies (#[trigger] front[i]).now
            <= (#[trigger] front[j]).now by {
            assert(series[i].now <= series[j].now);
        }
        assert forall|k: int| 0 <= k < front.len() implies (#[trigger] front[k]).now
            <= last.now by {
            assert(series[k].now <= series[series.len() - 1].now);
        }
        lemma_scores_along(rules, threshold, front, pid, last.now);
        let before = lots_along(rules, threshold, front, pid);
        let after = lots_along(rules, threshold, series, pid);
        if last.event.pid_of() == pid {
            assert(after.drop_last() =~= before);
        }
        assert forall|i: int, j: int| 0 <= i <= j < after.len() implies (#[trigger] after[i]).at
            <= (#[trigger] after[j]).at by {
            if j < before.len() {
                assert(before[i].at <= before[j].at);
            } else if i < before.len() {
                assert(before[i].at <= last.now);
            }
        }
        assert forall|i: int| 0 <= i < after.len() implies (#[trigger] after[i]).at <= now by {
            if i < before.len() {
                assert(before[i].at <= last.now);
            }
            assert(last.now <= now);
        }
    }
}

/// With the built-in rules, an event for which some rule fires raises the alert of the score if
/// and only if the rules that fired for its process within the last five minutes, those of this
/// event among them, score more than the threshold together, as long as none raised it before.
pub proof fn law_score_is_reported(
    threshold: u32,
    series: Seq<Evaluation>,
    next: Evaluation,
    event_json: Seq<char>,
    stamps: Seq<Timestamp>,
    stamp: Timestamp,
)
    requires
        in_order(series.push(next)),
        ({
            let pid = next.event.pid_of();
            let history = history_along(default_table(), threshold, series, pid);
            &&& next.places(default_table(), history).len() > 0
            &&& none_raised(lots_along(default_table(), threshold, series, pid), threshold)
        }),
    ensures
        ({
            let pid = next.event.pid_of();
            let history = history_along(default_table(), threshold, series, pid);
            let lots = lots_along(default_table(), threshold, series.push(next), pid);
            reported(
                next.alerts(history, threshold, event_json, stamps, stamp),
                "SCORE-COMPOSITE"@,
            ) <==> total(in_window(series_points(lots), next.now)) > threshold
        }),
{
    let pid = next.event.pid_of();
    let rules = default_table();
    let all = series.push(next);
    let history = history_along(rules, threshold, series, pid);
    let places = next.places(rules, history);
    let before = lots_along(rules, threshold, series, pid);
    let lots = lots_along(rules, threshold, all, pid);
    assert(all.drop_last() =~= series);
    assert(all.last() == next);
    assert(lots.drop_last() =~= before);
    assert(lots.last() == (Lot { scores: rule_scores(rules, places), at: next.now }));
    assert(in_order(series)) by {
        assert forall|i: int, j: int| 0 <= i <= j < series.len() implies (#[trigger] series[i]).now
            <= (#[trigger] series[j]).now by {
            assert(all[i] == series[i] && all[j] == series[j]);
        }
    }
    assert forall|k: int| 0 <= k < series.len() implies (#[trigger] series[k]).now <= next.now by {
        assert(all[k] == series[k] && all[series.len() as int] == next);
    }
    assert forall|k: int| 0 <= k < all.len() implies (#[trigger] all[k]).now <= next.now by {
        assert(all[k].now <= all[all.len() - 1].now);
    }
    lemma_scores_along(rules, threshold, series, pid, next.now);
    lemma_scores_along(rules, threshold, all, pid, next.now);
    law_scores_add_up(lots, threshold);
    let alerts = next.alerts(history, threshold, event_json, stamps, stamp);
    lemma_default_names();
    assert forall|k: int| 0 <= k < places.len() implies alerts[k].rule_id
        != "SCORE-COMPOSITE"@ by {
        law_every_rule_is_tried(
            rules,
            next.event,
            signals_of(history, next.event, next.ld_preload, next.now),
            next.orders,
            places[k],
        );
        assert(places.contains(places[k]));
        assert(alerts[k].rule_id == rules[places[k]].id);
    }
    if alerts.len() > places.len() {
        assert(alerts[places.len() as int].rule_id == "SCORE-COMPOSITE"@);
    }
}

} // verus!
