//! What the statements of the storage ask of its tables: which rows a question for alerts finds,
//! and which rows go when old events are deleted. The statements are run by SQLite; that it runs
//! them so is not proved here.

use crate::common::AlertView;
use crate::storage::{
    capped, floor_rank, labels_asked, law_severity_filter, reads_back, row_of,
    AlertRowView,
};
use crate::text::lowercase;
use vstd::prelude::*;

verus! {

/// A stored alert, with its number.
pub struct StoredAlert {
    pub id: i64,
    pub row: AlertRowView,
}

/// A stored event, with its number and the second at which it was stored.
pub struct StoredEvent {
    pub id: i64,
    pub event_type: Seq<char>,
    pub pid: u32,
    pub timestamp: Seq<char>,
    pub data_json: Seq<char>,
    pub created: int,
}

/// The alerts and the events that are stored, in the order in which they were.
pub struct Tables {
    pub alerts: Seq<StoredAlert>,
    pub events: Seq<StoredEvent>,
}

/// A row passes the filters of a question: its severity is one of the labels, if only some are
/// asked for, and it is young enough.
pub open spec fn passes(
    row: AlertRowView,
    labels: Option<Seq<Seq<char>>>,
    young: spec_fn(AlertRowView) -> bool,
) -> bool {
    &&& match labels {
        Some(list) => list.contains(row.severity),
        None => true,
    }
    &&& young(row)
}

/// The rows that pass the filters of a question.
pub open spec fn matching(
    alerts: Seq<StoredAlert>,
    labels: Option<Seq<Seq<char>>>,
    young: spec_fn(AlertRowView) -> bool,
) -> Seq<StoredAlert> {
    alerts.filter(|a: StoredAlert| passes(a.row, labels, young))
}

/// The last rows of a list, the last of them first, and at most `limit` of them.
pub open spec fn newest(rows: Seq<StoredAlert>, limit: nat) -> Seq<StoredAlert> {
    rows.reverse().take(
        if limit < rows.len() {
            limit as int
        } else {
            rows.len() as int
        },
    )
}

/// No filter by age.
pub open spec fn any_age() -> spec_fn(AlertRowView) -> bool {
    |row: AlertRowView| true
}

/// The event was stored more than `days` days before `now`.
pub open spec fn is_old(event: StoredEvent, days: u32, now: int) -> bool {
    event.created < now - 86_400 * days
}

impl Tables {
    /// The numbers of the alerts go up in the order in which they were stored.
    pub open spec fn numbered(self) -> bool {
        forall|i: int, j: int|
            0 <= i < j < self.alerts.len() ==> (#[trigger] self.alerts[i]).id < (
            #[trigger] self.alerts[j]).id
    }

    /// The tables after an alert was stored under the given number.
    pub open spec fn with_alert(self, id: i64, alert: AlertView) -> Tables {
        Tables { alerts: self.alerts.push(StoredAlert { id, row: row_of(alert) }), ..self }
    }

    /// The tables after a question for alerts, and the rows that it finds.
    pub open spec fn asked(
        self,
        labels: Option<Seq<Seq<char>>>,
        young: spec_fn(AlertRowView) -> bool,
        limit: nat,
    ) -> (Tables, Seq<StoredAlert>) {
        (self, newest(matching(self.alerts, labels, young), limit))
    }

    /// The tables after the events were deleted that are older than `days` days, and how many
    /// these were.
    pub open spec fn rotated(self, days: u32, now: int) -> (Tables, nat) {
        (
            Tables { events: self.events.filter(|e: StoredEvent| !is_old(e, days, now)), ..self },
            self.events.filter(|e: StoredEvent| is_old(e, days, now)).len(),
        )
    }

    /// The rows are those of the given alerts.
    pub open spec fn hold(self, inserted: Seq<AlertView>) -> bool {
        &&& self.alerts.len() == inserted.len()
        &&& forall|i: int|
            0 <= i < inserted.len() ==> (#[trigger] self.alerts[i]).row == row_of(inserted[i])
    }

    /// The row is that of a stored alert whose severity has at least the given rank.
    pub open spec fn grave_row(self, inserted: Seq<AlertView>, floor: int, row: StoredAlert) -> bool {
        exists|i: int|
            0 <= i < inserted.len() && #[trigger] self.alerts[i] == row
                && inserted[i].severity.rank() >= floor
    }

    /// The alert is one of those that were stored, with its number.
    pub open spec fn was_stored(self, inserted: Seq<AlertView>, alert: AlertView) -> bool {
        exists|i: int|
            0 <= i < inserted.len() && alert == (AlertView {
                id: Some((#[trigger] self.alerts[i]).id),
                ..inserted[i]
            })
    }
}

/// An alert that is stored under a number above the others keeps the numbers in order.
pub proof fn law_storing_keeps_order(
    tables: Tables,
    inserted: Seq<AlertView>,
    id: i64,
    alert: AlertView,
)
    requires
        tables.numbered(),
        tables.hold(inserted),
        forall|i: int| 0 <= i < tables.alerts.len() ==> (#[trigger] tables.alerts[i]).id < id,
    ensures
        tables.with_alert(id, alert).numbered(),
        tables.with_alert(id, alert).hold(inserted.push(alert)),
        tables.with_alert(id, alert).events == tables.events,
{
}

/// The rank of the least severity that is asked for.
pub open spec fn floor_asked(min_severity: Option<Seq<char>>) -> int {
    match min_severity {
        Some(min) => floor_rank(lowercase(min)),
        None => 0,
    }
}

/// The alerts that are at least as grave as asked for.
pub open spec fn grave_enough(inserted: Seq<AlertView>, min_severity: Option<Seq<char>>) -> Seq<
    AlertView,
> {
    inserted.filter(|a: AlertView| a.severity.rank() >= floor_asked(min_severity))
}

/// A stored alert passes the filter by severity if and only if it is grave enough.
proof fn lemma_passes(alert: AlertView, min_severity: Option<Seq<char>>)
    ensures
        passes(row_of(alert), labels_asked(min_severity), any_age()) <==> alert.severity.rank()
            >= floor_asked(min_severity),
{
    if let Some(min) = min_severity {
        law_severity_filter(lowercase(min), alert.severity);
    }
}

/// What passes the filters are rows of the table, in their order.
proof fn lemma_matching(
    tables: Tables,
    labels: Option<Seq<Seq<char>>>,
    young: spec_fn(AlertRowView) -> bool,
)
    requires
        tables.numbered(),
    ensures
        ({
            let rows = matching(tables.alerts, labels, young);
            &&& forall|i: int, j: int|
                0 <= i < j < rows.len() ==> (#[trigger] rows[i]).id < (#[trigger] rows[j]).id
            &&& forall|k: int|
                0 <= k < rows.len() ==> passes((#[trigger] rows[k]).row, labels, young)
                    && tables.alerts.contains(rows[k])
            &&& forall|i: int|
                0 <= i < tables.alerts.len() && passes(
                    (#[trigger] tables.alerts[i]).row,
                    labels,
                    young,
                ) ==> rows.contains(tables.alerts[i])
        }),
    decreases tables.alerts.len(),
{
    let test = |a: StoredAlert| passes(a.row, labels, young);
    let rows = matching(tables.alerts, labels, young);
    reveal(Seq::filter);
    if tables.alerts.len() > 0 {
        let front = Tables { alerts: tables.alerts.drop_last(), ..tables };
        let last = tables.alerts[tables.alerts.len() - 1];
        assert(front.numbered()) by {
            assert forall|i: int, j: int| 0 <= i < j < front.alerts.len() implies (
            #[trigger] front.alerts[i]).id < (#[trigger] front.alerts[j]).id by {
                assert(tables.alerts[i].id < tables.alerts[j].id);
            }
        }
        lemma_matching(front, labels, young);
        let before = matching(front.alerts, labels, young);
        assert forall|k: int| 0 <= k < before.len() implies (#[trigger] before[k]).id < last.id
            && tables.alerts.contains(before[k]) by {
            let i = choose|i: int| 0 <= i < front.alerts.len() && front.alerts[i] == before[k];
            assert(tables.alerts[i] == before[k]);
            assert(tables.alerts[i].id < tables.alerts[tables.alerts.len() - 1].id);
        }
        assert forall|k: int| 0 <= k < rows.len() implies passes(
            (#[trigger] rows[k]).row,
            labels,
            young,
        ) && tables.alerts.contains(rows[k]) by {
            if k < before.len() {
                assert(rows[k] == before[k]);
            } else {
                assert(rows[k] == tables.alerts[tables.alerts.len() - 1]);
            }
        }
        assert forall|i: int|
            0 <= i < tables.alerts.len() && passes(
                (#[trigger] tables.alerts[i]).row,
                labels,
                young,
            ) implies rows.contains(tables.alerts[i]) by {
            if i < front.alerts.len() {
                assert(front.alerts[i] == tables.alerts[i]);
                assert(before.contains(front.alerts[i]));
                let k = choose|k: int| 0 <= k < before.len() && before[k] == tables.alerts[i];
                assert(rows[k] == tables.alerts[i]);
            } else {
                assert(rows[rows.len() - 1] == tables.alerts[i]);
            }
        }
        assert forall|i: int, j: int| 0 <= i < j < rows.len() implies (#[trigger] rows[i]).id < (
        #[trigger] rows[j]).id by {
            assert(rows[i] == before[i]);
            if j < before.len() {
                assert(rows[j] == before[j]);
            }
        }
    }
}

/// A question for alerts changes nothing, so that it finds the same when it is asked again. It
/// finds rows that pass its filters, as many as there are but no more than the limit, from the
/// largest number down, and every such row that it leaves out has a smaller number than those
/// that it finds.
pub proof fn law_question_finds_the_newest(
    tables: Tables,
    labels: Option<Seq<Seq<char>>>,
    young: spec_fn(AlertRowView) -> bool,
    limit: nat,
)
    requires
        tables.numbered(),
    ensures
        ({
            let (after, found) = tables.asked(labels, young, limit);
            let all = matching(tables.alerts, labels, young).len();
            &&& after == tables
            &&& after.asked(labels, young, limit) == (tables, found)
            &&& found.len() == if limit < all {
                limit
            } else {
                all
            }
            &&& forall|k: int|
                0 <= k < found.len() ==> tables.alerts.contains(#[trigger] found[k]) && passes(
                    found[k].row,
                    labels,
                    young,
                )
            &&& forall|i: int, j: int|
                0 <= i < j < found.len() ==> (#[trigger] found[i]).id > (#[trigger] found[j]).id
            &&& forall|i: int, k: int|
                0 <= i < tables.alerts.len() && 0 <= k < found.len() && passes(
                    tables.alerts[i].row,
                    labels,
                    young,
                ) && !found.contains(tables.alerts[i]) ==> (#[trigger] tables.alerts[i]).id < (
                #[trigger] found[k]).id
        }),
{
    lemma_matching(tables, labels, young);
    let rows = matching(tables.alerts, labels, young);
    let found = newest(rows, limit);
    let n = found.len() as int;
    assert forall|k: int| 0 <= k < n implies (#[trigger] found[k]) == rows[rows.len() - 1 - k] by {}
    assert forall|i: int, k: int|
        0 <= i < tables.alerts.len() && 0 <= k < n && passes(tables.alerts[i].row, labels, young)
            && !found.contains(tables.alerts[i]) implies (#[trigger] tables.alerts[i]).id < (
    #[trigger] found[k]).id by {
        assert(rows.contains(tables.alerts[i]));
        let j = choose|j: int| 0 <= j < rows.len() && rows[j] == tables.alerts[i];
        if j >= rows.len() - n {
            assert(found[rows.len() - 1 - j] == tables.alerts[i]);
        }
        assert(found[k] == rows[rows.len() - 1 - k]);
    }
}

/// As many rows pass the filter by severity as alerts are grave enough.
proof fn lemma_matching_count(
    alerts: Seq<StoredAlert>,
    inserted: Seq<AlertView>,
    min_severity: Option<Seq<char>>,
)
    requires
        alerts.len() == inserted.len(),
        forall|i: int|
            0 <= i < inserted.len() ==> (#[trigger] alerts[i]).row == row_of(inserted[i]),
    ensures
        matching(alerts, labels_asked(min_severity), any_age()).len() == grave_enough(
            inserted,
            min_severity,
        ).len(),
    decreases alerts.len(),
{
    reveal(Seq::filter);
    if alerts.len() > 0 {
        let front = alerts.drop_last();
        let first = inserted.drop_last();
        assert forall|i: int| 0 <= i < first.len() implies (#[trigger] front[i]).row == row_of(
            first[i],
        ) by {
            assert(alerts[i].row == row_of(inserted[i]));
        }
        lemma_matching_count(front, first, min_severity);
        assert(alerts[alerts.len() - 1].row == row_of(inserted[inserted.len() - 1]));
        lemma_passes(inserted.last(), min_severity);
    }
}

/// The question for alerts of a least severity, whatever their age, finds the newest of those
/// stored alerts that are at least as grave: as many as there are, but no more than the limit,
/// from the largest number down. None that it leaves out has a larger number than one that it
/// finds, and nothing that is stored is changed. What is not the name of a severity asks for all
/// alerts, and so does no name.
pub proof fn law_grave_alerts_are_found(
    tables: Tables,
    inserted: Seq<AlertView>,
    min_severity: Option<Seq<char>>,
    limit: usize,
)
    requires
        tables.numbered(),
        tables.hold(inserted),
    ensures
        ({
            let (after, found) = tables.asked(
                labels_asked(min_severity),
                any_age(),
                capped(limit),
            );
            let grave = grave_enough(inserted, min_severity).len();
            let floor = floor_asked(min_severity);
            &&& after == tables
            &&& found.len() == if capped(limit) < grave {
                capped(limit)
            } else {
                grave
            }
            &&& forall|k: int|
                0 <= k < found.len() ==> tables.grave_row(inserted, floor, #[trigger] found[k])
            &&& forall|i: int, j: int|
                0 <= i < j < found.len() ==> (#[trigger] found[i]).id > (#[trigger] found[j]).id
            &&& forall|i: int, k: int|
                0 <= i < inserted.len() && 0 <= k < found.len() && inserted[i].severity.rank()
                    >= floor && !found.contains(tables.alerts[i]) ==> (
                #[trigger] tables.alerts[i]).id < (#[trigger] found[k]).id
        }),
{
    let labels = labels_asked(min_severity);
    let found = tables.asked(labels, any_age(), capped(limit)).1;
    let floor = floor_asked(min_severity);
    law_question_finds_the_newest(tables, labels, any_age(), capped(limit));
    lemma_matching_count(tables.alerts, inserted, min_severity);
    assert forall|i: int| 0 <= i < inserted.len() implies (passes(
        (#[trigger] tables.alerts[i]).row,
        labels,
        any_age(),
    ) <==> inserted[i].severity.rank() >= floor) by {
        lemma_passes(inserted[i], min_severity);
    }
    assert forall|k: int| 0 <= k < found.len() implies tables.grave_row(
        inserted,
        floor,
        #[trigger] found[k],
    ) by {
        assert(tables.alerts.contains(found[k]));
        let i = choose|i: int| 0 <= i < tables.alerts.len() && tables.alerts[i] == found[k];
        assert(passes(tables.alerts[i].row, labels, any_age()));
    }
}

/// What is read from the rows that a question finds are alerts that were stored, with their
/// numbers, where the years of their times have four digits.
pub proof fn law_found_alerts_are_read_back(
    tables: Tables,
    inserted: Seq<AlertView>,
    labels: Option<Seq<Seq<char>>>,
    young: spec_fn(AlertRowView) -> bool,
    limit: nat,
    alerts: Seq<AlertView>,
)
    requires
        tables.numbered(),
        tables.hold(inserted),
        forall|i: int| 0 <= i < inserted.len() ==> (#[trigger] inserted[i]).timestamp.reads_back(),
        ({
            let found = tables.asked(labels, young, limit).1;
            &&& alerts.len() == found.len()
            &&& forall|k: int|
                0 <= k < found.len() ==> reads_back(
                    (#[trigger] found[k]).row,
                    found[k].id,
                    alerts[k],
                )
        }),
    ensures
        forall|k: int|
            0 <= k < alerts.len() ==> tables.was_stored(inserted, #[trigger] alerts[k])
                && alerts[k].id == Some(tables.asked(labels, young, limit).1[k].id),
{
    let found = tables.asked(labels, young, limit).1;
    law_question_finds_the_newest(tables, labels, young, limit);
    assert forall|k: int| 0 <= k < alerts.len() implies tables.was_stored(
        inserted,
        #[trigger] alerts[k],
    ) && alerts[k].id == Some(found[k].id) by {
        assert(tables.alerts.contains(found[k]));
        let i = choose|i: int| 0 <= i < tables.alerts.len() && tables.alerts[i] == found[k];
        assert(found[k].row == row_of(inserted[i]));
        assert(inserted[i].timestamp.reads_back());
        assert(reads_back(found[k].row, found[k].id, alerts[k]));
    }
}

/// What passes a test and what does not make up a list together.
proof fn lemma_filter_splits(events: Seq<StoredEvent>, days: u32, now: int)
    ensures
        events.filter(|e: StoredEvent| !is_old(e, days, now)).len() + events.filter(
            |e: StoredEvent| is_old(e, days, now),
        ).len() == events.len(),
    decreases events.len(),
{
    reveal(Seq::filter);
    if events.len() > 0 {
        lemma_filter_splits(events.drop_last(), days, now);
    }
}

/// A list without old events loses none.
proof fn lemma_none_old(events: Seq<StoredEvent>, days: u32, now: int)
    requires
        forall|i: int| 0 <= i < events.len() ==> !is_old(#[trigger] events[i], days, now),
    ensures
        events.filter(|e: StoredEvent| !is_old(e, days, now)) == events,
        events.filter(|e: StoredEvent| is_old(e, days, now)).len() == 0,
    decreases events.len(),
{
    reveal(Seq::filter);
    if events.len() > 0 {
        let front = events.drop_last();
        assert forall|i: int| 0 <= i < front.len() implies !is_old(
            #[trigger] front[i],
            days,
            now,
        ) by {
            assert(!is_old(events[i], days, now));
        }
        lemma_none_old(front, days, now);
        assert(!is_old(events[events.len() - 1], days, now));
        assert(front.push(events.last()) =~= events);
    }
}

/// Exactly the events that were stored more than `days` days ago are deleted, their number is
/// given, and there are so many fewer; the other events and the alerts stay as they are. At the
/// same time a second deletion finds nothing more.
pub proof fn law_old_events_go(tables: Tables, days: u32, now: int)
    ensures
        ({
            let (after, gone) = tables.rotated(days, now);
            &&& after.alerts == tables.alerts
            &&& after.events.len() == tables.events.len() - gone
            &&& forall|e: StoredEvent| #[trigger]
                after.events.contains(e) <==> tables.events.contains(e) && !is_old(e, days, now)
            &&& after.rotated(days, now) == (after, 0nat)
        }),
{
    let keep = |e: StoredEvent| !is_old(e, days, now);
    let after = tables.rotated(days, now).0;
    lemma_filter_splits(tables.events, days, now);
    tables.events.filter_lemma(keep);
    assert forall|i: int| 0 <= i < after.events.len() implies !is_old(
        #[trigger] after.events[i],
        days,
        now,
    ) by {
        assert(keep(tables.events.filter(keep)[i]));
    }
    lemma_none_old(after.events, days, now);
    assert forall|e: StoredEvent| #[trigger]
        after.events.contains(e) <==> tables.events.contains(e) && !is_old(e, days, now) by {
        if after.events.contains(e) {
            let i = choose|i: int| 0 <= i < after.events.len() && after.events[i] == e;
            tables.events.lemma_filter_contains_rev(keep, e);
        }
        if tables.events.contains(e) && !is_old(e, days, now) {
            let i = choose|i: int| 0 <= i < tables.events.len() && tables.events[i] == e;
            assert(keep(tables.events[i]));
        }
    }
}

} // verus!
