//! What the dashboard shows is what the database says.

use super::tui::{
    alert_spans, critical_percentage, extended, gauge_colour, gauge_text, growth, key_action,
    refresh_is_due, refreshed, AlertSpans, Colour, Dashboard, KeyAction,
};
use crate::common::{Alert, Severity};
use crate::number::{decimal, signed_decimal};
use crate::storage::DbStats;
use crate::text::truncated;
use vstd::prelude::*;

verus! {

/// The number of new events is what was added since the last count, and never negative: a count
/// and the new events make the next count, as long as the counts do not go down.
pub proof fn law_growth_makes_up_the_difference(before: i64, now: i64)
    ensures
        now >= before ==> before + growth(Some(before), now) == now,
        now <= before ==> growth(Some(before), now) == 0,
        growth(None, now) == 0,
{
}

/// One more number goes to the end of the history; a full history loses its oldest one.
pub proof fn law_history_moves_on(history: Seq<u64>, n: u64)
    ensures
        history.len() == 60 ==> extended(history, n) == history.skip(1).push(n),
        history.len() < 60 ==> extended(history, n) == history.push(n),
{
    if history.len() == 60 {
        assert(extended(history, n) =~= history.skip(1).push(n));
    }
}

/// The share is the largest whole number of per cents that the gravest alerts make up: so many
/// hundredths of all alerts are no more than the gravest ones, and one hundredth more would be.
pub proof fn law_share_of_the_gravest(critical: i64, total: i64, percentage: u16)
    requires
        call_ensures(critical_percentage, (critical, total), percentage),
        0 <= critical <= total,
        critical * 100 <= i64::MAX,
    ensures
        total > 0 ==> percentage * total <= critical * 100 < (percentage + 1) * total,
        total == 0 ==> percentage == 0,
        percentage <= 100,
{
    let p = percentage as int;
    let c = critical as int;
    let t = total as int;
    if t > 0 {
        assert(p == c * 100 / t);
        assert(p * t <= c * 100 < (p + 1) * t) by (nonlinear_arith)
            requires
                p == c * 100 / t,
                t > 0,
        ;
    }
}

/// The gauge is green up to a fifth, yellow up to a half, and red above it, and it shows the
/// number.
pub proof fn law_gauge(percentage: u16, colour: Colour, text: String)
    requires
        call_ensures(gauge_colour, (percentage,), colour),
        call_ensures(gauge_text, (percentage,), text),
    ensures
        colour == Colour::Green <==> percentage <= 20,
        colour == Colour::Yellow <==> 20 < percentage <= 50,
        colour == Colour::Red <==> percentage > 50,
        text@ == " Criticité : "@ + decimal(percentage as nat) + "%"@,
{
}

/// The dashboard is refreshed once a second has passed, and not before.
pub proof fn law_every_second(nanos: u128, due: bool)
    requires
        call_ensures(refresh_is_due, (nanos,), due),
    ensures
        due <==> nanos >= 1_000_000_000,
{
}

/// Which keys do something: one quits, another does so together with the control key, and a
/// third refreshes.
pub proof fn law_keys(key: char, control: bool, action: KeyAction)
    requires
        call_ensures(key_action, (key, control), action),
    ensures
        action == KeyAction::Quit <==> key == 'q' || (key == 'c' && control),
        action == KeyAction::Refresh <==> key == 'r',
{
}

/// The line of an alert shows its severity by colour and short name, its rule, its process and
/// its description, cut to forty bytes. No two severities look alike.
pub proof fn law_line_of_an_alert(alert: &Alert, spans: AlertSpans)
    requires
        call_ensures(alert_spans, (alert,), spans),
    ensures
        alert.severity == Severity::Critical <==> spans.colour == Colour::Red,
        alert.severity == Severity::High <==> spans.colour == Colour::Yellow,
        alert.severity == Severity::Medium <==> spans.colour == Colour::Blue,
        alert.severity == Severity::Low <==> spans.colour == Colour::Gray,
        alert.severity == Severity::Critical <==> spans.label@ == " CRIT "@,
        alert.severity == Severity::High <==> spans.label@ == " HIGH "@,
        alert.severity == Severity::Medium <==> spans.label@ == "  MED "@,
        alert.severity == Severity::Low <==> spans.label@ == "  LOW "@,
        alert.rule_id@.is_prefix_of(spans.rule@),
        spans.rule@.len() == if alert.rule_id@.len() < 6 {
            7
        } else {
            alert.rule_id@.len() + 1
        },
        ("PID:"@ + decimal(alert.pid as nat)).is_prefix_of(spans.pid@),
        decimal(alert.pid as nat).len() <= 7 ==> spans.pid@.len() == 12,
        spans.time@ == alert.timestamp.under("%H:%M:%S"@),
        spans.description@ == truncated(alert.rule_description@, 40),
{
    reveal_strlit(" ");
    reveal_strlit("PID:");
    reveal_strlit("CRIT");
    reveal_strlit("HIGH");
    reveal_strlit(" MED");
    reveal_strlit(" LOW");
    reveal_strlit(" CRIT ");
    reveal_strlit(" HIGH ");
    reveal_strlit("  MED ");
    reveal_strlit("  LOW ");
    assert(" "@ + "CRIT"@ + " "@ =~= " CRIT "@);
    assert(" "@ + "HIGH"@ + " "@ =~= " HIGH "@);
    assert(" "@ + " MED"@ + " "@ =~= "  MED "@);
    assert(" "@ + " LOW"@ + " "@ =~= "  LOW "@);
    assert(" CRIT "@[1] == 'C' && " HIGH "@[1] == 'H');
    assert("  MED "@[1] == ' ' && "  LOW "@[1] == ' ');
    assert("  MED "@[2] == 'M' && "  LOW "@[2] == 'L');
    let rule = alert.rule_id@;
    assert(rule =~= spans.rule@.subrange(0, rule.len() as int));
    let pid = "PID:"@ + decimal(alert.pid as nat);
    assert(pid =~= spans.pid@.subrange(0, pid.len() as int));
}

/// A refresh shows the counts of the database and its alerts. Two refreshes in a row show, at the
/// end of the history, by how much the number of events went up between them. What the database
/// does not say stays as it was.
pub proof fn law_two_refreshes(
    before: Dashboard,
    between: Dashboard,
    after: Dashboard,
    first: DbStats,
    second: DbStats,
    list: Vec<Alert>,
    line: String,
)
    requires
        before.well_formed(),
        refreshed(before, between, Some(first), None),
        refreshed(between, after, Some(second), Some(list)),
        first.event_count <= second.event_count,
        0 <= second.event_count - first.event_count <= i64::MAX,
        call_ensures(Dashboard::header, (&after,), line),
    ensures
        after.events_per_sec@.len() == 60,
        after.events_per_sec@.last() == second.event_count - first.event_count,
        forall|i: int|
            0 <= i < 58 ==> #[trigger] after.events_per_sec@[i] == before.events_per_sec@[i + 2],
        after.total_events == second.event_count,
        after.total_alerts == second.alert_count,
        after.critical_alerts == second.critical_count,
        after.recent_alerts == list,
        between.recent_alerts == before.recent_alerts,
        after.tick == before.tick + 2,
        line@ == " EDR Linux  ─  Événements: "@ + signed_decimal(second.event_count as int)
            + "  │  Alertes: "@ + signed_decimal(second.alert_count as int) + "  │  Critiques: "@
            + signed_decimal(second.critical_count as int) + "  │  Refresh #"@ + decimal(
            (before.tick + 2) as nat,
        ) + " "@,
{
}

/// The first refresh shows no new events, and a refresh without an answer shows what was there.
pub proof fn law_first_refresh(
    before: Dashboard,
    after: Dashboard,
    stats: Option<DbStats>,
)
    requires
        before.well_formed(),
        refreshed(before, after, stats, None),
    ensures
        stats is Some && before.last_event_count is None ==> after.events_per_sec@.last() == 0,
        stats is None ==> after.events_per_sec@ == before.events_per_sec@ && after.total_events
            == before.total_events && after.total_alerts == before.total_alerts
            && after.critical_alerts == before.critical_alerts && after.last_event_count
            == before.last_event_count,
        after.recent_alerts == before.recent_alerts,
{
}

} // verus!
