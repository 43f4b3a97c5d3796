//! What holds of every run, whatever its surroundings answer.
//!
//! A history is the sequence of events that a run has been told, oldest
//! first. The statements about the order of the reports hold of every
//! history. Those about the database hold of the histories in which every
//! event is an answer of the `Ledger` to the action that was pending.

use crate::ledger::Ledger;
use crate::protocol::{skip_cause, ActionView, Direction, EventView, Failure, Outcome, ReportView};
use crate::run::{Phase, RunState};
use crate::statements::statements_of;
use vstd::prelude::*;

verus! {

/// The run after the events of `events`, in order.
pub open spec fn run_after(s: RunState, events: Seq<EventView>) -> RunState
    decreases events.len(),
{
    if events.len() == 0 {
        s
    } else {
        run_after(s, events.drop_last()).advance(events.last())
    }
}

/// The database after it has answered the run's actions with `events`.
pub open spec fn ledger_after(s: RunState, db: Ledger, events: Seq<EventView>) -> Ledger
    decreases events.len(),
{
    if events.len() == 0 {
        db
    } else {
        let before = events.drop_last();
        ledger_after(s, db, before).after(run_after(s, before).pending(), events.last())
    }
}

/// Whether each event is an answer of the database to the action that was
/// pending when it came.
pub open spec fn faithful(s: RunState, db: Ledger, events: Seq<EventView>) -> bool
    decreases events.len(),
{
    events.len() == 0 || {
        let before = events.drop_last();
        &&& faithful(s, db, before)
        &&& ledger_after(s, db, before).answers(run_after(s, before).pending(), events.last())
    }
}

/// The applied units once `unit` has gone through in `direction`.
pub open spec fn recorded(direction: Direction, applied: Set<Seq<char>>, unit: Seq<char>) -> Set<
    Seq<char>,
> {
    match direction {
        Direction::Apply => applied.insert(unit),
        Direction::Revert => applied.remove(unit),
    }
}

/// Whether `events` takes a run from the start of a unit to the moment at
/// which that unit's report has just been acknowledged.
pub open spec fn completes_unit(s: RunState, events: Seq<EventView>) -> bool {
    &&& s.phase == Phase::Script
    &&& events.len() > 0
    &&& run_after(s, events.drop_last()).phase == Phase::Report
    &&& run_after(s, events.drop_last()).reports.len() == s.reports.len()
}

/// The report of the unit that `events` completes.
pub open spec fn unit_report(s: RunState, events: Seq<EventView>) -> ReportView
    recommends
        completes_unit(s, events),
{
    run_after(s, events.drop_last()).report()
}

/// A history never changes the direction or the units of a run, keeps it
/// well-formed, and only adds to its reports.
pub proof fn lemma_run_after_keeps(s: RunState, events: Seq<EventView>)
    requires
        s.wf(),
    ensures
        run_after(s, events).wf(),
        run_after(s, events).direction == s.direction,
        run_after(s, events).units == s.units,
        s.reports.len() <= run_after(s, events).reports.len(),
        run_after(s, events).reports.take(s.reports.len() as int) == s.reports,
    decreases events.len(),
{
    if events.len() == 0 {
        assert(s.reports.take(s.reports.len() as int) =~= s.reports);
    } else {
        let before = run_after(s, events.drop_last());
        lemma_run_after_keeps(s, events.drop_last());
        let next = before.advance(events.last());
        assert(next.reports.take(s.reports.len() as int) =~= before.reports.take(
            s.reports.len() as int,
        ));
    }
}

/// What is reported of a unit that is not eligible: that it was skipped,
/// unless its script or its applied state could not be read.
pub open spec fn settled_early(
    direction: Direction,
    unit: Seq<char>,
    first: EventView,
    s: RunState,
) -> bool {
    if !(first is Script) {
        s.outcome == Outcome::Failed(Failure::Load)
    } else if s.outcome == Outcome::Skipped {
        s.cause == skip_cause(direction, unit)
    } else {
        s.outcome == Outcome::Failed(Failure::Query)
    }
}

/// What holds between the start of a unit, `s0` with `db0`, and any later
/// moment of the same unit, `s` with `db`, given the first answer.
spec fn unit_inv(s0: RunState, db0: Ledger, first: EventView, s: RunState, db: Ledger) -> bool {
    let done = s.phase == Phase::Report && s.outcome == Outcome::Done;
    let eligible = s0.eligible(db0.applied.contains(s0.unit()));
    &&& s.wf()
    &&& s.direction == s0.direction
    &&& s.units == s0.units
    &&& s.reports == s0.reports
    &&& match first {
        EventView::Script(text) => s.statements == statements_of(text),
        _ => s.phase == Phase::Report && s.outcome == Outcome::Failed(Failure::Load),
    }
    &&& if done {
        &&& db.applied == recorded(s0.direction, db0.applied, s0.unit())
        &&& db.effects == db0.effects + s.statements
    } else {
        &&& db.applied == db0.applied
        &&& db.effects == db0.effects
    }
    &&& match s.phase {
        Phase::Exists => true,
        Phase::Report => eligible || settled_early(s0.direction, s0.unit(), first, s),
        _ => eligible,
    }
    &&& match s.phase {
        Phase::Exists | Phase::Begin | Phase::Report => db.open is None,
        Phase::Statement => {
            &&& db.open is Some
            &&& db.open->0.applied == db0.applied
            &&& db.open->0.effects == db0.effects + s.statements.take(s.cursor as int)
        },
        Phase::Record => {
            &&& db.open is Some
            &&& db.open->0.applied == db0.applied
            &&& db.open->0.effects == db0.effects + s.statements
        },
        Phase::Commit => {
            &&& db.open is Some
            &&& db.open->0.applied == recorded(s0.direction, db0.applied, s0.unit())
            &&& db.open->0.effects == db0.effects + s.statements
        },
        Phase::Abandon => s.outcome is Failed,
        _ => false,
    }
}

proof fn lemma_unit_inv_first(s0: RunState, db0: Ledger, first: EventView)
    requires
        s0.wf(),
        s0.phase == Phase::Script,
        db0.open is None,
        db0.answers(s0.pending(), first),
    ensures
        unit_inv(s0, db0, first, s0.advance(first), db0.after(s0.pending(), first)),
{
}

proof fn lemma_unit_inv_step(
    s0: RunState,
    db0: Ledger,
    first: EventView,
    s: RunState,
    db: Ledger,
    event: EventView,
)
    requires
        s0.wf(),
        unit_inv(s0, db0, first, s, db),
        db.answers(s.pending(), event),
        s.phase != Phase::Report,
    ensures
        unit_inv(s0, db0, first, s.advance(event), db.after(s.pending(), event)),
{
    let next = s.advance(event);
    let then = db.after(s.pending(), event);
    match s.phase {
        Phase::Begin => {
            if event is Done {
                assert(s.statements.take(0) =~= Seq::<Seq<char>>::empty());
                assert(db0.effects + s.statements.take(0) =~= db0.effects);
                if s.statements.len() == 0 {
                    assert(db0.effects + s.statements =~= db0.effects);
                }
            }
        },
        Phase::Statement => {
            if event is Done {
                let k = s.cursor as int;
                assert(s.statements.take(k + 1) =~= s.statements.take(k).push(s.statements[k]));
                assert((db0.effects + s.statements.take(k)).push(s.statements[k]) =~= db0.effects
                    + s.statements.take(k + 1));
                if !(s.cursor + 1 < s.statements.len()) {
                    assert(s.statements.take(k + 1) =~= s.statements);
                }
            }
        },
        _ => {},
    }
}

/// A history in two parts is the first part and then the second.
pub proof fn lemma_run_after_split(s: RunState, events: Seq<EventView>, k: int)
    requires
        0 <= k <= events.len(),
    ensures
        run_after(s, events) == run_after(run_after(s, events.take(k)), events.skip(k)),
    decreases events.len(),
{
    if k == events.len() {
        assert(events.take(k) =~= events);
    } else {
        let before = events.drop_last();
        lemma_run_after_split(s, before, k);
        assert(before.take(k) =~= events.take(k));
        assert(events.skip(k).drop_last() =~= before.skip(k));
    }
}

/// The start of a faithful history is faithful.
pub proof fn lemma_faithful_prefix(s: RunState, db: Ledger, events: Seq<EventView>, k: int)
    requires
        0 <= k <= events.len(),
        faithful(s, db, events),
    ensures
        faithful(s, db, events.take(k)),
    decreases events.len(),
{
    if k == events.len() {
        assert(events.take(k) =~= events);
    } else {
        lemma_faithful_prefix(s, db, events.drop_last(), k);
        assert(events.drop_last().take(k) =~= events.take(k));
    }
}

proof fn lemma_unit_inv_holds(s0: RunState, db0: Ledger, events: Seq<EventView>)
    requires
        s0.wf(),
        s0.phase == Phase::Script,
        db0.open is None,
        faithful(s0, db0, events),
        events.len() > 0,
        run_after(s0, events).reports.len() == s0.reports.len(),
    ensures
        unit_inv(s0, db0, events[0], run_after(s0, events), ledger_after(s0, db0, events)),
    decreases events.len(),
{
    let before = events.drop_last();
    if before.len() == 0 {
        assert(events.last() == events[0]);
        lemma_unit_inv_first(s0, db0, events[0]);
    } else {
        lemma_run_after_keeps(s0, before);
        let s1 = run_after(s0, before);
        assert(s1.reports.len() <= s1.advance(events.last()).reports.len());
        lemma_unit_inv_holds(s0, db0, before);
        assert(before[0] == events[0]);
        lemma_unit_inv_step(
            s0,
            db0,
            events[0],
            s1,
            ledger_after(s0, db0, before),
            events.last(),
        );
    }
}

/// The script that a unit's first answer brought.
pub open spec fn script_of(first: EventView) -> Seq<char> {
    match first {
        EventView::Script(text) => text,
        _ => Seq::empty(),
    }
}

/// A unit goes through whole or not at all. Where its report says that it
/// is done, the unit was eligible, every statement of its script has taken
/// effect, in order, and the applied state has changed with them. Where the
/// report says anything else, the database is as it was before the unit:
/// no statement of the script has left an effect and the applied state is
/// unchanged. Either way no transaction stays open, and the run stands at
/// the next unit.
pub proof fn lemma_unit_is_atomic(s: RunState, db: Ledger, events: Seq<EventView>)
    requires
        s.wf(),
        db.open is None,
        completes_unit(s, events),
        faithful(s, db, events),
    ensures
        run_after(s, events) == s.at_unit(s.reports.push(unit_report(s, events))),
        unit_report(s, events).unit == s.unit(),
        ledger_after(s, db, events).open is None,
        unit_report(s, events).outcome == Outcome::Done ==> {
            &&& s.eligible(db.applied.contains(s.unit()))
            &&& events[0] is Script
            &&& ledger_after(s, db, events).applied == recorded(s.direction, db.applied, s.unit())
            &&& ledger_after(s, db, events).effects == db.effects + statements_of(
                script_of(events[0]),
            )
        },
        unit_report(s, events).outcome != Outcome::Done ==> {
            &&& ledger_after(s, db, events).applied == db.applied
            &&& ledger_after(s, db, events).effects == db.effects
        },
{
    let before = events.drop_last();
    lemma_run_after_keeps(s, before);
    if before.len() > 0 {
        lemma_faithful_prefix(s, db, events, events.len() - 1);
        assert(events.take(events.len() - 1) =~= before);
        lemma_unit_inv_holds(s, db, before);
        assert(before[0] == events[0]);
    }
}

/// A statement that fails ends its unit as failed at that statement: the
/// transaction is given up next, and then the operator is told, with the
/// reason that the failure gave. No further statement is executed, nothing
/// is recorded and nothing is committed.
pub proof fn lemma_failed_statement_gives_up(s: RunState, event: EventView, given_up: EventView)
    requires
        s.wf(),
        s.phase == Phase::Statement,
        !(event is Done),
    ensures
        s.advance(event).pending() == ActionView::Abandon,
        s.advance(event).advance(given_up).pending() == ActionView::Report(
            ReportView {
                unit: s.unit(),
                outcome: Outcome::Failed(Failure::Statement),
                cause: event.cause(),
            },
        ),
{
}

/// A unit is recorded only where no row stands in the way. When a run asks
/// for the record of a unit, a transaction is open and does not hold the
/// unit; when it asks for the record to be removed, a transaction is open
/// and holds it.
pub proof fn lemma_record_meets_no_row(s: RunState, db: Ledger, events: Seq<EventView>)
    requires
        s.wf(),
        s.phase == Phase::Script,
        db.open is None,
        faithful(s, db, events),
        run_after(s, events).reports.len() == s.reports.len(),
        run_after(s, events).phase == Phase::Record,
    ensures
        ledger_after(s, db, events).open is Some,
        ledger_after(s, db, events).open->0.applied.contains(s.unit()) == (s.direction
            == Direction::Revert),
{
    lemma_unit_inv_holds(s, db, events);
}

/// A unit that is not eligible is left alone: already applied when
/// applying, not applied when reverting. Nothing is asked of the database
/// but the unit's applied state, the database stays as it was, and the unit
/// is reported as skipped, unless its script or its applied state could not
/// be read.
pub proof fn lemma_ineligible_unit_is_skipped(s: RunState, db: Ledger, events: Seq<EventView>)
    requires
        s.wf(),
        db.open is None,
        completes_unit(s, events),
        faithful(s, db, events),
        !s.eligible(db.applied.contains(s.unit())),
    ensures
        forall|k: int|
            0 <= k < events.len() ==> {
                let action = #[trigger] run_after(s, events.take(k)).pending();
                action is LoadScript || action is QueryExists || action is Report
            },
        unit_report(s, events).outcome != Outcome::Done,
        events[0] is Script ==> unit_report(s, events).outcome == Outcome::Skipped
            || unit_report(s, events).outcome == Outcome::Failed(Failure::Query),
        unit_report(s, events).outcome == Outcome::Skipped ==> unit_report(s, events).cause
            == skip_cause(s.direction, s.unit()),
        ledger_after(s, db, events).applied == db.applied,
        ledger_after(s, db, events).effects == db.effects,
{
    lemma_unit_is_atomic(s, db, events);
    let before = events.drop_last();
    if before.len() > 0 {
        lemma_faithful_prefix(s, db, events, events.len() - 1);
        assert(events.take(events.len() - 1) =~= before);
        lemma_unit_inv_holds(s, db, before);
        assert(before[0] == events[0]);
    }
    assert forall|k: int| 0 <= k < events.len() implies {
        let action = #[trigger] run_after(s, events.take(k)).pending();
        action is LoadScript || action is QueryExists || action is Report
    } by {
        let part = events.take(k);
        if k > 0 {
            lemma_faithful_prefix(s, db, events, k);
            lemma_run_after_keeps(s, part);
            assert(before.take(k) =~= part);
            lemma_run_after_split(s, before, k);
            lemma_run_after_keeps(run_after(s, part), before.skip(k));
            lemma_unit_inv_holds(s, db, part);
        }
    }
}

/// Applying a unit twice. The first time it goes through, so it is then
/// recorded as applied. The second time, on a database with that applied
/// state, it does not go through again: the applied state and the effects
/// stay as the first time left them.
pub proof fn lemma_apply_twice(
    s1: RunState,
    db1: Ledger,
    events1: Seq<EventView>,
    s2: RunState,
    db2: Ledger,
    events2: Seq<EventView>,
)
    requires
        s1.wf(),
        s1.direction == Direction::Apply,
        db1.open is None,
        completes_unit(s1, events1),
        faithful(s1, db1, events1),
        unit_report(s1, events1).outcome == Outcome::Done,
        s2.wf(),
        s2.direction == Direction::Apply,
        s2.unit() == s1.unit(),
        db2 == ledger_after(s1, db1, events1),
        completes_unit(s2, events2),
        faithful(s2, db2, events2),
    ensures
        db2.applied.contains(s1.unit()),
        unit_report(s2, events2).outcome != Outcome::Done,
        events2[0] is Script ==> unit_report(s2, events2).outcome == Outcome::Skipped
            || unit_report(s2, events2).outcome == Outcome::Failed(Failure::Query),
        ledger_after(s2, db2, events2).applied == db2.applied,
        ledger_after(s2, db2, events2).effects == db2.effects,
{
    lemma_unit_is_atomic(s1, db1, events1);
    lemma_ineligible_unit_is_skipped(s2, db2, events2);
}

/// Applying a unit and then reverting it, both going through, leaves the
/// unit not recorded as applied.
pub proof fn lemma_round_trip(
    s1: RunState,
    db1: Ledger,
    events1: Seq<EventView>,
    s2: RunState,
    db2: Ledger,
    events2: Seq<EventView>,
)
    requires
        s1.wf(),
        s1.direction == Direction::Apply,
        db1.open is None,
        completes_unit(s1, events1),
        faithful(s1, db1, events1),
        unit_report(s1, events1).outcome == Outcome::Done,
        s2.wf(),
        s2.direction == Direction::Revert,
        s2.unit() == s1.unit(),
        db2 == ledger_after(s1, db1, events1),
        completes_unit(s2, events2),
        faithful(s2, db2, events2),
        unit_report(s2, events2).outcome == Outcome::Done,
    ensures
        db2.applied.contains(s1.unit()),
        !ledger_after(s2, db2, events2).applied.contains(s1.unit()),
        ledger_after(s2, db2, events2).applied == db1.applied,
{
    lemma_unit_is_atomic(s1, db1, events1);
    lemma_unit_is_atomic(s2, db2, events2);
    assert(db1.applied.insert(s1.unit()).remove(s1.unit()) =~= db1.applied);
}

/// The reports of a run follow its units: whatever the run has been told,
/// its reports are of the first units, one each and in their order, and a
/// run that has finished has reported every unit.
pub proof fn lemma_reports_follow_units(
    direction: Direction,
    units: Seq<Seq<char>>,
    events: Seq<EventView>,
)
    ensures
        ({
            let s = run_after(RunState::start(direction, units), events);
            &&& s.units == units
            &&& s.reports.len() <= units.len()
            &&& forall|j: int| 0 <= j < s.reports.len() ==> (#[trigger] s.reports[j]).unit == units[j]
            &&& s.phase == Phase::Finished ==> s.reports.len() == units.len()
        }),
{
    lemma_run_after_keeps(RunState::start(direction, units), events);
}

/// No outcome stops a run. Once a unit's report is acknowledged the run
/// asks for the script of the unit after it, or finishes if there is none,
/// whatever the report says.
pub proof fn lemma_next_unit_is_attempted(s: RunState, event: EventView)
    requires
        s.wf(),
        s.phase == Phase::Report,
    ensures
        s.advance(event).reports == s.reports.push(s.report()),
        s.reports.len() + 1 < s.units.len() ==> s.advance(event).pending()
            == (ActionView::LoadScript {
            unit: s.units[s.reports.len() as int + 1],
            direction: s.direction,
        }),
        s.reports.len() + 1 == s.units.len() ==> s.advance(event).pending() == ActionView::Finish,
{
}

/// What becomes of a unit does not depend on the units before it. Two runs
/// that differ in nothing but what their reports so far say go the same way
/// on the same events, and add the same reports.
pub proof fn lemma_units_are_independent(s1: RunState, s2: RunState, events: Seq<EventView>)
    requires
        s1.wf(),
        s2.wf(),
        s1.reports.len() == s2.reports.len(),
        s2 == (RunState { reports: s2.reports, ..s1 }),
    ensures
        ({
            let e1 = run_after(s1, events);
            let e2 = run_after(s2, events);
            &&& e2 == (RunState { reports: e2.reports, ..e1 })
            &&& e1.reports.len() == e2.reports.len()
            &&& e1.reports.skip(s1.reports.len() as int) == e2.reports.skip(
                s2.reports.len() as int,
            )
        }),
    decreases events.len(),
{
    let n = s1.reports.len() as int;
    if events.len() == 0 {
        assert(s1.reports.skip(n) =~= s2.reports.skip(n));
    } else {
        let before = events.drop_last();
        lemma_units_are_independent(s1, s2, before);
        lemma_run_after_keeps(s1, before);
        lemma_run_after_keeps(s2, before);
        let b1 = run_after(s1, before);
        let b2 = run_after(s2, before);
        let e1 = b1.advance(events.last());
        let e2 = b2.advance(events.last());
        if b1.phase == Phase::Report {
            assert(e1.reports.skip(n) =~= b1.reports.skip(n).push(b1.report()));
            assert(e2.reports.skip(n) =~= b2.reports.skip(n).push(b2.report()));
        }
    }
}

/// How far a run is from its end: the units not yet reported, then the
/// steps of the current unit that may still come, then the statements that
/// are still to be executed.
pub open spec fn work_left(s: RunState) -> (nat, nat, nat) {
    let units = (s.units.len() - s.reports.len()) as nat;
    match s.phase {
        Phase::Schema => (units, 8, 0),
        Phase::Script => (units, 7, 0),
        Phase::Exists => (units, 6, 0),
        Phase::Begin => (units, 5, 0),
        Phase::Statement => (units, 4, (s.statements.len() - s.cursor) as nat),
        Phase::Record => (units, 3, 0),
        Phase::Commit => (units, 2, 0),
        Phase::Abandon => (units, 1, 0),
        Phase::Report => (units, 0, 0),
        Phase::Finished | Phase::Aborted => (0, 0, 0),
    }
}

/// Whether `a` comes before `b`, reading the first component first.
pub open spec fn less(a: (nat, nat, nat), b: (nat, nat, nat)) -> bool {
    a.0 < b.0 || (a.0 == b.0 && (a.1 < b.1 || (a.1 == b.1 && a.2 < b.2)))
}

/// Every answer brings a run closer to its end, so no run goes on for ever:
/// it has ended, or has less work left than before.
pub proof fn lemma_advance_makes_progress(s: RunState, event: EventView)
    requires
        s.wf(),
        !s.ended(),
    ensures
        s.advance(event).ended() || less(work_left(s.advance(event)), work_left(s)),
{
}

} // verus!
