//! One run over an ordered list of units, in one direction.
//!
//! A run decides; it does no work of its own. At every moment it waits for
//! the answer to one `Action`. `Run::action` names that action, and
//! `Run::advance` takes the answer and moves on. Each unit has a transaction
//! of its own, so a unit that fails takes nothing with it and the units after
//! it are attempted all the same.

use crate::protocol::{
    skip_cause, skip_message, Action, ActionView, Direction, Event, EventView, Failure, Outcome,
    Report, ReportView,
};
use crate::statements::{split_statements, statements_of};
use crate::text::texts;
use vstd::prelude::*;

verus! {

/// What a run is waiting for.
#[derive(Clone, Copy, Debug, PartialEq, Eq, Structural)]
pub enum Phase {
    /// For the tracking table to be there.
    Schema,
    /// For the script of the current unit.
    Script,
    /// For the applied state of the current unit.
    Exists,
    /// For a transaction to be open.
    Begin,
    /// For the outcome of the statement under the cursor.
    Statement,
    /// For the applied state to be updated.
    Record,
    /// For the transaction to be committed.
    Commit,
    /// For the failed transaction to be given up.
    Abandon,
    /// For the operator to be told of the current unit.
    Report,
    /// For nothing: every unit has been reported.
    Finished,
    /// For nothing: the tracking table could not be created.
    Aborted,
}

/// A run as a mathematical value.
pub struct RunState {
    pub direction: Direction,
    /// The units of the run, in the order in which they are attempted.
    pub units: Seq<Seq<char>>,
    /// One report for each unit that has been dealt with, in that order.
    pub reports: Seq<ReportView>,
    pub phase: Phase,
    /// The statements of the current unit's script.
    pub statements: Seq<Seq<char>>,
    /// The index of the statement that is being executed.
    pub cursor: nat,
    /// What will be reported of the current unit, once that is settled.
    pub outcome: Outcome,
    pub cause: Seq<char>,
}

impl RunState {
    /// A run before anything has happened.
    pub open spec fn start(direction: Direction, units: Seq<Seq<char>>) -> RunState {
        RunState {
            direction,
            units,
            reports: Seq::empty(),
            phase: Phase::Schema,
            statements: Seq::empty(),
            cursor: 0,
            outcome: Outcome::Done,
            cause: Seq::empty(),
        }
    }

    /// Whether the run is working on a unit.
    pub open spec fn in_unit(self) -> bool {
        match self.phase {
            Phase::Schema | Phase::Finished | Phase::Aborted => false,
            _ => true,
        }
    }

    /// Whether the run has come to its end.
    pub open spec fn ended(self) -> bool {
        self.phase == Phase::Finished || self.phase == Phase::Aborted
    }

    pub open spec fn wf(self) -> bool {
        &&& self.reports.len() <= self.units.len()
        &&& forall|j: int|
            0 <= j < self.reports.len() ==> (#[trigger] self.reports[j]).unit == self.units[j]
        &&& self.in_unit() ==> self.reports.len() < self.units.len()
        &&& self.phase == Phase::Finished ==> self.reports.len() == self.units.len()
        &&& self.phase == Phase::Schema || self.phase == Phase::Aborted ==> self.reports.len()
            == 0
        &&& self.phase == Phase::Statement ==> self.cursor < self.statements.len()
    }

    /// The unit that the run is working on.
    pub open spec fn unit(self) -> Seq<char>
        recommends
            self.reports.len() < self.units.len(),
    {
        self.units[self.reports.len() as int]
    }

    /// Whether a unit in the given applied state is eligible: not applied
    /// when applying, applied when reverting.
    pub open spec fn eligible(self, applied: bool) -> bool {
        match self.direction {
            Direction::Apply => !applied,
            Direction::Revert => applied,
        }
    }

    /// The action whose answer the run is waiting for.
    pub open spec fn pending(self) -> ActionView {
        match self.phase {
            Phase::Schema => ActionView::EnsureSchema,
            Phase::Script => ActionView::LoadScript {
                unit: self.unit(),
                direction: self.direction,
            },
            Phase::Exists => ActionView::QueryExists { unit: self.unit() },
            Phase::Begin => ActionView::Begin,
            Phase::Statement => ActionView::Execute {
                statement: self.statements[self.cursor as int],
            },
            Phase::Record => match self.direction {
                Direction::Apply => ActionView::Record { unit: self.unit() },
                Direction::Revert => ActionView::Unrecord { unit: self.unit() },
            },
            Phase::Commit => ActionView::Commit,
            Phase::Abandon => ActionView::Abandon,
            Phase::Report => ActionView::Report(self.report()),
            Phase::Finished => ActionView::Finish,
            Phase::Aborted => ActionView::Abort { cause: self.cause },
        }
    }

    /// What is reported of the current unit.
    pub open spec fn report(self) -> ReportView {
        ReportView { unit: self.unit(), outcome: self.outcome, cause: self.cause }
    }

    /// The run at the start of the unit after `done` reported ones, or at
    /// its end if there is no such unit.
    pub open spec fn at_unit(self, reports: Seq<ReportView>) -> RunState {
        RunState {
            reports,
            phase: if reports.len() < self.units.len() {
                Phase::Script
            } else {
                Phase::Finished
            },
            statements: Seq::empty(),
            cursor: 0,
            outcome: Outcome::Done,
            cause: Seq::empty(),
            ..self
        }
    }

    /// The current unit is settled: what is left is to tell the operator.
    pub open spec fn settle(self, outcome: Outcome, cause: Seq<char>) -> RunState {
        RunState { phase: Phase::Report, outcome, cause, ..self }
    }

    /// The current unit has failed inside its transaction, which is given up
    /// before the operator is told.
    pub open spec fn give_up(self, failure: Failure, cause: Seq<char>) -> RunState {
        RunState { phase: Phase::Abandon, outcome: Outcome::Failed(failure), cause, ..self }
    }

    /// The run after the answer `event` to its pending action. An event that
    /// is no answer to that action counts as its failure, without a cause.
    pub open spec fn advance(self, event: EventView) -> RunState {
        match self.phase {
            Phase::Schema => match event {
                EventView::Done => self.at_unit(Seq::empty()),
                _ => RunState { phase: Phase::Aborted, cause: event.cause(), ..self },
            },
            Phase::Script => match event {
                EventView::Script(text) => RunState {
                    phase: Phase::Exists,
                    statements: statements_of(text),
                    ..self
                },
                _ => self.settle(Outcome::Failed(Failure::Load), event.cause()),
            },
            Phase::Exists => match event {
                EventView::Exists(applied) => if self.eligible(applied) {
                    RunState { phase: Phase::Begin, ..self }
                } else {
                    self.settle(Outcome::Skipped, skip_cause(self.direction, self.unit()))
                },
                _ => self.settle(Outcome::Failed(Failure::Query), event.cause()),
            },
            Phase::Begin => match event {
                EventView::Done => if self.statements.len() > 0 {
                    RunState { phase: Phase::Statement, cursor: 0, ..self }
                } else {
                    RunState { phase: Phase::Record, ..self }
                },
                _ => self.settle(Outcome::Failed(Failure::Begin), event.cause()),
            },
            Phase::Statement => match event {
                EventView::Done => if self.cursor + 1 < self.statements.len() {
                    RunState { cursor: self.cursor + 1, ..self }
                } else {
                    RunState { phase: Phase::Record, ..self }
                },
                _ => self.give_up(Failure::Statement, event.cause()),
            },
            Phase::Record => match event {
                EventView::Done => RunState { phase: Phase::Commit, ..self },
                _ => self.give_up(Failure::Record, event.cause()),
            },
            Phase::Commit => match event {
                EventView::Done => self.settle(Outcome::Done, Seq::empty()),
                _ => self.settle(Outcome::Failed(Failure::Commit), event.cause()),
            },
            Phase::Abandon => RunState { phase: Phase::Report, ..self },
            Phase::Report => self.at_unit(self.reports.push(self.report())),
            Phase::Finished | Phase::Aborted => self,
        }
    }
}

/// A well-formed run stays well-formed, whatever the answer.
pub proof fn lemma_advance_wf(s: RunState, event: EventView)
    requires
        s.wf(),
    ensures
        s.advance(event).wf(),
{
}

/// The reports as mathematical values.
pub open spec fn report_views(reports: Seq<Report>) -> Seq<ReportView> {
    reports.map_values(|r: Report| r@)
}

/// What a run holds.
struct Core {
    direction: Direction,
    units: Vec<String>,
    reports: Vec<Report>,
    phase: Phase,
    statements: Vec<String>,
    cursor: usize,
    outcome: Outcome,
    cause: String,
}

impl View for Core {
    type V = RunState;

    closed spec fn view(&self) -> RunState {
        RunState {
            direction: self.direction,
            units: texts(self.units@),
            reports: report_views(self.reports@),
            phase: self.phase,
            statements: texts(self.statements@),
            cursor: self.cursor as nat,
            outcome: self.outcome,
            cause: self.cause@,
        }
    }
}

/// The reason that `event` gives for a failure.
fn cause_of(event: Event) -> (cause: String)
    ensures
        cause@ == event@.cause(),
{
    match event {
        Event::Failed(cause) => cause,
        _ => String::new(),
    }
}

impl Core {
    fn new(direction: Direction, units: Vec<String>) -> (run: Core)
        ensures
            run@ == RunState::start(direction, texts(units@)),
            run@.wf(),
    {
        let run = Core {
            direction,
            units,
            reports: Vec::new(),
            phase: Phase::Schema,
            statements: Vec::new(),
            cursor: 0,
            outcome: Outcome::Done,
            cause: String::new(),
        };
        proof {
            assert(report_views(run.reports@) =~= Seq::<ReportView>::empty());
            assert(texts(run.statements@) =~= Seq::<Seq<char>>::empty());
        }
        run
    }

    /// The name of the unit that the run is working on.
    fn unit_name(&self) -> (name: String)
        requires
            self@.wf(),
            self@.in_unit(),
        ensures
            name@ == self@.unit(),
    {
        self.units[self.reports.len()].clone()
    }

    fn action(&self) -> (action: Action)
        requires
            self@.wf(),
        ensures
            action@ == self@.pending(),
    {
        match self.phase {
            Phase::Schema => Action::EnsureSchema,
            Phase::Script => Action::LoadScript {
                unit: self.unit_name(),
                direction: self.direction,
            },
            Phase::Exists => Action::QueryExists { unit: self.unit_name() },
            Phase::Begin => Action::Begin,
            Phase::Statement => Action::Execute { statement: self.statements[self.cursor].clone() },
            Phase::Record => match self.direction {
                Direction::Apply => Action::Record { unit: self.unit_name() },
                Direction::Revert => Action::Unrecord { unit: self.unit_name() },
            },
            Phase::Commit => Action::Commit,
            Phase::Abandon => Action::Abandon,
            Phase::Report => Action::Report(
                Report {
                    unit: self.unit_name(),
                    outcome: self.outcome,
                    cause: self.cause.clone(),
                },
            ),
            Phase::Finished => Action::Finish,
            Phase::Aborted => Action::Abort { cause: self.cause.clone() },
        }
    }

    fn settle(&mut self, outcome: Outcome, cause: String)
        ensures
            final(self)@ == old(self)@.settle(outcome, cause@),
    {
        self.phase = Phase::Report;
        self.outcome = outcome;
        self.cause = cause;
    }

    fn give_up(&mut self, failure: Failure, cause: String)
        ensures
            final(self)@ == old(self)@.give_up(failure, cause@),
    {
        self.phase = Phase::Abandon;
        self.outcome = Outcome::Failed(failure);
        self.cause = cause;
    }

    /// Turns to the unit after those reported, or ends the run.
    fn turn_to_next(&mut self)
        ensures
            final(self)@ == old(self)@.at_unit(old(self)@.reports),
    {
        self.phase = if self.reports.len() < self.units.len() {
            Phase::Script
        } else {
            Phase::Finished
        };
        self.statements = Vec::new();
        self.cursor = 0;
        self.outcome = Outcome::Done;
        self.cause = String::new();
        proof {
            assert(texts(self.statements@) =~= Seq::<Seq<char>>::empty());
        }
    }

    fn advance(&mut self, event: Event)
        requires
            old(self)@.wf(),
        ensures
            final(self)@ == old(self)@.advance(event@),
            final(self)@.wf(),
    {
        proof {
            lemma_advance_wf(self@, event@);
            assert(self@.statements.len() == self.statements@.len());
            if self.phase == Phase::Schema {
                assert(self@.reports =~= Seq::<ReportView>::empty());
            }
        }
        match self.phase {
            Phase::Schema => match event {
                Event::Done => {
                    self.turn_to_next();
                },
                _ => {
                    self.phase = Phase::Aborted;
                    self.cause = cause_of(event);
                },
            },
            Phase::Script => match event {
                Event::Script(text) => {
                    self.statements = split_statements(text.as_str());
                    self.phase = Phase::Exists;
                },
                _ => {
                    self.settle(Outcome::Failed(Failure::Load), cause_of(event));
                },
            },
            Phase::Exists => match event {
                Event::Exists(applied) => {
                    let eligible = match self.direction {
                        Direction::Apply => !applied,
                        Direction::Revert => applied,
                    };
                    if eligible {
                        self.phase = Phase::Begin;
                    } else {
                        let unit = self.unit_name();
                        let cause = skip_message(self.direction, unit.as_str());
                        self.settle(Outcome::Skipped, cause);
                    }
                },
                _ => {
                    self.settle(Outcome::Failed(Failure::Query), cause_of(event));
                },
            },
            Phase::Begin => match event {
                Event::Done => {
                    if self.statements.len() > 0 {
                        self.phase = Phase::Statement;
                        self.cursor = 0;
                    } else {
                        self.phase = Phase::Record;
                    }
                },
                _ => {
                    self.settle(Outcome::Failed(Failure::Begin), cause_of(event));
                },
            },
            Phase::Statement => match event {
                Event::Done => {
                    let count: usize = self.statements.len();
                    if self.cursor + 1 < count {
                        self.cursor = self.cursor + 1;
                    } else {
                        self.phase = Phase::Record;
                    }
                },
                _ => {
                    self.give_up(Failure::Statement, cause_of(event));
                },
            },
            Phase::Record => match event {
                Event::Done => {
                    self.phase = Phase::Commit;
                },
                _ => {
                    self.give_up(Failure::Record, cause_of(event));
                },
            },
            Phase::Commit => match event {
                Event::Done => {
                    self.settle(Outcome::Done, String::new());
                },
                _ => {
                    self.settle(Outcome::Failed(Failure::Commit), cause_of(event));
                },
            },
            Phase::Abandon => {
                self.phase = Phase::Report;
            },
            Phase::Report => {
                let report = Report {
                    unit: self.unit_name(),
                    outcome: self.outcome,
                    cause: self.cause.clone(),
                };
                proof {
                    assert(report_views(self.reports@.push(report)) =~= report_views(
                        self.reports@,
                    ).push(report@));
                }
                self.reports.push(report);
                self.turn_to_next();
            },
            Phase::Finished | Phase::Aborted => {},
        }
    }
}

/// A run. It is made by `Run::new` and moved on by `Run::advance`; its view
/// is the `RunState` that the contracts speak of. Every run is well-formed.
pub struct Run {
    core: Core,
}

impl View for Run {
    type V = RunState;

    closed spec fn view(&self) -> RunState {
        self.core@
    }
}

impl Run {
    #[verifier::type_invariant]
    spec fn well_formed(self) -> bool {
        self.core@.wf()
    }

    /// A run over `units`, in their order. Its first action is to see to the
    /// tracking table.
    pub fn new(direction: Direction, units: Vec<String>) -> (run: Run)
        ensures
            run@ == RunState::start(direction, texts(units@)),
            run@.wf(),
    {
        Run { core: Core::new(direction, units) }
    }

    pub fn direction(&self) -> (direction: Direction)
        ensures
            direction == self@.direction,
    {
        self.core.direction
    }

    pub fn phase(&self) -> (phase: Phase)
        ensures
            phase == self@.phase,
    {
        self.core.phase
    }

    /// The units of the run, in the order in which they are attempted.
    pub fn units(&self) -> (units: &Vec<String>)
        ensures
            texts(units@) == self@.units,
    {
        &self.core.units
    }

    /// The reports of the units dealt with so far, in the order of the units.
    pub fn reports(&self) -> (reports: &Vec<Report>)
        ensures
            report_views(reports@) == self@.reports,
    {
        &self.core.reports
    }

    /// Whether the run has come to its end: nothing it is told changes it
    /// any more.
    pub fn has_ended(&self) -> (ended: bool)
        ensures
            ended == self@.ended(),
    {
        match self.core.phase {
            Phase::Finished | Phase::Aborted => true,
            _ => false,
        }
    }

    /// The action whose answer the run is waiting for.
    pub fn action(&self) -> (action: Action)
        ensures
            self@.wf(),
            action@ == self@.pending(),
    {
        proof {
            use_type_invariant(self);
        }
        self.core.action()
    }

    /// Takes the answer to the pending action and moves on.
    pub fn advance(&mut self, event: Event)
        ensures
            old(self)@.wf(),
            final(self)@ == old(self)@.advance(event@),
            final(self)@.wf(),
    {
        proof {
            use_type_invariant(&*self);
        }
        let mut core = Core::new(Direction::Apply, Vec::new());
        std::mem::swap(&mut core, &mut self.core);
        core.advance(event);
        self.core = core;
    }
}

} // verus!
