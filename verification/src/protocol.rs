//! What a run and its surroundings say to each other.
//!
//! A run cannot reach the database or the file system. It names the work that
//! is due as an `Action`; whoever drives the run does that work and hands back
//! what came of it as an `Event`.

use vstd::prelude::*;

verus! {

/// Which of a unit's two scripts a run executes.
#[derive(Clone, Copy, Debug, PartialEq, Eq, Structural)]
pub enum Direction {
    Apply,
    Revert,
}

/// The step of a unit at which it failed.
#[derive(Clone, Copy, Debug, PartialEq, Eq, Structural)]
pub enum Failure {
    /// The unit's script could not be read.
    Load,
    /// The applied state of the unit could not be read.
    Query,
    /// No transaction could be opened.
    Begin,
    /// A statement of the script failed.
    Statement,
    /// The applied state could not be updated after the script had run.
    Record,
    /// The transaction could not be committed.
    Commit,
}

/// What became of one unit.
#[derive(Clone, Copy, Debug, PartialEq, Eq, Structural)]
pub enum Outcome {
    /// The script ran and the applied state was updated, in one transaction
    /// that was committed.
    Done,
    /// The unit was not eligible: already applied when applying, not applied
    /// when reverting. Nothing was executed.
    Skipped,
    /// The unit failed at the given step. Nothing of it was committed.
    Failed(Failure),
}

/// The outcome of one unit, for the operator.
#[derive(Clone, Debug, PartialEq, Eq)]
pub struct Report {
    pub unit: String,
    pub outcome: Outcome,
    /// Why the unit was skipped or why it failed; empty where it is done.
    pub cause: String,
}

pub struct ReportView {
    pub unit: Seq<char>,
    pub outcome: Outcome,
    pub cause: Seq<char>,
}

impl View for Report {
    type V = ReportView;

    open spec fn view(&self) -> ReportView {
        ReportView { unit: self.unit@, outcome: self.outcome, cause: self.cause@ }
    }
}

/// What came of the work that a run asked for.
#[derive(Clone, Debug, PartialEq, Eq)]
pub enum Event {
    /// The work succeeded, and there is nothing to tell of it.
    Done,
    /// The script that was read.
    Script(String),
    /// Whether the unit is recorded as applied.
    Exists(bool),
    /// The work failed, for the given reason.
    Failed(String),
}

pub enum EventView {
    Done,
    Script(Seq<char>),
    Exists(bool),
    Failed(Seq<char>),
}

impl View for Event {
    type V = EventView;

    open spec fn view(&self) -> EventView {
        match *self {
            Event::Done => EventView::Done,
            Event::Script(text) => EventView::Script(text@),
            Event::Exists(b) => EventView::Exists(b),
            Event::Failed(cause) => EventView::Failed(cause@),
        }
    }
}

impl EventView {
    /// The reason that the event gives for a failure; empty where it gives
    /// none.
    pub open spec fn cause(self) -> Seq<char> {
        match self {
            EventView::Failed(cause) => cause,
            _ => Seq::empty(),
        }
    }
}

/// The work that a run asks for.
#[derive(Clone, Debug, PartialEq, Eq)]
pub enum Action {
    /// Create the tracking table unless it is there. Outside any transaction.
    EnsureSchema,
    /// Read the script of `unit` for `direction`.
    LoadScript { unit: String, direction: Direction },
    /// Ask whether `unit` is recorded as applied.
    QueryExists { unit: String },
    /// Open a transaction.
    Begin,
    /// Execute one statement in the open transaction.
    Execute { statement: String },
    /// Record `unit` as applied, in the open transaction.
    Record { unit: String },
    /// Remove the record of `unit`, in the open transaction.
    Unrecord { unit: String },
    /// Commit the open transaction.
    Commit,
    /// Give the open transaction up: nothing done in it may remain.
    Abandon,
    /// Tell the operator what became of a unit.
    Report(Report),
    /// Nothing is left to do: every unit has been reported.
    Finish,
    /// The tracking table could not be created: no unit was attempted.
    Abort { cause: String },
}

pub enum ActionView {
    EnsureSchema,
    LoadScript { unit: Seq<char>, direction: Direction },
    QueryExists { unit: Seq<char> },
    Begin,
    Execute { statement: Seq<char> },
    Record { unit: Seq<char> },
    Unrecord { unit: Seq<char> },
    Commit,
    Abandon,
    Report(ReportView),
    Finish,
    Abort { cause: Seq<char> },
}

impl View for Action {
    type V = ActionView;

    open spec fn view(&self) -> ActionView {
        match *self {
            Action::EnsureSchema => ActionView::EnsureSchema,
            Action::LoadScript { unit, direction } => ActionView::LoadScript {
                unit: unit@,
                direction,
            },
            Action::QueryExists { unit } => ActionView::QueryExists { unit: unit@ },
            Action::Begin => ActionView::Begin,
            Action::Execute { statement } => ActionView::Execute { statement: statement@ },
            Action::Record { unit } => ActionView::Record { unit: unit@ },
            Action::Unrecord { unit } => ActionView::Unrecord { unit: unit@ },
            Action::Commit => ActionView::Commit,
            Action::Abandon => ActionView::Abandon,
            Action::Report(report) => ActionView::Report(report@),
            Action::Finish => ActionView::Finish,
            Action::Abort { cause } => ActionView::Abort { cause: cause@ },
        }
    }
}

/// The reason given for skipping `unit`.
pub open spec fn skip_cause(direction: Direction, unit: Seq<char>) -> Seq<char> {
    match direction {
        Direction::Apply => "migration entry for "@ + unit + " already exists"@,
        Direction::Revert => "migration "@ + unit + " did not exist"@,
    }
}

/// Writes out `skip_cause`.
pub fn skip_message(direction: Direction, unit: &str) -> (message: String)
    ensures
        message@ == skip_cause(direction, unit@),
{
    match direction {
        Direction::Apply => {
            let mut message = String::from_str("migration entry for ");
            message.append(unit);
            message.append(" already exists");
            message
        },
        Direction::Revert => {
            let mut message = String::from_str("migration ");
            message.append(unit);
            message.append(" did not exist");
            message
        },
    }
}

/// The name of the file that holds a unit's script for `direction`.
pub fn script_file(direction: Direction) -> (name: &'static str)
    ensures
        name@ == match direction {
            Direction::Apply => "up.sql"@,
            Direction::Revert => "down.sql"@,
        },
{
    match direction {
        Direction::Apply => "up.sql",
        Direction::Revert => "down.sql",
    }
}

} // verus!
