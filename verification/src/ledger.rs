//! The database as a run sees it: which units are recorded as applied, which
//! statements have taken effect, and the transaction that is open.
//!
//! This is a model. It says how a database with transactions answers the
//! actions of a run, and what each action leaves behind. The guarantees of a
//! run are stated over it.

use crate::protocol::{ActionView, EventView};
use vstd::prelude::*;

verus! {

/// What the open transaction would leave behind if it were committed.
pub struct Staged {
    pub applied: Set<Seq<char>>,
    pub effects: Seq<Seq<char>>,
}

pub struct Ledger {
    /// The units that the tracking table holds.
    pub applied: Set<Seq<char>>,
    /// The statements whose effects are committed, in order.
    pub effects: Seq<Seq<char>>,
    /// The open transaction, if there is one.
    pub open: Option<Staged>,
}

impl Ledger {
    /// Whether `event` is an answer that the database can give to `action`.
    /// Any work may fail. The applied state is told as it is committed; work
    /// inside a transaction succeeds only while one is open; a unit is
    /// recorded only where the transaction does not hold it already.
    pub open spec fn answers(self, action: ActionView, event: EventView) -> bool {
        match action {
            ActionView::EnsureSchema | ActionView::Begin => event is Done || event is Failed,
            ActionView::LoadScript { .. } => event is Script || event is Failed,
            ActionView::QueryExists { unit } => event is Failed || event == EventView::Exists(
                self.applied.contains(unit),
            ),
            ActionView::Execute { .. } | ActionView::Unrecord { .. } | ActionView::Commit => {
                event is Failed || (event is Done && self.open is Some)
            },
            ActionView::Record { unit } => event is Failed || (event is Done && self.open is Some
                && !self.open->0.applied.contains(unit)),
            ActionView::Abandon | ActionView::Report(_) | ActionView::Finish | ActionView::Abort {
                ..
            } => true,
        }
    }

    /// The database after it has given the answer `event` to `action`. Work
    /// in a transaction shows only in that transaction until it is
    /// committed; a transaction that is given up, or whose commit fails,
    /// leaves nothing.
    pub open spec fn after(self, action: ActionView, event: EventView) -> Ledger {
        match action {
            ActionView::Begin => if event is Done {
                Ledger {
                    open: Some(Staged { applied: self.applied, effects: self.effects }),
                    ..self
                }
            } else {
                self
            },
            ActionView::Execute { statement } => if event is Done && self.open is Some {
                let staged = self.open->0;
                Ledger {
                    open: Some(Staged { effects: staged.effects.push(statement), ..staged }),
                    ..self
                }
            } else {
                self
            },
            ActionView::Record { unit } => if event is Done && self.open is Some {
                let staged = self.open->0;
                Ledger {
                    open: Some(Staged { applied: staged.applied.insert(unit), ..staged }),
                    ..self
                }
            } else {
                self
            },
            ActionView::Unrecord { unit } => if event is Done && self.open is Some {
                let staged = self.open->0;
                Ledger {
                    open: Some(Staged { applied: staged.applied.remove(unit), ..staged }),
                    ..self
                }
            } else {
                self
            },
            ActionView::Commit => if event is Done && self.open is Some {
                Ledger { applied: self.open->0.applied, effects: self.open->0.effects, open: None }
            } else {
                Ledger { open: None, ..self }
            },
            ActionView::Abandon => Ledger { open: None, ..self },
            _ => self,
        }
    }
}

} // verus!
