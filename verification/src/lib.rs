//! A schema-migration runner: the manifest format, the splitting of a unit's
//! script into statements, and the decisions of a run over an ordered list of
//! migration units, each with its contract.

pub mod guarantees;
pub mod ledger;
pub mod manifest;
pub mod protocol;
pub mod run;
pub mod statements;
pub mod text;
pub mod tracker;
