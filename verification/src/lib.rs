//! The verified core of a multi-cloud cost dashboard: the ledger and the
//! questions it answers, the application state beside it, and the rules by
//! which the pages turn those answers into rows, labels and charts.
use vstd::prelude::*;

pub mod alerts;
pub mod amount;
pub mod calendar;
pub mod cloud;
pub mod db;
pub mod error;
pub mod identity;
pub mod ingest;
pub mod ledger;
pub mod list;
pub mod memory;
pub mod model;
pub mod numeral;
pub mod order;
pub mod records;
pub mod secret_store;
pub mod text;
pub mod ui;

verus! {

}
