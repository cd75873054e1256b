//! The view models behind the pages: what each page shows, decided from what
//! the ledger and the application state answer.
//!
//! Headline amounts are net, but every ranking, chart and percentage is
//! computed on gross usage: credits can net an account to almost nothing, and
//! a ratio on that base is noise.
use vstd::prelude::*;

pub mod accounts;
pub mod alert_list;
pub mod asked;
pub mod attribution;
pub mod change;
pub mod columns;
pub mod detail;
pub mod diagram;
pub mod flows;
pub mod month;
pub mod overview;
pub mod page;
pub mod points;
pub mod quality;
pub mod range;
pub mod ranks;
pub mod ribbons;
pub mod series;
pub mod shown;
pub mod starter;
pub mod window;

verus! {

} // verus!
