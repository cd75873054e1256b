//! What the pages show, and the rules they behave by.
use vstd::prelude::*;

pub mod account_detail;
pub mod accounts;
pub mod alerts;
pub mod attribution;
pub mod breakdown;
pub mod chart;
pub mod dashboard;
pub mod data;
pub mod drilled;
pub mod fmt;
pub mod overview;
pub mod query;
pub mod rules;
pub mod settings;
pub mod theme;
pub mod told;
pub mod written;

verus! {

} // verus!
