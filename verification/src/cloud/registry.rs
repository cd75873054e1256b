//! The source registry, under the path the pages reach it by.
use vstd::prelude::*;

pub use super::{all, default_source, get, BillFileFormat, SourceDescriptor};

verus! {

} // verus!
