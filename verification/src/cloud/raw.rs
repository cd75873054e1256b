//! The raw payload store. Nothing is fetched and nothing is imported, so there
//! is no such directory and there are no bytes in it.
use vstd::prelude::*;

use crate::error::Error;

verus! {

/// Where raw payloads would be kept. The accounts page shows the path beside the
/// size, so the question is answered rather than refused.
pub fn raw_dir_path() -> (res: Result<String, Error>)
    ensures
        res is Ok,
        res->Ok_0@ == "(not kept in a browser)"@,
{
    Ok("(not kept in a browser)".to_owned())
}

/// How many bytes the raw store holds.
pub fn raw_dir_size() -> (res: Result<u64, Error>)
    ensures
        res is Ok,
        res->Ok_0 == 0,
{
    Ok(0)
}

} // verus!
