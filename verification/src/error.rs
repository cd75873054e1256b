//! The one error the library reports: a sentence for whoever asked.
use vstd::prelude::*;

verus! {

#[derive(Debug)]
pub struct Error {
    pub message: String,
}

impl Error {
    pub fn new(message: &str) -> (res: Error)
        ensures
            res.message@ == message@,
    {
        Error { message: message.to_owned() }
    }

    pub fn of(message: String) -> (res: Error)
        ensures
            res.message == message,
    {
        Error { message }
    }
}

} // verus!
