use vstd::prelude::*;

verus! {

/// The SQL statement parser of a session.
pub struct Parser {}

impl Parser {
    pub fn new() -> (r: Self) {
        Self {}
    }
}

} // verus!
