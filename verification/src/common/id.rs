use vstd::prelude::*;

verus! {

/// Object id of a table, a column or a tuple.
pub type OID = u128;

} // verus!
