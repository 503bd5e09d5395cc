//! Option parameters of the relational transaction interface.
use crate::common::id::OID;
use vstd::prelude::*;

verus! {

/// Optional parameters of a read.
#[derive(Clone, Debug, Default)]
pub struct OptRead {}

/// Optional parameters of an update.
pub struct OptUpdate {}

/// Optional parameters of an insert.
#[derive(Clone, Debug, Default)]
pub struct OptInsert {}

/// Optional parameters of a delete.
#[derive(Clone, Default)]
pub struct OptDelete {}

/// A datum in its binary form.
pub type DatBin = Vec<u8>;

/// Data given column by column: the column id and the datum.
#[derive(Clone, Debug, Default)]
pub struct VecDatum {
    data: Vec<(OID, DatBin)>,
}

/// The columns that a read selects.
#[derive(Clone, Debug)]
pub struct VecSelTerm {
    vec: Vec<OID>,
}

impl VecDatum {
    pub closed spec fn spec_data(&self) -> Seq<(OID, DatBin)> {
        self.data@
    }

    pub fn new(data: Vec<(OID, DatBin)>) -> (r: Self)
        ensures
            r.spec_data() == data@,
    {
        Self { data }
    }

    /// Exchanges the data with that of `other`.
    pub fn swap(&mut self, other: &mut Self)
        ensures
            final(self).spec_data() == old(other).spec_data(),
            final(other).spec_data() == old(self).spec_data(),
    {
        std::mem::swap(&mut self.data, &mut other.data);
    }

    pub fn data(&self) -> (r: &Vec<(OID, DatBin)>)
        ensures
            r@ == self.spec_data(),
    {
        &self.data
    }

    pub fn into_data(self) -> (r: Vec<(OID, DatBin)>)
        ensures
            r@ == self.spec_data(),
    {
        self.data
    }
}

impl VecSelTerm {
    pub closed spec fn spec_vec(&self) -> Seq<OID> {
        self.vec@
    }

    pub fn new(proj_list: Vec<OID>) -> (r: Self)
        ensures
            r.spec_vec() == proj_list@,
    {
        Self { vec: proj_list }
    }

    pub fn vec(&self) -> (r: &Vec<OID>)
        ensures
            r@ == self.spec_vec(),
    {
        &self.vec
    }
}

} // verus!
