//! The transaction of a session.
use crate::common::error::EC;
use vstd::prelude::*;

verus! {

/// The source of passwords for the session login.
pub struct DummyAuthSource;

/// The transaction that a session has open, if any.
pub struct SessionTx {
    xid: Option<u64>,
}

impl View for SessionTx {
    type V = Option<u64>;

    closed spec fn view(&self) -> Option<u64> {
        self.xid
    }
}

impl SessionTx {
    /// A session without a transaction.
    pub fn new() -> (r: Self)
        ensures
            r@ is None,
    {
        SessionTx { xid: None }
    }

    /// Takes the open transaction out of the session.
    pub fn current_tx(&mut self) -> (r: Option<u64>)
        ensures
            r == old(self)@,
            final(self)@ is None,
    {
        self.xid.take()
    }

    /// Opens transaction `xid`; refused while another one is open.
    pub fn begin_tx(&mut self, xid: u64) -> (r: Result<(), EC>)
        ensures
            old(self)@ is Some ==> r == Err::<(), EC>(EC::ExistingSuchElement) && final(self)@ == old(self)@,
            old(self)@ is None ==> r is Ok && final(self)@ == Some(xid),
    {
        match self.xid {
            Some(_id) => Err(EC::ExistingSuchElement),
            None => {
                self.xid = Some(xid);
                Ok(())
            },
        }
    }

    /// Closes the open transaction, if any.
    pub fn end_tx(&mut self) -> (r: Result<(), EC>)
        ensures
            r is Ok,
            final(self)@ is None,
    {
        if let Some(_id) = self.xid {
            self.xid = None;
        }
        Ok(())
    }
}

} // verus!
