use vstd::prelude::*;

verus! {

/// Error codes reported by the kernel.
#[derive(Debug, Clone, Copy, PartialEq, Eq, Structural)]
pub enum EC {
    FatalError,
    StorageErr,
    IOErr,
    NoSuchElement,
    ExistingSuchElement,
    TxErr,
    IndexOutOfRange,
}

} // verus!
