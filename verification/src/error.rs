use vstd::prelude::*;

verus! {

/// Everything that can stop a salvage run. Both kinds concern the
/// entry header: nothing later in the pipeline can fail, because the
/// decompressor reads from memory and reports a cut-off stream as its
/// ordinary, recoverable end, and the output archive is built in
/// memory, where writing cannot fail. Opening, mapping and saving
/// files stay with the caller, along with their errors.
#[derive(Clone, Copy, Debug, PartialEq, Eq, Structural)]
pub enum AcmiError {
    /// The buffer ends before the fixed-layout entry header does.
    TruncatedHeader,
    /// The four signature bytes at the front of the header are wrong.
    BadMagic,
}

} // verus!
