use vstd::prelude::*;

use crate::errors::ManifestError;
use crate::felt::{all_zero, Felt};

verus! {

/// The outcome of the bootstrap lookup of the coordinator's own class
/// hash at its address, as the transport hands it back.
pub enum ClassHashOutcome {
    Found(Felt),
    ContractNotFound,
    Failed,
}

/// Interprets the coordinator class-hash lookup that starts every
/// reconstruction: a missing contract at that address is the
/// distinguished "remote world not found" failure — the signal that
/// reconstruction cannot proceed at all — while any other provider
/// failure is propagated as itself.
pub fn world_class_hash_from(outcome: ClassHashOutcome) -> (r: Result<Felt, ManifestError>)
    ensures
        outcome matches ClassHashOutcome::Found(h) ==> r matches Ok(rh) && rh@ == h@,
        outcome is ContractNotFound ==> r == Err::<Felt, ManifestError>(
            ManifestError::RemoteWorldNotFound,
        ),
        outcome is Failed ==> r == Err::<Felt, ManifestError>(ManifestError::Provider),
{
    match outcome {
        ClassHashOutcome::Found(h) => Ok(h),
        ClassHashOutcome::ContractNotFound => Err(ManifestError::RemoteWorldNotFound),
        ClassHashOutcome::Failed => Err(ManifestError::Provider),
    }
}

/// Maps the ledger's all-zero address sentinel, "not yet deployed", to
/// an absent address; any other address is kept as it is.
pub fn normalize_component_address(addr: Felt) -> (r: Option<Felt>)
    ensures
        all_zero(addr@) ==> r is None,
        !all_zero(addr@) ==> (r matches Some(a) && a@ == addr@),
{
    if addr.is_zero() {
        None
    } else {
        Some(addr)
    }
}

} // verus!
