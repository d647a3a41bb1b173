use vstd::prelude::*;

use crate::errors::ManifestError;
use crate::felt::Felt;
use crate::manifest::Contract;
use crate::short_string::{decode_short_string, short_string_decodable};

verus! {

/// The outcome of one read call against the ledger, as the transport
/// hands it back: the returned field elements, a contract-execution
/// revert, or any other provider failure.
pub enum CallOutcome {
    Success(Vec<Felt>),
    Reverted,
    Failed,
}

/// Whether a name-lookup outcome resolves to a name at all: a revert
/// does (to the empty name), a success does when its first returned
/// element decodes as text, and any other failure is fatal.
pub open spec fn resolvable(o: CallOutcome) -> bool {
    match o {
        CallOutcome::Success(vals) => short_string_decodable(vals@[0]@),
        CallOutcome::Reverted => true,
        CallOutcome::Failed => false,
    }
}

/// The name a resolvable outcome yields.
pub open spec fn resolved(o: CallOutcome) -> Seq<char> {
    match o {
        CallOutcome::Success(vals) => decode_short_string(vals@[0]@),
        CallOutcome::Reverted => Seq::empty(),
        CallOutcome::Failed => Seq::empty(),
    }
}

/// The error an unresolvable outcome causes.
pub open spec fn resolution_error(o: CallOutcome) -> ManifestError {
    match o {
        CallOutcome::Failed => ManifestError::Provider,
        _ => ManifestError::ShortStringDecode,
    }
}

/// Resolves one component's name from the outcome of the resource-name
/// read call at its address. A revert means the component does not
/// implement the lookup and resolves to the empty name, not an error; a
/// success yields its single returned element decoded as a packed short
/// string; any other provider failure aborts the reconstruction.
pub fn resolve_name(outcome: &CallOutcome) -> (r: Result<String, ManifestError>)
    requires
        outcome matches CallOutcome::Success(vals) ==> vals@.len() > 0,
    ensures
        r is Ok <==> resolvable(*outcome),
        r matches Ok(s) ==> s@ == resolved(*outcome),
        r matches Err(e) ==> e == resolution_error(*outcome),
{
    match outcome {
        CallOutcome::Success(vals) => vals[0].parse_short_string(),
        CallOutcome::Reverted => Ok(String::new()),
        CallOutcome::Failed => Err(ManifestError::Provider),
    }
}

/// Sets each reconciled contract's name from the outcome of its own
/// name-lookup call, one outcome per contract in order. One fatal
/// outcome aborts the pass with that outcome's error — the first
/// unresolvable outcome decides — and no partial result is reported as
/// success.
pub fn enrich_contracts(contracts: &mut Vec<Contract>, outcomes: &Vec<CallOutcome>) -> (r: Result<
    (),
    ManifestError,
>)
    requires
        outcomes@.len() == old(contracts)@.len(),
        forall|i: int|
            0 <= i < outcomes@.len() ==> ((#[trigger] outcomes@[i]) matches CallOutcome::Success(
                vals,
            ) ==> vals@.len() > 0),
    ensures
        final(contracts)@.len() == old(contracts)@.len(),
        r is Ok <==> forall|i: int| 0 <= i < outcomes@.len() ==> resolvable(#[trigger] outcomes@[i]),
        r is Ok ==> forall|i: int|
            0 <= i < final(contracts)@.len() ==> {
                let c = #[trigger] final(contracts)@[i];
                let c0 = old(contracts)@[i];
                &&& c.name@ == resolved(outcomes@[i])
                &&& c.address == c0.address
                &&& c.class_hash == c0.class_hash
                &&& c.abi == c0.abi
                &&& c.reads == c0.reads
                &&& c.writes == c0.writes
                &&& c.computed == c0.computed
            },
        r matches Err(e) ==> exists|i: int|
            0 <= i < outcomes@.len() && !resolvable(#[trigger] outcomes@[i]) && e
                == resolution_error(outcomes@[i]) && forall|j: int|
                0 <= j < i ==> resolvable(#[trigger] outcomes@[j]),
{
    let mut i: usize = 0;
    #[verifier::loop_isolation(false)]
    while i < contracts.len()
        invariant
            i <= contracts@.len(),
            contracts@.len() == old(contracts)@.len(),
            forall|j: int| 0 <= j < i ==> resolvable(#[trigger] outcomes@[j]),
            forall|j: int|
                0 <= j < i ==> {
                    let c = #[trigger] contracts@[j];
                    let c0 = old(contracts)@[j];
                    &&& c.name@ == resolved(outcomes@[j])
                    &&& c.address == c0.address
                    &&& c.class_hash == c0.class_hash
                    &&& c.abi == c0.abi
                    &&& c.reads == c0.reads
                    &&& c.writes == c0.writes
                    &&& c.computed == c0.computed
                },
            forall|j: int| i <= j < contracts@.len() ==> #[trigger] contracts@[j] == old(
                contracts,
            )@[j],
        decreases contracts@.len() - i,
    {
        let name = match resolve_name(&outcomes[i]) {
            Ok(n) => n,
            Err(err) => {
                return Err(err);
            },
        };
        contracts[i].name = name;
        i = i + 1;
    }
    Ok(())
}

} // verus!
