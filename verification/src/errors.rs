use vstd::prelude::*;

verus! {

/// The fatal conditions of a reconstruction, by kind.
///
/// `RemoteWorldNotFound` means the coordinator contract does not exist at
/// the given address, so reconstruction cannot start. `ShortStringDecode`
/// means an event's packed name field is not valid text. `Provider` covers
/// transport, deserialization and unexpected ledger failures, including a
/// matched event whose payload is shorter than its kind's shape.
/// `SchemaMapping` is reserved for a schema description that could not be
/// interpreted by the collaborator that owns that format.
///
/// The one recoverable condition, an execution revert during name lookup,
/// is not an error: it resolves to an empty name.
#[derive(Clone, Copy, Debug, PartialEq, Eq, Structural)]
pub enum ManifestError {
    RemoteWorldNotFound,
    ShortStringDecode,
    Provider,
    SchemaMapping,
}

} // verus!
