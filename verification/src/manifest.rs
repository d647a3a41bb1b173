use vstd::prelude::*;

use crate::felt::Felt;

verus! {

/// One field of a registered data schema; `key` marks it as part of the
/// entity's identity.
pub struct Member {
    pub name: String,
    pub ty: String,
    pub key: bool,
}

/// One input of a system's interface description.
pub struct Input {
    pub name: String,
    pub ty: String,
}

/// One output of a system's interface description.
pub struct Output {
    pub ty: String,
}

/// A read-only derived-value hook: which contract serves it, at which
/// entrypoint, and for which schema if any.
pub struct ComputedValueEntrypoint {
    pub contract: String,
    pub entrypoint: String,
    pub model: Option<String>,
}

/// A registered data schema and the class hash of the logic that last
/// defined it. The member list and the schema description are filled by
/// the collaborators that own those formats; the description itself is
/// carried opaquely as text.
pub struct Model {
    pub name: String,
    pub members: Vec<Member>,
    pub class_hash: Felt,
    pub abi: Option<String>,
}

/// A deployed component: one live entry per address. After
/// reconciliation its class hash reflects the latest upgrade observed
/// for its address, or the deployment's class hash if none was.
pub struct Contract {
    pub name: String,
    pub address: Option<Felt>,
    pub class_hash: Felt,
    pub abi: Option<String>,
    pub reads: Vec<String>,
    pub writes: Vec<String>,
    pub computed: Vec<ComputedValueEntrypoint>,
}

/// Shared logic with no address of its own, such as the base template
/// every component inherits.
pub struct Class {
    pub name: String,
    pub class_hash: Felt,
    pub abi: Option<String>,
}

/// The complete snapshot of a world: the coordinator contract itself,
/// the shared base class, the reserved resource-metadata component, and
/// the reconciled component and schema registries.
pub struct Manifest {
    pub world: Contract,
    pub base: Class,
    pub resource_metadata: Contract,
    pub contracts: Vec<Contract>,
    pub models: Vec<Model>,
}

/// A contract record carrying nothing but an address and a class hash;
/// every other field awaits a later enrichment pass or an external
/// collaborator.
pub open spec fn bare_contract(c: Contract) -> bool {
    &&& c.name@ == Seq::<char>::empty()
    &&& c.abi is None
    &&& c.reads@.len() == 0
    &&& c.writes@.len() == 0
    &&& c.computed@.len() == 0
}

impl Contract {
    /// A record for a freshly observed deployment: address and class
    /// hash only.
    pub fn deployed(address: Felt, class_hash: Felt) -> (r: Contract)
        ensures
            bare_contract(r),
            r.address matches Some(a) && a@ == address@,
            r.class_hash@ == class_hash@,
    {
        Contract {
            name: String::new(),
            address: Some(address),
            class_hash,
            abi: None,
            reads: Vec::new(),
            writes: Vec::new(),
            computed: Vec::new(),
        }
    }
}

/// Combines the bootstrap facts with the reconciled registries into one
/// snapshot, under the three fixed well-known names.
pub fn assemble_manifest(
    world_address: Felt,
    world_class_hash: Felt,
    base_class_hash: Felt,
    resource_metadata_class_hash: Felt,
    resource_metadata_address: Option<Felt>,
    contracts: Vec<Contract>,
    models: Vec<Model>,
) -> (r: Manifest)
    ensures
        r.world.name@ == "dojo::world::world"@,
        r.world.address matches Some(a) && a@ == world_address@,
        r.world.class_hash@ == world_class_hash@,
        r.world.abi is None && r.world.reads@.len() == 0 && r.world.writes@.len() == 0
            && r.world.computed@.len() == 0,
        r.base.name@ == "dojo::base::base"@,
        r.base.class_hash@ == base_class_hash@,
        r.base.abi is None,
        r.resource_metadata.name@ == "dojo::resource_metadata::resource_metadata"@,
        r.resource_metadata.class_hash@ == resource_metadata_class_hash@,
        r.resource_metadata.address == resource_metadata_address,
        r.resource_metadata.abi is None && r.resource_metadata.reads@.len() == 0
            && r.resource_metadata.writes@.len() == 0 && r.resource_metadata.computed@.len() == 0,
        r.contracts == contracts,
        r.models == models,
{
    Manifest {
        world: Contract {
            name: "dojo::world::world".to_owned(),
            address: Some(world_address),
            class_hash: world_class_hash,
            abi: None,
            reads: Vec::new(),
            writes: Vec::new(),
            computed: Vec::new(),
        },
        base: Class {
            name: "dojo::base::base".to_owned(),
            class_hash: base_class_hash,
            abi: None,
        },
        resource_metadata: Contract {
            name: "dojo::resource_metadata::resource_metadata".to_owned(),
            address: resource_metadata_address,
            class_hash: resource_metadata_class_hash,
            abi: None,
            reads: Vec::new(),
            writes: Vec::new(),
            computed: Vec::new(),
        },
        contracts,
        models,
    }
}

} // verus!
